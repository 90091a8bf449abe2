//! Laws of the plain layers: projections, norms, embeddings, experts and shapes.

use crate::dtype::Dtype;
use crate::models::layers::ctx_scope::{CtxStack, Guard};
use crate::models::layers::deepstack::{self, DeepStackError};
use crate::models::layers::distributed::{
    self, Comm, EmptyWeight, HeadShardError, MergedParallelColumnLinear, ReplicatedLinear,
    TensorParallelColumnLinear, TensorParallelRowLinear,
};
use crate::models::layers::linear::{
    self, Linear, LinearError, LinearMode, LinearPlan, LinearPrefillGuard, LinearProduct, LinearX,
    QLinear, QProduct, Slice,
};
use crate::models::layers::mlp::{
    self, Activation, ActivationKernel, GateUpProjection, MlpError, MlpStep, NaiveMLP, MLP,
};
use crate::models::layers::moe::{
    self, FusedMoe, FusedMoeWNA16, MoEConfig, MoeRouting, RouteScores, Wna16Error,
};
use crate::models::layers::others::{
    self, AvgPool2d, Conv, Conv3dConfig, Conv3dNoBias, EmbeddingPlan, NormPath, NormX, V4Error,
    V4Plan,
};
use crate::models::layers::shape::{self, DimOutOfBounds, Shape};
use crate::models::layers::tensor::{self, Conv2dConfig, GgmlDType, Shard};
use crate::models::layers::var_builder::VarBuilderX;
use crate::models::layers::wna16::{self, ChunkError, PrequantError, Wna16Kernel, WNA16};
use crate::text;
use std::rc::Rc;
use vstd::prelude::*;

verus! {

// ---- Shapes ----

/// A shape tells each of its dimensions and no other.
pub proof fn law_shapes_tell_their_dims(
    s: Shape,
    n: usize,
    i: usize,
    r: Result<usize, DimOutOfBounds>,
    dims: &[usize],
)
    requires
        call_ensures(Shape::ndim, (&s,), n),
        call_ensures(Shape::dim, (&s, i), r),
        call_ensures(Shape::dims, (&s,), dims),
    ensures
        n == dims@.len(),
        r is Ok == (i < n),
        r matches Ok(d) ==> d == dims@[i as int],
        r matches Err(e) ==> e.dim == i,
{
}

/// The elements of no dimensions are one, and one more dimension multiplies them.
pub proof fn law_elements_multiply(a: &[usize], b: &[usize], x: usize, y: usize)
    requires
        call_ensures(shape::product, (a,), x),
        call_ensures(shape::product, (b,), y),
    ensures
        a@.len() == 0 ==> x == 1,
        b@.len() == a@.len() + 1 && b@.take(a@.len() as int) == a@ ==> y == x * b@[a@.len() as int],
{
    if b@.len() == a@.len() + 1 && b@.take(a@.len() as int) == a@ {
        assert(b@.drop_last() =~= a@);
    }
}

/// Reversing puts the first dimension last, and reversing again restores the shape.
pub proof fn law_reversed_dims(a: &[usize], r: Vec<usize>, view: &[usize], q: Vec<usize>, i: int)
    requires
        call_ensures(shape::reversed, (a,), r),
        view@ == r@,
        call_ensures(shape::reversed, (view,), q),
        0 <= i < a@.len(),
    ensures
        r@.len() == a@.len(),
        r@[i] == a@[a@.len() - 1 - i],
        q@ == a@,
{
    assert(q@ =~= a@);
}

/// Dims are the same exactly where their number and each of them is.
pub proof fn law_same_dims(a: &[usize], b: &[usize], r: bool, c: Vec<usize>)
    requires
        call_ensures(shape::same_dims, (a, b), r),
        call_ensures(shape::copy_dims, (a,), c),
    ensures
        r <==> a@.len() == b@.len() && forall|i: int|
            0 <= i < a@.len() ==> #[trigger] a@[i] == b@[i],
        c@.len() == a@.len(),
        forall|i: int| 0 <= i < a@.len() ==> #[trigger] c@[i] == a@[i],
{
    if a@.len() == b@.len() && (forall|i: int| 0 <= i < a@.len() ==> #[trigger] a@[i] == b@[i]) {
        assert(a@ =~= b@);
    }
}

// ---- Projections ----

/// A projection has a row for each output and a column for each input. All ways to ask
/// for one agree, and only one that is asked for a bias has one, as long as its outputs.
pub proof fn law_projections_are_planned(
    i: usize,
    o: usize,
    b: bool,
    shard: Shard,
    dtype: Dtype,
    plain: LinearPlan,
    full: LinearPlan,
    maybe: LinearPlan,
)
    requires
        call_ensures(linear::linear_no_bias, (i, o, shard, dtype), plain),
        call_ensures(linear::linear, (i, o, shard, dtype), full),
        call_ensures(linear::linear_b, (i, o, b, shard, dtype), maybe),
    ensures
        plain.weight.shape@.len() == 2,
        plain.weight.shape@[0] == o && plain.weight.shape@[1] == i,
        plain.weight.name@ == "weight"@,
        plain.weight.shard == shard && plain.dtype == dtype,
        plain.bias is None && full.bias == Some(o),
        maybe.bias == if b {
            full.bias
        } else {
            plain.bias
        },
        full.weight.shape@ == plain.weight.shape@ && maybe.weight.shape@ == plain.weight.shape@,
        full.weight.shard == shard && maybe.weight.shard == shard,
        full.dtype == dtype && maybe.dtype == dtype,
{
}

/// Projections of a checkpoint are asked for without bias, and all ways agree.
pub proof fn law_loaded_projections_are_plain(
    i: usize,
    o: usize,
    vb: VarBuilderX,
    shard: Shard,
    method: Option<&str>,
    skip: bool,
    dtype: Dtype,
    b: bool,
    x: LinearPlan,
    y: LinearPlan,
    z: LinearPlan,
)
    requires
        call_ensures(linear::linear_x, (i, o, &vb, shard, method, skip, dtype), x),
        call_ensures(linear::linear_no_bias_x, (i, o, &vb, shard, method, skip, dtype), y),
        call_ensures(linear::linear_b_x, (i, o, b, &vb, shard, method, skip, dtype), z),
    ensures
        x.weight.shape@ == seq![o, i] && y.weight.shape@ == seq![o, i] && z.weight.shape@
            == seq![o, i],
        x.bias is None && y.bias is None && z.bias is None,
        x.weight.shard == shard && y.weight.shard == shard && z.weight.shard == shard,
        x.dtype == dtype && y.dtype == dtype && z.dtype == dtype,
{
}

/// Merged experts have one dimension more in front, so that they are split along the
/// next dimension.
pub proof fn law_merged_experts_are_split_within(
    n: usize,
    i: usize,
    o: usize,
    vb: VarBuilderX,
    shard: Shard,
    dtype: Dtype,
    r: LinearPlan,
    q: LinearPlan,
)
    requires
        shard.dim < usize::MAX,
        call_ensures(linear::linear_no_bias_merged, (n, i, o, shard, dtype), r),
        call_ensures(linear::linear_no_bias_merged_x, (n, i, o, &vb, shard, dtype), q),
    ensures
        r.weight.shape@ == seq![n, o, i] && q.weight.shape@ == seq![n, o, i],
        r.weight.shard.dim == shard.dim + 1 && r.weight.shard.rank == shard.rank
            && r.weight.shard.world_size == shard.world_size,
        q.weight.shard == r.weight.shard,
        r.bias is None && q.bias is None && r.dtype == dtype && q.dtype == dtype,
{
}

/// The parts of a bias that neighbouring ranks take follow each other from its start; a
/// single rank takes all of it.
pub proof fn law_bias_parts_tile(
    n: usize,
    dim: usize,
    rank: usize,
    ranks: usize,
    a: Slice,
    b: Slice,
)
    requires
        rank < usize::MAX,
        rank + 1 < ranks,
        call_ensures(linear::bias_slice, (n, Shard { dim, rank, world_size: ranks }), a),
        call_ensures(
            linear::bias_slice,
            (n, Shard { dim, rank: (rank + 1) as usize, world_size: ranks }),
            b,
        ),
    ensures
        rank == 0 ==> a.start == 0,
        a.len == b.len,
        b.start == a.start + a.len,
        a.len * ranks <= n < a.len * ranks + ranks,
        b.start + b.len <= n,
{
    let (t, p) = (n as int, ranks as int);
    let len = t / p;
    assert((rank + 1) * len == rank * len + len && 0 * len == 0) by (nonlinear_arith);
    assert(len * p <= t < len * p + p) by (nonlinear_arith)
        requires
            len == t / p,
            p > 0,
            t >= 0,
    ;
}

/// A single rank takes the whole bias.
pub proof fn law_single_ranks_take_the_bias(n: usize, shard: Shard, r: Slice)
    requires
        shard.world_size <= 1,
        call_ensures(linear::bias_slice, (n, shard), r),
    ensures
        r.start == 0,
        r.len == n,
{
}

/// The inputs of a projection are cut exactly where it is split by them.
pub proof fn law_inputs_are_cut_by_ranks(n: usize, shard: Shard, r: usize)
    requires
        call_ensures(linear::local_last_dim, (n, shard), r),
    ensures
        shard.world_size <= 1 || shard.dim != 1 ==> r == n,
        shard.world_size > 1 && shard.dim == 1 ==> r * shard.world_size <= n < r * shard.world_size
            + shard.world_size,
{
    if shard.world_size > 1 && shard.dim == 1 {
        let (t, p) = (n as int, shard.world_size as int);
        assert((t / p) * p <= t < (t / p) * p + p) by (nonlinear_arith)
            requires
                p > 0,
                t >= 0,
        ;
    }
}

/// Inputs of three dimensions are flattened where each batch has a single row, and
/// broadcast where it has more; four dimensions are broadcast in the same way.
pub proof fn law_products_follow_dims(dims: &[usize], r: LinearProduct)
    requires
        call_ensures(linear::linear_product, (dims,), r),
    ensures
        dims@.len() == 4 && dims@[1] > 1 <==> r is BroadcastTwo,
        dims@.len() == 3 && dims@[1] > 1 <==> r is BroadcastOne,
        dims@.len() == 3 && dims@[1] <= 1 <==> r is Flattened,
        r matches LinearProduct::BroadcastTwo { outer, inner } ==> outer == dims@[0] && inner
            == dims@[1],
        r matches LinearProduct::BroadcastOne { outer } ==> outer == dims@[0],
        r matches LinearProduct::Flattened { rows, dim, batch, seq_len } ==> dim == dims@[2]
            && batch == dims@[0] && seq_len == dims@[1] && rows == batch * seq_len,
{
    if dims@.len() == 3 && dims@[1] <= 1 {
        let a = dims@[0] as int;
        assert(a * 0 == 0 && a * 1 == a) by (nonlinear_arith);
    }
}

/// A guard keeps the mode that was set before, and restoring it brings that mode back.
pub proof fn law_guards_restore(
    a: &mut LinearMode,
    set: bool,
    g: LinearPrefillGuard,
    b: &mut LinearMode,
    before: bool,
    during: bool,
    after: bool,
)
    requires
        call_ensures(linear::set_linear_is_prefill, (a, set), g),
        call_ensures(linear::linear_is_prefill, (old(a),), before),
        call_ensures(linear::linear_is_prefill, (final(a),), during),
        call_ensures(LinearMode::restore, (b, g), ()),
        call_ensures(linear::linear_is_prefill, (final(b),), after),
    ensures
        during == set,
        after == before,
{
}

/// A mode starts outside of a prefill.
pub proof fn law_modes_start_outside(m: LinearMode, r: bool)
    requires
        call_ensures(LinearMode::new, (), m),
        call_ensures(linear::linear_is_prefill, (&m,), r),
    ensures
        !r,
{
}

/// A shard names its dimension, its rank and the number of ranks.
pub proof fn law_shards_name_their_rank(d: usize, r: usize, w: usize, a: Shard, b: Shard)
    requires
        call_ensures(linear::shard, (d, r, w), a),
        call_ensures(distributed::shard, (d, r, w), b),
    ensures
        a == b,
        a.dim == d && a.rank == r && a.world_size == w,
{
}

/// A projection gives its weight and its bias back.
pub proof fn law_projections_keep_their_weight<T>(
    w: T,
    b: Option<T>,
    l: Linear<T>,
    got: &T,
    bias: Option<&T>,
)
    requires
        call_ensures(Linear::<T>::new, (w, b), l),
        call_ensures(Linear::<T>::weight, (&l,), got),
        call_ensures(Linear::<T>::bias, (&l,), bias),
    ensures
        *got == w,
        bias is Some == b is Some,
        bias matches Some(x) ==> b == Some(*x),
{
}

/// A quantized projection multiplies packed weights before others, and is invalid with
/// neither; experts are picked from the others alone.
pub proof fn law_quantized_products<T>(
    q: QLinear<T>,
    r: Result<QProduct, LinearError>,
    e: Result<(), LinearError>,
)
    requires
        call_ensures(QLinear::<T>::product, (&q,), r),
        call_ensures(QLinear::<T>::indexed_moe_product, (&q,), e),
    ensures
        r is Ok == (q.wna16 is Some || q.inner is Some),
        r matches Ok(p) ==> p is Wna16 == q.wna16 is Some,
        r matches Err(x) ==> x is InvalidQuantization,
        e is Ok == q.inner is Some,
        e matches Err(x) ==> x is InvalidQuantization,
{
}

/// What a projection of some kind gives: scales only of one, the dense weight only of
/// another, and a conversion only of a dense one whose type differs.
pub proof fn law_kinds_of_projections<T>(
    l: LinearX<T>,
    w: Dtype,
    i: Dtype,
    c: Option<(Dtype, Dtype)>,
    s: Option<(&T, &T)>,
    d: Result<&T, LinearError>,
    active: bool,
)
    requires
        call_ensures(LinearX::<T>::dense_conversion, (&l, w, i), c),
        call_ensures(LinearX::<T>::fp8_weight_scale, (&l,), s),
        call_ensures(LinearX::<T>::dense_weight, (&l,), d),
        call_ensures(LinearX::<T>::w4a8_active, (&l,), active),
    ensures
        c is Some == (l is Linear && w != i),
        c matches Some(p) ==> p.0 == w && p.1 == i,
        s is Some == l is LnFp8,
        s matches Some(p) ==> *p.0 == l->LnFp8_0.weight && *p.1 == l->LnFp8_0.weight_scale,
        d is Ok == l is Linear,
        d matches Err(e) ==> e is DenseOfQuantized,
        active ==> l is QLinear,
        l matches LinearX::QLinear(q) ==> active == (q.wna16 is Some && q.wna16->Some_0.a8),
{
}

/// Inputs quantized beforehand are taken by packed weights alone, of two dimensions.
pub proof fn law_quantized_inputs<T>(l: LinearX<T>, rank: usize, r: Result<(), LinearError>)
    requires
        call_ensures(LinearX::<T>::check_prequant, (&l, rank), r),
    ensures
        r is Ok == (l is QLinear && l->QLinear_0.wna16 is Some && l->QLinear_0.wna16->Some_0.a8
            && rank == 2),
        !(l is QLinear) ==> r == Err::<(), LinearError>(LinearError::PrequantOtherKind),
        l matches LinearX::QLinear(q) ==> {
            &&& q.wna16 is None ==> r == Err::<(), LinearError>(LinearError::PrequantWithoutWna16)
            &&& q.wna16 matches Some(w) ==> {
                &&& !w.a8 ==> r == Err::<(), LinearError>(
                    LinearError::Prequant(PrequantError::NotW4A8),
                )
                &&& w.a8 && rank != 2 ==> r == Err::<(), LinearError>(
                    LinearError::Prequant(PrequantError::NotTwoDimensional),
                )
            }
        },
{
}

/// The checks of packed weights: 8 bit activations, the kernel by its zero points, and
/// chunks that divide over ranks, groups and words.
pub proof fn law_packed_weights<T>(
    w: WNA16<T>,
    active: bool,
    k: Wna16Kernel,
    in_dim: usize,
    out: usize,
    chunk: usize,
    world: usize,
    group: usize,
    r: Result<(), ChunkError>,
)
    requires
        call_ensures(WNA16::<T>::is_w4a8, (&w,), active),
        call_ensures(WNA16::<T>::kernel, (&w,), k),
        call_ensures(wna16::check_ct_awq_merged_chunk, (in_dim, out, chunk, world, group), r),
    ensures
        active == w.a8,
        k is Awq == w.awq_z is Some,
        k matches Wna16Kernel::Awq { compute, back_to } ==> compute is F16 && back_to == w.dtype,
        r is Ok == (chunk as int % world as int == 0 && in_dim as int % group as int == 0 && out % 8
            == 0),
        r matches Err(e) ==> e.chunk_len == chunk && e.world == world && e.in_dim == in_dim
            && e.group_size == group,
{
}

/// Quantized types are known by short names in any case, and all others are one type.
pub proof fn law_quantized_types_have_names(a: &str, r: GgmlDType)
    requires
        call_ensures(linear::ggml_dtype_from_str, (a,), r),
    ensures
        a@ == "q4_0"@ || a@ == "q40"@ ==> r is Q4_0,
        a@ == "q4_1"@ || a@ == "q41"@ ==> r is Q4_1,
        a@ == "q5_0"@ || a@ == "q50"@ ==> r is Q5_0,
        a@ == "q5_1"@ || a@ == "q51"@ ==> r is Q5_1,
        a@ == "q8_0"@ || a@ == "q80"@ ==> r is Q8_0,
        a@.len() >= 3 && a@.last() != '0' && a@.last() != '1' ==> r is Q4K,
        a@.len() >= 3 && a@.last() == '0' ==> r is Q4_0 || r is Q5_0 || r is Q8_0 || r is Q4K,
        a@.len() >= 3 && a@.last() == '1' ==> r is Q4_1 || r is Q5_1 || r is Q4K,
        a@.len() == 4 && a@[2] != '_' ==> r is Q4K,
        r is Q4_0 || r is Q4_1 || r is Q5_0 || r is Q5_1 || r is Q8_0 || r is Q4K,
        a@.len() < 2 || a@.len() > 4 ==> r is Q4K,
        a@.len() > 0 && a@[0] != 'q' && a@[0] != 'Q' ==> r is Q4K,
        a@.len() > 1 && a@[1] != '4' && a@[1] != '5' && a@[1] != '8' ==> r is Q4K,
        a@.len() >= 2 && a@[1] == '4' ==> r is Q4_0 || r is Q4_1 || r is Q4K,
        a@.len() >= 2 && a@[1] == '5' ==> r is Q5_0 || r is Q5_1 || r is Q4K,
        a@.len() >= 2 && a@[1] == '8' ==> r is Q8_0 || r is Q4K,
        a@.len() == 2 && (a@[0] == 'q' || a@[0] == 'Q') ==> {
            &&& a@[1] == '4' ==> r is Q4_1
            &&& a@[1] == '5' ==> r is Q5_1
            &&& a@[1] == '8' ==> r is Q8_0
        },
{
    lemma_names_of_types();
    let s = a@;
    assert forall|t: Seq<char>| #[trigger] text::same_ignoring_case(s, t) implies s.len()
        == t.len() && (s.len() > 0 ==> text::ascii_lower(s[0]) == text::ascii_lower(t[0])) && (
    s.len() > 1 ==> text::ascii_lower(s[1]) == text::ascii_lower(t[1])) by {}
    lemma_lower_of_names(s);
    assert(a@ == "q4_0"@ ==> text::same_ignoring_case(s, "q4_0"@));
    assert(a@ == "q40"@ ==> text::same_ignoring_case(s, "q40"@));
    if s.len() == 2 && (s[0] == 'q' || s[0] == 'Q') {
        if s[1] == '4' {
            assert forall|i: int| 0 <= i < 2 implies text::ascii_lower(#[trigger] s[i])
                == text::ascii_lower("q4"@[i]) by {
                assert(i == 0 || i == 1);
            }
            assert(text::same_ignoring_case(s, "q4"@));
        } else if s[1] == '5' {
            assert forall|i: int| 0 <= i < 2 implies text::ascii_lower(#[trigger] s[i])
                == text::ascii_lower("q5"@[i]) by {
                assert(i == 0 || i == 1);
            }
            assert(text::same_ignoring_case(s, "q5"@));
        } else if s[1] == '8' {
            assert forall|i: int| 0 <= i < 2 implies text::ascii_lower(#[trigger] s[i])
                == text::ascii_lower("q8"@[i]) by {
                assert(i == 0 || i == 1);
            }
            assert(text::same_ignoring_case(s, "q8"@));
        }
    }
}

/// The case of a name does not matter.
pub proof fn law_quantized_types_ignore_case(
    a: &str,
    b: &str,
    same: bool,
    x: GgmlDType,
    y: GgmlDType,
)
    requires
        call_ensures(text::eq_ignore_ascii_case, (a, b), same),
        call_ensures(linear::ggml_dtype_from_str, (a,), x),
        call_ensures(linear::ggml_dtype_from_str, (b,), y),
    ensures
        same ==> x == y,
{
    if same {
        assert forall|t: Seq<char>| #[trigger] text::same_ignoring_case(a@, t)
            == text::same_ignoring_case(b@, t) by {
            if text::same_ignoring_case(a@, t) {
                assert forall|i: int| 0 <= i < b@.len() implies text::ascii_lower(
                    #[trigger] b@[i],
                ) == text::ascii_lower(t[i]) by {
                    assert(text::ascii_lower(a@[i]) == text::ascii_lower(b@[i]));
                }
            }
            if text::same_ignoring_case(b@, t) {
                assert forall|i: int| 0 <= i < a@.len() implies text::ascii_lower(
                    #[trigger] a@[i],
                ) == text::ascii_lower(t[i]) by {
                    assert(text::ascii_lower(a@[i]) == text::ascii_lower(b@[i]));
                    assert(text::ascii_lower(b@[i]) == text::ascii_lower(t[i]));
                }
            }
        }
    }
}

proof fn lemma_names_of_types()
    ensures
        "q40"@ == seq!['q', '4', '0'] && "q4_0"@ == seq!['q', '4', '_', '0'],
        "q4"@ == seq!['q', '4'] && "q41"@ == seq!['q', '4', '1'],
        "q4_1"@ == seq!['q', '4', '_', '1'],
        "q50"@ == seq!['q', '5', '0'] && "q5_0"@ == seq!['q', '5', '_', '0'],
        "q5"@ == seq!['q', '5'] && "q51"@ == seq!['q', '5', '1'],
        "q5_1"@ == seq!['q', '5', '_', '1'],
        "q8"@ == seq!['q', '8'] && "q80"@ == seq!['q', '8', '0'],
        "q8_0"@ == seq!['q', '8', '_', '0'],
{
    reveal_strlit("q40");
    reveal_strlit("q4_0");
    reveal_strlit("q4");
    reveal_strlit("q41");
    reveal_strlit("q4_1");
    reveal_strlit("q50");
    reveal_strlit("q5_0");
    reveal_strlit("q5");
    reveal_strlit("q51");
    reveal_strlit("q5_1");
    reveal_strlit("q8");
    reveal_strlit("q80");
    reveal_strlit("q8_0");
    assert("q40"@ =~= seq!['q', '4', '0'] && "q4_0"@ =~= seq!['q', '4', '_', '0']);
    assert("q4"@ =~= seq!['q', '4'] && "q41"@ =~= seq!['q', '4', '1']);
    assert("q4_1"@ =~= seq!['q', '4', '_', '1']);
    assert("q50"@ =~= seq!['q', '5', '0'] && "q5_0"@ =~= seq!['q', '5', '_', '0']);
    assert("q5"@ =~= seq!['q', '5'] && "q51"@ =~= seq!['q', '5', '1']);
    assert("q5_1"@ =~= seq!['q', '5', '_', '1']);
    assert("q8"@ =~= seq!['q', '8'] && "q80"@ =~= seq!['q', '8', '0']);
    assert("q8_0"@ =~= seq!['q', '8', '_', '0']);
}

proof fn lemma_lower_of_names(s: Seq<char>)
    ensures
        text::ascii_lower('q') == 'q' && text::ascii_lower('Q') == 'q',
        text::ascii_lower('4') == '4' && text::ascii_lower('5') == '5' && text::ascii_lower('8')
            == '8',
        s.len() > 0 && text::ascii_lower(s[0]) == 'q' ==> s[0] == 'q' || s[0] == 'Q',
        s.len() > 1 && text::ascii_lower(s[1]) == '4' ==> s[1] == '4',
        s.len() > 1 && text::ascii_lower(s[1]) == '5' ==> s[1] == '5',
        s.len() > 1 && text::ascii_lower(s[1]) == '8' ==> s[1] == '8',
{
}

/// Scales of small floats are tensors of a few names.
pub proof fn law_small_floats_have_their_tensors(
    vb: VarBuilderX,
    mlx: bool,
    four: bool,
    eight: bool,
)
    requires
        call_ensures(linear::has_fp4_scale_tensors, (&vb, mlx), four),
        call_ensures(linear::has_fp8_tensors, (&vb,), eight),
    ensures
        mlx ==> four == (vb.lists("weight"@) && vb.lists("scales"@)),
        !mlx && (vb.lists("weight_scale"@) || vb.lists("weight_scale_2"@) || vb.lists(
            "weight_global_scale"@,
        )) ==> four,
        !mlx && (vb.lists("weight_packed"@) || vb.lists("blocks"@)) ==> four,
        !mlx && four && !vb.lists("weight_scale"@) && !vb.lists("weight_packed"@) && !vb.lists(
            "blocks"@,
        ) && !vb.lists("weight_scale_2"@) ==> vb.lists("weight_global_scale"@),
        vb.lists("weight_scale"@) || vb.lists("weight_scale_inv"@) || vb.lists("scale"@) ==> eight,
        eight && !vb.lists("weight_scale"@) && !vb.lists("scale"@) ==> vb.lists(
            "weight_scale_inv"@,
        ),
{
}

// ---- Ranks ----

/// Key heads are split exactly where they divide over the ranks, and all ranks together
/// have them all.
pub proof fn law_key_heads_are_split(
    n: usize,
    rank: usize,
    ranks: usize,
    r: Result<(usize, Shard), HeadShardError>,
)
    requires
        ranks > 0,
        call_ensures(distributed::kv_head_shard, (n, rank, ranks), r),
    ensures
        r is Ok == (n as int % ranks as int == 0),
        r matches Ok((heads, s)) ==> heads * ranks == n && s.dim == 0 && s.rank == rank
            && s.world_size == ranks,
        r matches Err(e) ==> e.num_kv_heads == n && e.world_size == ranks,
{
    let (t, p) = (n as int, ranks as int);
    vstd::arithmetic::div_mod::lemma_fundamental_div_mod(t, p);
    assert(p * (t / p) == (t / p) * p) by (nonlinear_arith);
}

/// Packed parts lie one behind the other, each as long as it was asked for, whether they
/// are cut from lengths or from a weight; a weight without dimensions has none.
pub proof fn law_packed_parts_tile(
    splits: &[usize],
    r: Vec<Slice>,
    dims: &[usize],
    p: Result<Vec<Slice>, EmptyWeight>,
    i: int,
)
    requires
        call_ensures(distributed::packed_slices, (splits,), r),
        call_ensures(MergedParallelColumnLinear::from_packed_local, (dims, splits), p),
        0 <= i < splits@.len(),
    ensures
        r@.len() == splits@.len(),
        r@[0].start == 0,
        r@[i].len == splits@[i],
        i + 1 < splits@.len() ==> r@[i + 1].start == r@[i].start + r@[i].len,
        p is Ok == (dims@.len() > 0),
        p matches Ok(q) ==> q@.len() == r@.len() && q@[i].start == r@[i].start && q@[i].len
            == r@[i].len,
{
    let _ = r@[0];
    if i + 1 < splits@.len() {
        let _ = r@[i + 1];
    }
    if p is Ok {
        let _ = (p->Ok_0)@[i];
    }
}

/// Parallel projections keep their module and their size. Columns are split by outputs,
/// rows by inputs, and replicated ones not at all.
pub proof fn law_parallel_projections(
    i: usize,
    o: usize,
    b: bool,
    vb: VarBuilderX,
    comm: Comm,
    method: Option<&str>,
    skip: bool,
    dtype: Dtype,
    col: TensorParallelColumnLinear,
    row: TensorParallelRowLinear,
    rep: ReplicatedLinear,
    t: Dtype,
)
    requires
        call_ensures(
            TensorParallelColumnLinear::load_with_hints,
            (i, o, b, &vb, &comm, method, skip, dtype),
            col,
        ),
        call_ensures(
            TensorParallelRowLinear::load_with_hints,
            (i, o, &vb, &comm, method, skip, dtype),
            row,
        ),
        call_ensures(ReplicatedLinear::load_b, (i, o, b, &vb, dtype), rep),
        call_ensures(TensorParallelRowLinear::dtype, (&row,), t),
    ensures
        col.path@ == vb.path@ && row.path@ == vb.path@ && rep.path@ == vb.path@,
        col.inner.weight.shape@ == seq![o, i] && row.inner.weight.shape@ == seq![o, i]
            && rep.inner.weight.shape@ == seq![o, i],
        col.inner.weight.shard.dim == 0 && row.inner.weight.shard.dim == 1,
        col.inner.weight.shard.rank == comm.rank && row.inner.weight.shard.rank == comm.rank,
        col.inner.weight.shard.world_size == comm.world_size && row.inner.weight.shard.world_size
            == comm.world_size,
        rep.inner.weight.shard == (Shard { dim: 0, rank: 0, world_size: 0 }),
        col.inner.dtype == dtype && row.inner.dtype == dtype && rep.inner.dtype == dtype,
        row.comm == comm && t == dtype,
        col.inner.bias is None && row.inner.bias is None && rep.inner.bias is None,
{
}

/// Projections that are told their shard take it as it is.
pub proof fn law_told_shards_are_taken(
    i: usize,
    o: usize,
    b: bool,
    vb: VarBuilderX,
    shard: Shard,
    method: Option<&str>,
    skip: bool,
    dtype: Dtype,
    comm: Comm,
    c: TensorParallelColumnLinear,
    d: TensorParallelColumnLinear,
    e: TensorParallelRowLinear,
    f: TensorParallelRowLinear,
    g: ReplicatedLinear,
)
    requires
        call_ensures(
            TensorParallelColumnLinear::load_with_shard,
            (i, o, b, &vb, shard, method, skip, dtype),
            c,
        ),
        call_ensures(
            TensorParallelColumnLinear::new_loaded,
            (i, o, &vb, shard, method, skip, dtype, b),
            d,
        ),
        call_ensures(
            TensorParallelRowLinear::new_loaded,
            (i, o, &vb, shard, method, skip, dtype, b, &comm),
            e,
        ),
        call_ensures(
            TensorParallelRowLinear::new_with_bias,
            (i, o, b, &vb, shard, method, skip, dtype, &comm),
            f,
        ),
        call_ensures(
            ReplicatedLinear::new,
            (i, o, &vb, shard, method, skip, dtype, b),
            g,
        ),
    ensures
        c.inner.weight.shard == shard && d.inner.weight.shard == shard && e.inner.weight.shard
            == shard && f.inner.weight.shard == shard && g.inner.weight.shard == shard,
        c.inner.weight.shape@ == seq![o, i] && d.inner.weight.shape@ == seq![o, i]
            && e.inner.weight.shape@ == seq![o, i] && f.inner.weight.shape@ == seq![o, i]
            && g.inner.weight.shape@ == seq![o, i],
        c.path@ == vb.path@ && d.path@ == vb.path@ && e.path@ == vb.path@ && f.path@ == vb.path@
            && g.path@ == vb.path@,
        e.comm == comm && f.comm == comm,
{
}

/// Merged projections stand under their numbers, each with its own length.
pub proof fn law_merged_projections_are_numbered(
    dim: usize,
    lens: &[usize],
    vb: VarBuilderX,
    shard: Shard,
    method: Option<&str>,
    skip: bool,
    dtype: Dtype,
    r: MergedParallelColumnLinear,
    q: MergedParallelColumnLinear,
    i: int,
    name: String,
    n: usize,
)
    requires
        call_ensures(
            MergedParallelColumnLinear::new_loaded,
            (dim, lens, &vb, shard, method, skip, dtype),
            r,
        ),
        call_ensures(
            MergedParallelColumnLinear::load_merged_chunks,
            (dim, lens, &vb, method, skip, dtype),
            q,
        ),
        0 <= i < lens@.len(),
        n == i,
        call_ensures(text::decimal, (n,), name),
    ensures
        r.linears@.len() == lens@.len() && q.linears@.len() == lens@.len(),
        r.linears@[i].path@ == vb.name_of(name@) && q.linears@[i].path@ == vb.name_of(name@),
        r.linears@[i].inner.weight.shape@ == seq![dim, lens@[i]],
        q.linears@[i].inner.weight.shape@ == seq![dim, lens@[i]],
        r.linears@[i].inner.weight.shard == shard,
        q.linears@[i].inner.weight.shard == (Shard { dim: 0, rank: 0, world_size: 0 }),
        r.linears@[i].inner.dtype == dtype && q.linears@[i].inner.dtype == dtype,
        r.linears@[i].inner.bias is None && q.linears@[i].inner.bias is None,
{
    let _ = r.linears@[i];
    let _ = q.linears@[i];
}

// ---- Norms ----

/// Norms keep their size and their epsilon. In single files they are not split and run
/// in single precision, else as they are asked for.
pub proof fn law_norms_are_planned(
    size: usize,
    eps: u64,
    vb: VarBuilderX,
    dtype: Dtype,
    one: bool,
    shard: Shard,
    affine: bool,
    a: NormX,
    b: NormX,
    c: NormX,
    d: NormX,
    l: NormX,
)
    requires
        call_ensures(others::rms_norm, (size, eps, &vb, dtype, one), a),
        call_ensures(others::rms_norm_sharded, (size, eps, &vb, dtype, one, shard), b),
        call_ensures(others::rms_norm_v4, (size, eps, &vb, dtype), c),
        call_ensures(others::rms_norm_v4_sharded, (size, eps, &vb, dtype, shard), d),
        call_ensures(others::layer_norm, (size, eps, affine, &vb, dtype), l),
    ensures
        a.size == size && b.size == size && c.size == size && d.size == size && l.size == size,
        a.eps == eps && b.eps == eps && c.eps == eps && d.eps == eps && l.eps == eps,
        a.kind is Rms && b.kind is Rms && c.kind is Rms && d.kind is Rms && l.kind is Layer,
        a.add_one == one && b.add_one == one && !c.add_one && !d.add_one && !l.add_one,
        !a.v4 && !b.v4 && c.v4 && d.v4 && !l.v4,
        !a.bias && !b.bias && !c.bias && !d.bias && l.bias == affine,
        a.dequantize == vb.is_gguf && b.dequantize == vb.is_gguf && c.dequantize == vb.is_gguf
            && d.dequantize == vb.is_gguf && l.dequantize == vb.is_gguf,
        vb.is_gguf ==> a.dtype is F32 && b.dtype is F32 && c.dtype is F32 && d.dtype is F32
            && l.dtype is F32,
        !vb.is_gguf ==> a.dtype == dtype && b.dtype == dtype && c.dtype == dtype && d.dtype == dtype
            && l.dtype == dtype,
        a.shard.world_size == 0 && c.shard.world_size == 0 && l.shard.world_size == 0,
        a.shard.rank == 0 && c.shard.rank == 0 && l.shard.rank == 0,
        a.shard.dim == 0 && c.shard == a.shard && l.shard == a.shard,
        vb.is_gguf ==> b.shard == a.shard && d.shard == a.shard,
        !vb.is_gguf ==> b.shard == shard && d.shard == shard,
{
}

/// A norm converts an input of another type to its own and back; the newest kind takes
/// its own path, and only it runs in place, along the last dimension.
pub proof fn law_norms_take_their_path(
    n: NormX,
    input: Dtype,
    r: NormPath,
    dims: &[usize],
    q: Result<usize, V4Error>,
)
    requires
        call_ensures(NormX::path, (&n, input), r),
        call_ensures(NormX::forward_v4_inplace, (&n, dims), q),
    ensures
        r is V4 == n.v4,
        r is Plain == (!n.v4 && input == n.dtype),
        r matches NormPath::Converted { to, back } ==> to == n.dtype && back == input && to != back,
        q is Ok == (n.v4 && dims@.len() > 0),
        q matches Ok(d) ==> d == dims@[dims@.len() - 1],
        q matches Err(e) ==> e is NoWeight == !n.v4,
{
}

/// A norm of the newest kind runs over rows of the last dimension, in the half type of
/// its kernel, and brings shape and type back where it changed them.
pub proof fn law_newest_norms_run_over_rows(
    dims: &[usize],
    dtype: Dtype,
    r: Result<V4Plan, V4Error>,
    before: &[usize],
    n: usize,
)
    requires
        call_ensures(others::plan_v4, (dims, dtype), r),
        dims@.len() > 0,
        before@ == dims@.take(dims@.len() - 1),
        call_ensures(shape::product, (before,), n),
    ensures
        r matches Ok(p) && p.dim == dims@[dims@.len() - 1] && p.rows >= 1 && (n >= 1 ==> p.rows
            == n) && (n == 0 ==> p.rows == 1) && (p.convert is None == dtype is BF16) && (
        p.convert_back is None == dtype is BF16) && (p.convert is Some ==> p.convert == Some(
            Dtype::BF16,
        )) && (p.convert_back is Some ==> p.convert_back == Some(dtype)) && (p.restore_shape == !(
        dims@.len() == 2 && dims@[0] == p.rows)) && (p.fast == (dtype is BF16 && !p.restore_shape)),
{
    assert(dims@.drop_last() =~= before@);
    if dims@.len() == 1 {
        assert(before@.len() == 0);
    }
}

// ---- Embeddings and convolutions ----

/// An embedding has a row for each word. Single files give it as it is listed, packed
/// ones hold eight values a word and a scale for sixteen.
pub proof fn law_embeddings_are_planned(
    vocab: Option<usize>,
    hidden: usize,
    vb: VarBuilderX,
    dtype: Dtype,
    r: EmbeddingPlan,
)
    requires
        call_ensures(others::embedding, (vocab, hidden, &vb, dtype), r),
    ensures
        r is Listed == vocab is None,
        vocab matches Some(v) ==> match r {
            EmbeddingPlan::Sized { vocab: n, hidden: h } => vb.is_gguf && n == v && h == hidden,
            EmbeddingPlan::Dense { vocab: n, hidden: h, dtype: d } => !vb.is_gguf && !vb.lists(
                "scales"@,
            ) && n == v && h == hidden && d == dtype,
            EmbeddingPlan::MlxNvfp4 { vocab: n, weight_cols, scale_cols, out_dtype } => !vb.is_gguf
                && vb.lists("scales"@) && n == v && 8 * weight_cols <= hidden < 8 * weight_cols + 8
                && 16 * scale_cols <= hidden < 16 * scale_cols + 16 && (if dtype is F16 || dtype
                is BF16 {
                out_dtype == dtype
            } else {
                out_dtype is BF16
            }),
            EmbeddingPlan::Listed => false,
        },
{
}

/// The words of an embedding are told, or are the rows of its weight; its length is the
/// last dimension.
pub proof fn law_embeddings_have_their_size(
    vocab: Option<usize>,
    dims: &[usize],
    v: usize,
    d: usize,
)
    requires
        call_ensures(others::embedding_vocab, (vocab, dims), v),
        call_ensures(others::embedding_dim, (dims,), d),
    ensures
        vocab matches Some(n) ==> v == n,
        vocab is None && dims@.len() > 0 ==> v == dims@[0],
        vocab is None && dims@.len() == 0 ==> v == 0,
        dims@.len() > 0 ==> d == dims@[dims@.len() - 1],
        dims@.len() == 0 ==> d == 0,
{
}

/// Convolutions have a kernel of the last dimension and a step of one; their weights
/// have the inputs of one group.
pub proof fn law_convolutions_are_planned(
    dims: &[usize],
    bias: bool,
    c: Conv,
    i: usize,
    o: usize,
    k: usize,
    cfg: Conv2dConfig,
    vb: VarBuilderX,
    r: (Vec<usize>, Option<usize>),
)
    requires
        call_ensures(Conv::new, (dims, bias), c),
        cfg.groups > 0,
        call_ensures(others::conv2d, (i, o, k, cfg, &vb, bias), r),
    ensures
        c.with_bias == bias && c.stride == 1 && c.groups == 1 && c.padding == 0 && c.dilation == 1,
        dims@.len() > 0 ==> c.kernel == dims@[dims@.len() - 1],
        dims@.len() == 0 ==> c.kernel == 1,
        r.0@.len() == 4 && r.0@[0] == o && r.0@[2] == k && r.0@[3] == k,
        r.0@[1] * cfg.groups <= i < r.0@[1] * cfg.groups + cfg.groups,
        r.1 is Some == bias,
        r.1 matches Some(n) ==> n == o,
{
    let (t, p) = (i as int, cfg.groups as int);
    assert(0 <= t / p <= t && (t / p) * p <= t < (t / p) * p + p) by (nonlinear_arith)
        requires
            p > 0,
            t >= 0,
    ;
}

/// A convolution in three dimensions is two in two, one for each frame; the other order
/// of its weight has the same elements.
pub proof fn law_convolutions_of_frames(
    i: usize,
    o: usize,
    k: [usize; 3],
    cfg: Conv3dConfig,
    vb: VarBuilderX,
    r: Conv3dNoBias,
    x: int,
    pool: AvgPool2d,
    size: usize,
    stride: usize,
)
    requires
        call_ensures(Conv3dNoBias::new, (i, o, k, cfg, &vb), r),
        0 <= x < 5,
        call_ensures(AvgPool2d::new, (size, stride), pool),
    ensures
        r.shape@.len() == 5 && r.fallback_shape@.len() == 5 && r.fallback_permute@.len() == 5,
        r.shape@[0] == o && r.shape@[2] == k@[0] && r.shape@[3] == k@[1] && r.shape@[4] == k@[2],
        r.fallback_permute@[x] < 5,
        r.shape@[x] == r.fallback_shape@[r.fallback_permute@[x] as int],
        r.frames.0.start == 0 && r.frames.0.len == 1 && r.frames.1.start == 1 && r.frames.1.len
            == 1,
        r.flat.stride == cfg.stride && r.flat.padding == cfg.padding && r.flat.dilation
            == cfg.dilation && r.flat.groups == cfg.groups,
        pool.kernel_size == size && pool.stride == stride,
{
}

// ---- Feed forward ----

/// A projection that is not split, of a type, without bias.
pub open spec fn is_whole(p: LinearPlan, dtype: Dtype) -> bool {
    &&& p.weight.shard == (Shard { dim: 0, rank: 0, world_size: 0 })
    &&& p.dtype == dtype
    &&& p.bias is None
}

/// Gate and up read the hidden state, down gives it back; merged ones hold gate and up
/// in this order.
pub proof fn law_feed_forward_keeps_the_size(
    vb: VarBuilderX,
    comm: Comm,
    hidden: usize,
    inner: usize,
    act: Activation,
    method: Option<&str>,
    skip: bool,
    merged: bool,
    dtype: Dtype,
    r: MLP,
)
    requires
        call_ensures(
            MLP::new,
            (&vb, &comm, hidden, inner, act, method, skip, merged, dtype),
            r,
        ),
    ensures
        r.activation == act && !r.swiglu_limited && r.down_proj.comm == comm,
        r.down_proj.inner.weight.shape@ == seq![hidden, inner],
        r.down_proj.path@ == vb.name_of("down_proj"@),
        is_whole(r.down_proj.inner, dtype),
        r.gate_up_proj is Packed == merged,
        r.gate_up_proj matches GateUpProjection::Separate { gate_proj, up_proj } ==> {
            &&& gate_proj.inner.weight.shape@ == seq![inner, hidden]
            &&& up_proj.inner.weight.shape@ == seq![inner, hidden]
            &&& is_whole(gate_proj.inner, dtype) && is_whole(up_proj.inner, dtype)
            &&& gate_proj.path@ == vb.path@ && up_proj.path@ == vb.name_of("up_proj"@)
        },
        r.gate_up_proj matches GateUpProjection::Packed(g) ==> {
            &&& g.linears@.len() == 2
            &&& g.linears@[0].inner.weight.shape@ == seq![inner, hidden]
            &&& g.linears@[1].inner.weight.shape@ == seq![inner, hidden]
            &&& is_whole(g.linears@[0].inner, dtype) && is_whole(g.linears@[1].inner, dtype)
            &&& g.linears@[0].path@ == vb.path@ && g.linears@[1].path@ == vb.name_of("up_proj"@)
        },
{
}

/// A feed forward projects gate and up, activates and projects down, in this order. It
/// is refused with too few packed outputs and without a kernel for its activation.
pub proof fn law_feed_forward_goes_in_order(
    m: MLP,
    outputs: usize,
    r: Result<Vec<MlpStep>, MlpError>,
    k: Result<ActivationKernel, MlpError>,
)
    requires
        call_ensures(MLP::forward, (&m, outputs), r),
        call_ensures(MLP::apply_activation, (&m,), k),
    ensures
        r is Ok == (k is Ok && (m.gate_up_proj is Packed ==> outputs >= 2)),
        r matches Ok(s) ==> {
            let n = s@.len() as int;
            &&& m.gate_up_proj is Packed ==> n == 3 && s@[0] is ProjectGateUp
            &&& m.gate_up_proj is Separate ==> n == 4 && s@[0] is ProjectGate && s@[1]
                is ProjectUp
            &&& s@[n - 2] == MlpStep::Activate(k->Ok_0)
            &&& s@[n - 1] is ProjectDown
        },
        m.gate_up_proj is Packed && outputs == 0 ==> r is Err && r->Err_0 is EmptyPacked,
        m.gate_up_proj is Packed && outputs == 1 ==> r is Err && r->Err_0 is MissingUp,
        !(m.gate_up_proj is Packed && outputs < 2) ==> (k matches Err(e) ==> r == Err::<
            Vec<MlpStep>,
            MlpError,
        >(e)),
{
}

/// The kernel of an activation: silu without a limit, both gelus alike, no other.
pub proof fn law_activations_have_their_kernel(
    m: MLP,
    k: Result<ActivationKernel, MlpError>,
    finite: bool,
    l: MLP,
)
    requires
        call_ensures(MLP::apply_activation, (&m,), k),
        call_ensures(MLP::with_swiglu_limit, (m, finite), l),
    ensures
        m.activation is Silu && !m.swiglu_limited ==> k == Ok::<ActivationKernel, MlpError>(
            ActivationKernel::SiluAndMul,
        ),
        m.activation is Silu && m.swiglu_limited ==> k == Err::<ActivationKernel, MlpError>(
            MlpError::SwigluLimit,
        ),
        m.activation is Gelu || m.activation is NewGelu ==> k == Ok::<ActivationKernel, MlpError>(
            ActivationKernel::GeluThenMul,
        ),
        m.activation is Other ==> k == Err::<ActivationKernel, MlpError>(
            MlpError::UnsupportedActivation,
        ),
        l.swiglu_limited == finite && l.activation == m.activation && l.gate_up_proj
            == m.gate_up_proj && l.down_proj == m.down_proj,
{
}

/// Gate and up are the first two parts.
pub proof fn law_gate_and_up_come_first<T>(parts: Vec<T>, r: Result<(T, T), MlpError>)
    requires
        call_ensures(mlp::gate_and_up::<T>, (parts,), r),
    ensures
        r is Ok == (parts@.len() >= 2),
        r matches Ok(p) ==> p.0 == parts@[0] && p.1 == parts@[1],
        r matches Err(e) ==> e is EmptyPacked == (parts@.len() == 0) && e is MissingUp == (
        parts@.len() == 1),
{
}

/// A plain feed forward goes in the same order and multiplies behind its activation.
pub proof fn law_plain_feed_forward<T>(
    g: T,
    u: T,
    d: T,
    act: Activation,
    m: NaiveMLP<T>,
    r: Vec<MlpStep>,
)
    requires
        call_ensures(NaiveMLP::<T>::new, (g, u, d, act), m),
        call_ensures(NaiveMLP::<T>::forward, (&m,), r),
    ensures
        m.gate_proj == g && m.up_proj == u && m.down_proj == d && m.activation == act,
        r@.len() == 4 && r@[0] is ProjectGate && r@[1] is ProjectUp && r@[3] is ProjectDown,
        act is Silu ==> r@[2] == MlpStep::Activate(ActivationKernel::SiluThenMul),
        !(act is Silu) ==> r@[2] == MlpStep::Activate(ActivationKernel::GeluThenMul),
{
}

// ---- Experts ----

/// Routing follows its settings: scores are sigmoids with one method or one function,
/// groups are one where they are missing.
pub proof fn law_routing_follows_settings<T>(
    c: MoEConfig,
    bias: Option<T>,
    r: MoeRouting<T>,
    s: RouteScores,
)
    requires
        call_ensures(MoeRouting::<T>::from_moe_cfg, (&c, bias), r),
        call_ensures(MoeRouting::<T>::route, (&r,), s),
    ensures
        c.topk_method is None && c.scoring_func is None ==> s is Logits,
        c.topk_method matches Some(m) ==> (m@ == "noaux_tc"@ ==> !(s is Logits)),
        c.scoring_func matches Some(m) ==> (m@ == "sigmoid"@ ==> !(s is Logits)),
        !(s is Logits) ==> (c.topk_method is Some && c.topk_method->Some_0@ == "noaux_tc"@) || (
        c.scoring_func is Some && c.scoring_func->Some_0@ == "sigmoid"@),
        !(s is Logits) ==> s is SigmoidPlusBias == bias is Some,
        c.n_group is None ==> r.n_group == 1,
        c.topk_group is None ==> r.topk_group == 1,
        c.n_group matches Some(n) ==> r.n_group == n,
        c.topk_group matches Some(n) ==> r.topk_group == n,
        r.norm_topk_prob == c.norm_topk_prob && r.num_experts_per_tok == c.num_experts_per_tok,
        r.routed_scaling_factor == c.routed_scaling_factor,
{
}

/// Blocks of experts grow with the slots and do not depend on the number of experts.
pub proof fn law_expert_blocks_grow(a: usize, b: usize, n: usize, m: usize, x: usize, y: usize)
    requires
        call_ensures(moe::pick_moe_block_size, (a, n), x),
        call_ensures(moe::pick_moe_block_size, (b, m), y),
    ensures
        x == 4 || x == 16 || x == 32,
        a <= b ==> x <= y,
        a == b ==> x == y,
        x == 4 <==> a <= 4,
        x == 32 <==> a > 16,
{
}

/// Experts are routed by a gate with a row for each, in single precision where more is
/// required; an input of another type is converted.
pub proof fn law_experts_have_a_gate<T>(
    c: MoEConfig,
    hidden: usize,
    act: Activation,
    higher: bool,
    q: bool,
    vb: VarBuilderX,
    comm: Comm,
    dtype: Dtype,
    r: FusedMoe<T>,
    input: Dtype,
    conv: Option<Dtype>,
)
    requires
        c.num_experts is Some,
        call_ensures(
            FusedMoe::<T>::new,
            (&c, hidden, act, higher, q, &vb, &comm, dtype),
            r,
        ),
        call_ensures(FusedMoe::<T>::gate_conversion, (&r, input), conv),
    ensures
        r.gate.weight.shape@ == seq![c.num_experts->Some_0, hidden],
        r.gate.bias is None && r.gate.weight.shard.world_size == 0,
        r.gate_path@ == vb.name_of("gate"@) && r.experts_path@ == vb.name_of("experts"@),
        higher ==> r.gate_dtype is F32,
        !higher ==> r.gate_dtype == dtype,
        r.gate.dtype == r.gate_dtype && r.dtype == dtype && r.act == act,
        r.world_size == comm.world_size,
        r.routing.num_experts_per_tok == c.num_experts_per_tok,
        conv is None == (input == r.gate_dtype),
        conv matches Some(t) ==> t == r.gate_dtype,
{
}

/// Packed experts have four or eight bits and groups.
pub proof fn law_packed_experts<T>(
    c: MoEConfig,
    act: Activation,
    higher: bool,
    comm: Comm,
    dtype: Dtype,
    bits: usize,
    group: i32,
    method: &str,
    r: Result<FusedMoeWNA16<T>, Wna16Error>,
)
    requires
        call_ensures(
            FusedMoeWNA16::<T>::new,
            (&c, act, higher, &comm, dtype, bits, group, method),
            r,
        ),
    ensures
        r is Ok == ((bits == 4 || bits == 8) && group >= 1),
        r matches Ok(m) ==> {
            &&& m.bits == bits && m.group_size == group && m.act == act && m.dtype == dtype
            &&& m.world_size == comm.world_size
            &&& m.legacy_gptq == (method@ == "gptq"@)
            &&& higher ==> m.gate_dtype is F32
            &&& !higher ==> m.gate_dtype == dtype
        },
        r matches Err(e) ==> e.bits == bits && e.group_size == group,
{
}

/// Gate and up share the joined outputs.
pub proof fn law_gate_and_up_share_outputs(n: usize, r: usize)
    requires
        call_ensures(moe::w_size_n, (n,), r),
    ensures
        2 * r <= n <= 2 * r + 1,
{
}

// ---- Defaults ----

/// A communicator of its own is the only rank.
pub proof fn law_default_ranks_are_alone(c: Rc<Comm>, d: Comm)
    requires
        call_ensures(Comm::new, (), c),
        call_ensures(<Comm as Default>::default, (), d),
    ensures
        c.world_size == 1 && c.rank == 0,
        d == *c,
{
}

/// Settings that are not given: nothing is split, and convolutions in three dimensions
/// step one by one in one group.
pub proof fn law_default_settings(
    s: Shard,
    c: Conv3dConfig,
    d: Conv2dConfig,
    g: GgmlDType,
    iq: bool,
)
    requires
        call_ensures(<Shard as Default>::default, (), s),
        call_ensures(<Conv3dConfig as Default>::default, (), c),
        call_ensures(<Conv2dConfig as Default>::default, (), d),
        call_ensures(<GgmlDType as Default>::default, (), g),
        call_ensures(tensor::is_iq_gguf_dtype, (), iq),
    ensures
        s.dim == 0 && s.rank == 0 && s.world_size == 0,
        c.padding == 0 && c.stride == 1 && c.dilation == 1 && c.groups == 1,
        d.padding == 0 && d.stride == 0 && d.dilation == 0 && d.groups == 0,
        g is F32,
        !iq,
{
}

// ---- Contexts and deep stacks ----

/// A stack starts without a context.
pub proof fn law_stacks_start_empty<C>(s: CtxStack<C>, now: Option<&C>)
    requires
        call_ensures(CtxStack::<C>::new, (), s),
        call_ensures(CtxStack::<C>::current, (&s,), now),
    ensures
        now is None,
{
}

/// What was entered last is current, and leaving it brings the one before back.
pub proof fn law_contexts_nest<C>(
    a: &mut CtxStack<C>,
    ctx: C,
    g: Guard,
    b: &mut CtxStack<C>,
    now: Option<&C>,
    before: Option<&C>,
    after: Option<&C>,
)
    requires
        call_ensures(CtxStack::<C>::push, (a, ctx), g),
        call_ensures(CtxStack::<C>::current, (old(a),), before),
        call_ensures(CtxStack::<C>::current, (final(a),), now),
        old(b)@ == final(a)@,
        call_ensures(CtxStack::<C>::pop, (b, g), ()),
        call_ensures(CtxStack::<C>::current, (final(b),), after),
    ensures
        now matches Some(c) && *c == ctx,
        after == before,
        final(b)@ == old(a)@,
{
    assert(final(b)@ =~= old(a)@);
}

/// Positions are those that are marked, ascending, as many as there are embeddings;
/// another number is refused, and an empty mask is told apart.
pub proof fn law_marked_positions_take_embeddings(
    mask: &[bool],
    embeds: usize,
    r: Result<Vec<usize>, DeepStackError>,
    i: int,
)
    requires
        call_ensures(deepstack::deepstack_positions, (mask, embeds), r),
        0 <= i < mask@.len(),
    ensures
        r matches Ok(p) ==> {
            &&& p@.len() == embeds
            &&& forall|x: int|
                0 <= x < p@.len() ==> #[trigger] p@[x] < mask@.len() && mask@[p@[x] as int]
            &&& forall|x: int, y: int|
                0 <= x < y < p@.len() ==> #[trigger] p@[x] < #[trigger] p@[y]
            &&& mask@[i] ==> exists|x: int| 0 <= x < p@.len() && #[trigger] p@[x] == i
        },
        r matches Err(e) ==> match e {
            DeepStackError::EmptyMask { embeds: n } => n == embeds && n > 0 && !mask@[i],
            DeepStackError::Mismatch { embeds: n, masked } => n == embeds && n != masked && (n > 0
                ==> masked > 0),
        },
{
    deepstack::law_marked_positions(mask@);
    lemma_marked(mask@);
    let m = deepstack::marked(mask@);
    assert(mask@.len() == mask.len());
    if mask@[i] {
        let x = choose|x: int| 0 <= x < m.len() && m[x] == i;
        if r is Ok {
            assert((r->Ok_0)@[x] == i);
        }
    }
}

proof fn lemma_marked(mask: Seq<bool>)
    ensures
        deepstack::marked(mask).len() <= mask.len(),
        forall|x: int|
            0 <= x < deepstack::marked(mask).len() ==> 0 <= #[trigger] deepstack::marked(mask)[x]
                < mask.len() && mask[deepstack::marked(mask)[x]],
        forall|x: int, y: int|
            0 <= x < y < deepstack::marked(mask).len() ==> #[trigger] deepstack::marked(mask)[x]
                < #[trigger] deepstack::marked(mask)[y],
        forall|i: int|
            0 <= i < mask.len() && #[trigger] mask[i] ==> exists|x: int|
                0 <= x < deepstack::marked(mask).len() && deepstack::marked(mask)[x] == i,
    decreases mask.len(),
{
    if mask.len() > 0 {
        let s = mask.drop_last();
        lemma_marked(s);
        let (m, t) = (deepstack::marked(mask), deepstack::marked(s));
        assert forall|x: int| 0 <= x < m.len() implies 0 <= #[trigger] m[x] < mask.len()
            && mask[m[x]] by {
            if x < t.len() {
                assert(m[x] == t[x] && s[t[x]] == mask[t[x]]);
            }
        }
        assert forall|x: int, y: int| 0 <= x < y < m.len() implies #[trigger] m[x]
            < #[trigger] m[y] by {
            assert(m[x] == t[x]);
            if y < t.len() {
                assert(m[y] == t[y]);
            }
        }
        assert forall|i: int| 0 <= i < mask.len() && #[trigger] mask[i] implies exists|x: int|
            0 <= x < m.len() && m[x] == i by {
            if i < s.len() {
                assert(s[i]);
                let x = choose|x: int| 0 <= x < t.len() && t[x] == i;
                assert(m[x] == i);
            } else {
                assert(m[m.len() - 1] == i);
            }
        }
    }
}

} // verus!
