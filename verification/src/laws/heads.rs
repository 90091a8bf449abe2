//! Laws of how attention is loaded, prefilled and computed head by head.

use crate::config::Config;
use crate::dtype::Dtype;
use crate::models::layers::attention::{
    self, Attention, AttentionError, AttentionLoad, AttentionLoader, AttentionPlan, BiasPlan,
    CachePath, ChunkStep, Fp8Found, Fp8Weight, HeadStep, NaiveAttention, NaiveStep, PackedBias,
    PackedParts, PackedQkv, PackedRoute, PagedAttention, PrefillPlan, QkNorm, QkNorms, QkvPart,
    SeparateProjections,
};
use crate::models::layers::distributed::Comm;
use crate::models::layers::linear::Slice;
use crate::models::layers::tensor::Shard;
use crate::models::layers::var_builder::VarBuilderX;
use crate::utils;
use vstd::prelude::*;

verus! {

// ---- The plan of a layer ----

/// A layer is planned exactly where its key heads divide over the ranks. All ranks
/// together have all key heads, the projections are as wide as the heads of all ranks,
/// and a gate doubles the queries alone.
pub proof fn law_heads_are_planned(
    vb: VarBuilderX,
    comm: Comm,
    c: Config,
    window: Option<usize>,
    k_eq_v: bool,
    l2: bool,
    dtype: Dtype,
    r: Result<AttentionPlan, AttentionError>,
)
    requires
        attention::fits_attention(c, comm),
        call_ensures(
            attention::plan_attention,
            (&vb, &comm, &c, window, k_eq_v, l2, dtype),
            r,
        ),
    ensures
        r is Ok == (c.num_key_value_heads as int % comm.world_size as int == 0),
        r matches Err(e) ==> (e matches AttentionError::Heads(h) && h.num_kv_heads
            == c.num_key_value_heads && h.world_size == comm.world_size),
        r matches Ok(p) ==> {
            &&& p.num_kv_heads * comm.world_size == c.num_key_value_heads
            &&& p.num_heads * comm.world_size <= c.num_attention_heads
            &&& c.num_attention_heads < p.num_heads * comm.world_size + comm.world_size
            &&& c.head_dim matches Some(d) ==> p.head_dim == d
            &&& c.head_dim is None ==> p.head_dim * c.num_attention_heads <= c.hidden_size
                < p.head_dim * c.num_attention_heads + c.num_attention_heads
            &&& p.o_in_dim == c.num_attention_heads * p.head_dim
            &&& p.kv_out_dim == c.num_key_value_heads * p.head_dim
            &&& p.attn_output_gate ==> p.q_out_dim == p.o_in_dim + p.o_in_dim
            &&& !p.attn_output_gate ==> p.q_out_dim == p.o_in_dim
            &&& p.q_shard == p.kv_shard && p.q_shard.dim == 0
            &&& p.q_shard.rank == comm.rank && p.q_shard.world_size == comm.world_size
            &&& p.path@ == vb.path@ && p.dtype == dtype && p.sliding_window == window
            &&& p.is_qvar_builder == vb.is_gguf && p.qk_l2_norm == l2 && p.norm_eps
                == c.rms_norm_eps
        },
{
    if r is Ok {
        let p = r->Ok_0;
        let ws = comm.world_size as int;
        let (n, kv) = (c.num_attention_heads as int, c.num_key_value_heads as int);
        vstd::arithmetic::div_mod::lemma_fundamental_div_mod(n, ws);
        vstd::arithmetic::div_mod::lemma_fundamental_div_mod(kv, ws);
        vstd::arithmetic::div_mod::lemma_fundamental_div_mod(c.hidden_size as int, n);
        assert(ws * (n / ws) == (n / ws) * ws) by (nonlinear_arith);
        assert(ws * (kv / ws) == (kv / ws) * ws) by (nonlinear_arith);
        let h = c.hidden_size as int / n;
        assert(n * h == h * n) by (nonlinear_arith);
        let d = p.head_dim as int;
        assert((n * d) * 2 == n * d + n * d && (n * d) * 1 == n * d) by (nonlinear_arith);
    }
}

/// Settings decide for themselves; where they are missing the architecture decides:
/// hybrid ones are gated and without bias, others not gated and with bias. Norms run in
/// single precision where weights are quantized or half precision is asked for.
pub proof fn law_settings_of_a_layer(
    vb: VarBuilderX,
    comm: Comm,
    c: Config,
    window: Option<usize>,
    k_eq_v: bool,
    l2: bool,
    dtype: Dtype,
    p: AttentionPlan,
    arch: &str,
    hybrid: bool,
)
    requires
        call_ensures(
            attention::plan_attention,
            (&vb, &comm, &c, window, k_eq_v, l2, dtype),
            Ok::<AttentionPlan, AttentionError>(p),
        ),
        arch@ == c.architecture@,
        call_ensures(utils::is_qwen3_hybrid_arch_name, (arch,), hybrid),
    ensures
        c.attn_output_gate matches Some(g) ==> p.attn_output_gate == g,
        c.attn_output_gate is None ==> p.attn_output_gate == hybrid,
        c.qkv_bias matches Some(b) ==> p.attention_bias == b,
        c.qkv_bias is None ==> (c.attention_bias matches Some(b) ==> p.attention_bias == b),
        c.qkv_bias is None && c.attention_bias is None ==> p.attention_bias == !hybrid,
        p.qk_norm_add_one == (arch@ == "Gemma3ForConditionalGeneration"@ || arch@
            == "Gemma3ForCausalLM"@ || (hybrid && !vb.is_gguf && !c.is_mlx_nvfp4)),
        p.v_norm_eps is Some == (arch@ == "Gemma4ForConditionalGeneration"@ || arch@
            == "Gemma4ForCausalLM"@),
        p.v_norm_eps matches Some(e) ==> e == c.rms_norm_eps,
        !vb.is_gguf && !c.quantizes_on_load && c.quant_method is None && !c.is_f16_mode
            ==> p.norm_dtype == dtype,
        vb.is_gguf || c.quantizes_on_load || c.quant_method is Some || c.is_f16_mode
            ==> p.norm_dtype is F32,
        p.promote_qk_to_f32 == (vb.is_gguf || c.higher_precision_required || l2),
        !vb.is_gguf ==> p.names.q@ == "q_proj"@ && p.names.k@ == "k_proj"@ && p.names.o@
            == "o_proj"@ && p.names.q_norm@ == "q_norm"@ && p.names.k_norm@ == "k_norm"@,
        vb.is_gguf ==> p.names.q@ == "attn_q"@ && p.names.k@ == "attn_k"@ && p.names.o@
            == "attn_output"@ && p.names.q_norm@ == "attn_q_norm"@ && p.names.k_norm@
            == "attn_k_norm"@,
        k_eq_v ==> p.names.v@ == p.names.k@,
        !k_eq_v ==> p.names.v@ == if vb.is_gguf {
            "attn_v"@
        } else {
            "v_proj"@
        },
{
}

/// The hybrid architectures, by name.
pub proof fn law_hybrid_architectures(arch: &str, r: bool)
    requires
        call_ensures(utils::is_qwen3_hybrid_arch_name, (arch,), r),
    ensures
        r <==> (arch@ == "Qwen3_5ForCausalLM"@ || arch@ == "Qwen3_5MoeForCausalLM"@ || arch@
            == "Qwen3NextForCausalLM"@ || arch@ == "Qwen4ExpForCausalLM"@ || arch@
            == "Qwen3_5ForConditionalGeneration"@ || arch@
            == "Qwen3_5MoeForConditionalGeneration"@ || arch@
            == "Qwen3NextForConditionalGeneration"@ || arch@
            == "Qwen4ExpForConditionalGeneration"@),
{
}

/// Separate projections read the hidden state and give the heads; the last one gives
/// the hidden state back. Queries, keys and values are split by their outputs, the last
/// one by its inputs.
pub proof fn law_projections_meet_the_heads(
    p: AttentionPlan,
    vb: VarBuilderX,
    comm: Comm,
    hidden: usize,
    method: Option<&str>,
    skip: bool,
    dtype: Dtype,
    r: SeparateProjections,
)
    requires
        call_ensures(
            AttentionPlan::separate,
            (&p, &vb, &comm, hidden, method, skip, dtype),
            r,
        ),
    ensures
        r.q.inner.weight.shape@ == seq![p.q_out_dim, hidden],
        r.k.inner.weight.shape@ == seq![p.kv_out_dim, hidden],
        r.v.inner.weight.shape@ == seq![p.kv_out_dim, hidden],
        r.o.inner.weight.shape@ == seq![hidden, p.o_in_dim],
        r.q.inner.weight.shard == (Shard {
            dim: 0,
            rank: comm.rank,
            world_size: comm.world_size,
        }),
        r.k.inner.weight.shard == p.kv_shard && r.v.inner.weight.shard == p.kv_shard,
        r.o.inner.weight.shard == (Shard {
            dim: 1,
            rank: comm.rank,
            world_size: comm.world_size,
        }),
        r.q.inner.bias is None && r.k.inner.bias is None && r.v.inner.bias is None
            && r.o.inner.bias is None,
        r.q.inner.dtype == dtype && r.k.inner.dtype == dtype && r.v.inner.dtype == dtype
            && r.o.inner.dtype == dtype,
        r.o.comm == comm,
{
}

/// Norms of whole rows are as long as the heads of all ranks, norms of heads as long as
/// a head.
pub proof fn law_norms_meet_the_heads(p: AttentionPlan, vb: VarBuilderX, r: QkNorms, full: QkNorms)
    requires
        call_ensures(AttentionPlan::qk_norms, (&p, &vb, false), r),
        call_ensures(AttentionPlan::qk_norms, (&p, &vb, true), full),
    ensures
        r.q_path@ == full.q_path@ && r.k_path@ == full.k_path@,
        r.q == r.k,
        p.o_in_dim == p.kv_out_dim && p.q_shard == p.kv_shard ==> full.q == full.k,
{
}

/// Norms of heads are taken where both are there, norms of whole rows else.
pub proof fn law_norms_are_found(per_head: (bool, bool), full: (bool, bool), r: QkNorm)
    requires
        call_ensures(attention::qk_norm_of, (per_head, full), r),
    ensures
        r is PerHead <==> per_head.0 && per_head.1,
        r is FullDim <==> !(per_head.0 && per_head.1) && full.0 && full.1,
        r is Absent <==> !(per_head.0 && per_head.1) && !(full.0 && full.1),
{
}

// ---- Packing ----

/// Projections are packed dense without quantization and by blocks with one method;
/// blocks have two sides.
pub proof fn law_packing_takes_its_route(
    qvar: bool,
    quant: bool,
    method: Option<&str>,
    block: Option<&Vec<usize>>,
    r: Result<PackedRoute, AttentionError>,
)
    requires
        call_ensures(attention::packed_route, (qvar, quant, method, block), r),
    ensures
        qvar || quant ==> r == Ok::<PackedRoute, AttentionError>(PackedRoute::Separate),
        !qvar && !quant && method is None ==> r == Ok::<PackedRoute, AttentionError>(
            PackedRoute::Dense,
        ),
        !qvar && !quant ==> (method matches Some(m) ==> {
            &&& m@ != "fp8"@ ==> r == Ok::<PackedRoute, AttentionError>(PackedRoute::Separate)
            &&& m@ == "fp8"@ && block is None ==> r == Err::<PackedRoute, AttentionError>(
                AttentionError::NoBlockSize,
            )
            &&& m@ == "fp8"@ ==> (block matches Some(b) ==> {
                &&& b@.len() != 2 ==> r == Err::<PackedRoute, AttentionError>(
                    AttentionError::BlockSizePair,
                )
                &&& b@.len() == 2 ==> r == Ok::<PackedRoute, AttentionError>(
                    PackedRoute::Fp8 { by: b@[0], bx: b@[1] },
                )
            })
        }),
{
}

/// Scales have a row and a column for each block that is begun.
pub proof fn law_scales_cover_blocks(
    out_dim: usize,
    in_dim: usize,
    by: usize,
    bx: usize,
    r: (usize, usize),
)
    requires
        by > 0,
        bx > 0,
        call_ensures(attention::fp8_scale_shape, (out_dim, in_dim, by, bx), r),
    ensures
        r.0 * by >= out_dim && r.1 * bx >= in_dim,
        out_dim > 0 ==> (r.0 - 1) * by < out_dim,
        in_dim > 0 ==> (r.1 - 1) * bx < in_dim,
        out_dim == 0 ==> r.0 == 0,
        in_dim == 0 ==> r.1 == 0,
{
    lemma_ceil_bounds(out_dim as int, by as int);
    lemma_ceil_bounds(in_dim as int, bx as int);
}

proof fn lemma_ceil_bounds(n: int, d: int)
    by (nonlinear_arith)
    requires
        n >= 0,
        d > 0,
    ensures
        ({
            let c = attention::ceil_div(n, d);
            &&& c * d >= n
            &&& n > 0 ==> (c - 1) * d < n
            &&& n == 0 ==> c == 0
        }),
{
    let c = (n + d - 1) / d;
    let r = (n + d - 1) % d;
    assert(n + d - 1 == c * d + r);
    assert(0 <= r < d);
    if n == 0 {
        assert(c * d <= d - 1);
        assert(c == 0);
    }
}

/// Blocks align where each part starts with a block.
pub proof fn law_blocks_align_where_parts_start(
    q: usize,
    kv: usize,
    q_rank: usize,
    kv_rank: usize,
    lq: usize,
    lk: usize,
    lv: usize,
    by: usize,
    r: bool,
    a: int,
    b: int,
    c: int,
)
    requires
        by > 0,
        call_ensures(
            attention::fp8_blocks_align,
            (q, kv, q_rank, kv_rank, lq, lk, lv, by),
            r,
        ),
    ensures
        q_rank * lq == a * by && q + kv_rank * lk == b * by && q + kv + kv_rank * lv == c * by
            ==> r,
        a * by < q_rank * lq < (a + 1) * by ==> !r,
        b * by < q + kv_rank * lk < (b + 1) * by ==> !r,
        c * by < q + kv + kv_rank * lv < (c + 1) * by ==> !r,
{
    lemma_between(q_rank * lq, by as int, a);
    lemma_between(q + kv_rank * lk, by as int, b);
    lemma_between(q + kv + kv_rank * lv, by as int, c);
}

proof fn lemma_between(n: int, d: int, a: int)
    requires
        d > 0,
    ensures
        n == a * d ==> n % d == 0,
        a * d < n < (a + 1) * d ==> n % d != 0,
{
    if n == a * d {
        vstd::arithmetic::div_mod::lemma_mod_multiples_basic(a, d);
    }
    if a * d < n < (a + 1) * d {
        assert((a + 1) * d == a * d + d) by (nonlinear_arith);
        vstd::arithmetic::div_mod::lemma_fundamental_div_mod_converse(n, d, a, n - a * d);
    }
}

/// Biases are packed all or none.
pub proof fn law_biases_are_packed_together(bias: bool, q: bool, k: bool, v: bool, r: PackedBias)
    requires
        call_ensures(attention::packed_bias, (bias, q, k, v), r),
    ensures
        r is With <==> bias && q && k && v,
        r is NotPacked <==> bias && (q || k || v) && !(q && k && v),
        r is Without <==> !bias || !(q || k || v),
{
}

/// Projections are packed only with all weights, aligned blocks and all biases or none;
/// the splits are the rows of queries, keys and values in this order. A dense route
/// without a weight is an error that names the first one missing.
pub proof fn law_packed_projections(
    p: AttentionPlan,
    route: PackedRoute,
    parts: PackedParts,
    r: Result<Option<PackedQkv>, AttentionError>,
)
    requires
        call_ensures(AttentionPlan::packed_qkv, (&p, route, &parts), r),
    ensures
        route is Separate ==> r is Ok && r->Ok_0 is None,
        r matches Ok(Some(x)) ==> {
            &&& parts.q is Some && parts.k is Some && parts.v is Some
            &&& x.splits@.len() == 3 && x.splits@[0] == parts.q->Some_0 && x.splits@[1]
                == parts.k->Some_0 && x.splits@[2] == parts.v->Some_0
            &&& x.with_bias == (p.attention_bias && parts.q_bias)
            &&& p.attention_bias ==> parts.q_bias == parts.k_bias && parts.k_bias == parts.v_bias
        },
        r matches Err(e) ==> route is Dense && match e {
            AttentionError::NoWeight { part } => match part {
                QkvPart::Q => parts.q is None,
                QkvPart::K => parts.q is Some && parts.k is None,
                QkvPart::V => parts.q is Some && parts.k is Some && parts.v is None,
            },
            _ => false,
        },
        route is Dense && parts.q is Some && parts.k is Some && parts.v is Some && (
        !p.attention_bias || (parts.q_bias == parts.k_bias && parts.k_bias == parts.v_bias))
            ==> r is Ok && r->Ok_0 is Some,
        route is Dense && !(parts.q is Some && parts.k is Some && parts.v is Some) ==> r is Err,
        route is Fp8 && !(parts.q is Some && parts.k is Some && parts.v is Some) ==> r is Ok
            && r->Ok_0 is None,
{
}

/// Blocks are packed exactly where they align.
pub proof fn law_blocks_are_packed_where_they_align(
    p: AttentionPlan,
    parts: PackedParts,
    by: usize,
    bx: usize,
    r: Result<Option<PackedQkv>, AttentionError>,
    q: usize,
    k: usize,
    v: usize,
    aligned: bool,
)
    requires
        call_ensures(
            AttentionPlan::packed_qkv,
            (&p, PackedRoute::Fp8 { by, bx }, &parts),
            r,
        ),
        parts.q == Some(q) && parts.k == Some(k) && parts.v == Some(v),
        !p.attention_bias,
        call_ensures(
            attention::fp8_blocks_align,
            (p.q_out_dim, p.kv_out_dim, p.q_shard.rank, p.kv_shard.rank, q, k, v, by),
            aligned,
        ),
    ensures
        r is Ok,
        r->Ok_0 is Some == aligned,
{
}

/// A bias is cut like any length and converted where its type differs; single files
/// have none.
pub proof fn law_biases_are_cut_and_converted(
    qvar: bool,
    loaded: Option<(usize, Dtype)>,
    out_dim: usize,
    shard: Shard,
    dtype: Dtype,
    r: Result<Option<BiasPlan>, AttentionError>,
    len: usize,
    got: Dtype,
    cut: Result<Option<Slice>, AttentionError>,
)
    requires
        call_ensures(attention::load_sharded_bias, (qvar, loaded, out_dim, shard, dtype), r),
        call_ensures(attention::normalize_sharded_1d, (len, out_dim, shard), cut),
    ensures
        qvar || loaded is None ==> r is Ok && r->Ok_0 is None,
        !qvar && loaded == Some((len, got)) ==> {
            &&& r is Ok == cut is Ok
            &&& cut matches Err(e) ==> r == Err::<Option<BiasPlan>, AttentionError>(e)
            &&& cut matches Ok(part) ==> r->Ok_0 is Some && r->Ok_0->Some_0.cut == part
                && r->Ok_0->Some_0.convert is None == (got == dtype) && (
            r->Ok_0->Some_0.convert is Some ==> r->Ok_0->Some_0.convert == Some(dtype))
        },
{
}

/// A weight in blocks is cut like any matrix, and so are its scales, of which the plain
/// ones come first. Without a weight or a scale there is nothing.
pub proof fn law_block_weights_are_cut_with_their_scales(
    vb: VarBuilderX,
    found: Fp8Found,
    dims: (usize, usize),
    block: (usize, usize),
    shard: Shard,
    r: Result<Option<Fp8Weight>, AttentionError>,
    weight: (usize, usize),
    cut: Result<Option<Slice>, AttentionError>,
    scale: (usize, usize),
    scale_dims: (usize, usize),
    scale_cut: Result<Option<Slice>, AttentionError>,
)
    requires
        call_ensures(attention::fp8_weight_scale, (&vb, &found, dims, block, shard), r),
        call_ensures(attention::normalize_sharded_2d, (weight, dims, shard), cut),
        call_ensures(
            attention::fp8_scale_shape,
            (dims.0, dims.1, block.0, block.1),
            scale_dims,
        ),
        call_ensures(attention::normalize_sharded_2d, (scale, scale_dims, shard), scale_cut),
        vb.lists("weight_scale"@) || vb.lists("weight_scale_inv"@),
    ensures
        found.weight is None ==> r is Ok && r->Ok_0 is None,
        found.weight == Some(weight) ==> {
            &&& cut matches Err(e) ==> r == Err::<Option<Fp8Weight>, AttentionError>(e)
            &&& cut is Ok && found.weight_scale is None && found.weight_scale_inv is None ==> r
                is Ok && r->Ok_0 is None
            &&& cut is Ok && (found.weight_scale == Some(scale) || (found.weight_scale is None
                && found.weight_scale_inv == Some(scale))) ==> {
                &&& scale_cut matches Err(e) ==> r == Err::<Option<Fp8Weight>, AttentionError>(e)
                &&& scale_cut matches Ok(s) ==> r is Ok && r->Ok_0 is Some && {
                    let w = r->Ok_0->Some_0;
                    &&& w.cut == cut->Ok_0 && w.scale_cut == s
                    &&& w.scale is WeightScale == found.weight_scale is Some
                    &&& shard.dim == 0 && cut->Ok_0 is Some ==> w.rows == cut->Ok_0->Some_0.len
                    &&& shard.dim != 0 || cut->Ok_0 is None ==> w.rows == weight.0
                }
            }
        },
{
}

// ---- Loading step by step ----

/// Weights are loaded queries first, then keys, then values. One that is missing ends a
/// dense route and sends a route of blocks to separate projections.
pub proof fn law_weights_load_in_order<'a>(l: &mut AttentionLoader<'a>, rows: Option<usize>)
    requires
        call_ensures(AttentionLoader::<'a>::weight_loaded, (l, rows), ()),
        old(l).step is Weight,
    ensures
        rows is None && old(l).route is Dense ==> final(l).step is Failed,
        rows is None && !(old(l).route is Dense) ==> final(l).step is Separate,
        rows is Some && old(l).step == AttentionLoad::Weight(QkvPart::Q) ==> final(l).step
            == AttentionLoad::Weight(QkvPart::K) && final(l).parts.q == rows && final(l).parts.k
            == old(l).parts.k,
        rows is Some && old(l).step == AttentionLoad::Weight(QkvPart::K) ==> final(l).step
            == AttentionLoad::Weight(QkvPart::V) && final(l).parts.k == rows && final(l).parts.q
            == old(l).parts.q,
        rows is Some && old(l).step == AttentionLoad::Weight(QkvPart::V) ==> final(l).parts.v
            == rows && final(l).parts.q == old(l).parts.q && final(l).parts.k == old(l).parts.k && (
        final(l).step is Separate || (final(l).step == if old(l).plan.attention_bias {
            AttentionLoad::Bias(QkvPart::Q)
        } else {
            AttentionLoad::Pack
        })),
        rows is Some && old(l).step == AttentionLoad::Weight(QkvPart::V) && old(l).route is Dense
            && old(l).parts.q is Some && old(l).parts.k is Some ==> !(final(l).step is Separate),
        final(l).plan == old(l).plan && final(l).route == old(l).route,
{
}

/// Biases are looked for in the same order, and the projections are packed behind them
/// where all or none were found.
pub proof fn law_biases_load_in_order<'a>(l: &mut AttentionLoader<'a>, found: bool)
    requires
        old(l).wf(),
        call_ensures(AttentionLoader::<'a>::bias_loaded, (l, found), ()),
        old(l).step is Bias,
    ensures
        old(l).step == AttentionLoad::Bias(QkvPart::Q) ==> final(l).step == AttentionLoad::Bias(
            QkvPart::K,
        ) && final(l).parts.q_bias == found,
        old(l).step == AttentionLoad::Bias(QkvPart::K) ==> final(l).step == AttentionLoad::Bias(
            QkvPart::V,
        ) && final(l).parts.k_bias == found && final(l).parts.q_bias == old(l).parts.q_bias,
        old(l).step == AttentionLoad::Bias(QkvPart::V) ==> final(l).parts.v_bias == found && (
        final(l).step is Pack == (old(l).parts.q_bias == old(l).parts.k_bias && old(l).parts.k_bias
            == found)) && (final(l).step is Separate == !(final(l).step is Pack)),
        final(l).parts.q == old(l).parts.q && final(l).parts.k == old(l).parts.k && final(
            l).parts.v == old(l).parts.v,
        final(l).plan == old(l).plan && final(l).route == old(l).route,
{
}

/// Behind the projections comes the output, then the norms of heads, and the norms of
/// whole rows only where those of heads are not both there.
pub proof fn law_norms_load_in_order<'a>(
    a: &mut AttentionLoader<'a>,
    b: &mut AttentionLoader<'a>,
    c: &mut AttentionLoader<'a>,
    d: &mut AttentionLoader<'a>,
    e: &mut AttentionLoader<'a>,
    q: bool,
    k: bool,
)
    requires
        call_ensures(AttentionLoader::<'a>::qkv_loaded, (a,), ()),
        call_ensures(AttentionLoader::<'a>::output_loaded, (b,), ()),
        call_ensures(AttentionLoader::<'a>::head_norms_loaded, (c, q, k), ()),
        call_ensures(AttentionLoader::<'a>::full_norms_loaded, (d, q, k), ()),
        call_ensures(AttentionLoader::<'a>::failed, (e,), ()),
    ensures
        final(a).step is Output && final(a).parts == old(a).parts,
        final(b).step is HeadNorms && final(b).parts == old(b).parts,
        final(c).step is Done == (q && k),
        final(c).step is FullNorms == !(q && k),
        final(c).per_head.0 == q && final(c).per_head.1 == k,
        final(d).step is Done && final(d).full.0 == q && final(d).full.1 == k,
        final(d).per_head == old(d).per_head,
        final(e).step is Failed,
{
}

/// A loader starts with the weight of the queries, or with separate projections.
pub proof fn law_loaders_start_by_route<'a>(
    plan: &'a AttentionPlan,
    route: PackedRoute,
    r: AttentionLoader<'a>,
)
    requires
        call_ensures(AttentionLoader::<'a>::new, (plan, route), r),
    ensures
        route is Separate <==> r.step is Separate,
        !(route is Separate) ==> r.step == AttentionLoad::Weight(QkvPart::Q),
        r.plan == plan && r.route == route,
{
}

/// What was loaded is a layer with the heads and the settings of its plan, and the norms
/// that were found.
pub proof fn law_loaded_layers_follow_their_plan<'a>(
    l: AttentionLoader<'a>,
    r: Attention,
    norm: QkNorm,
    packed: Result<Option<PackedQkv>, AttentionError>,
)
    requires
        call_ensures(AttentionLoader::<'a>::attention, (&l,), r),
        call_ensures(attention::qk_norm_of, (l.per_head, l.full), norm),
        call_ensures(AttentionPlan::packed_qkv, (l.plan, l.route, &l.parts), packed),
        packed is Ok,
    ensures
        r.num_heads == l.plan.num_heads && r.num_kv_heads == l.plan.num_kv_heads,
        r.head_dim == l.plan.head_dim && r.attn_output_gate == l.plan.attn_output_gate,
        r.dtype == l.plan.dtype && r.is_qvar_builder == l.plan.is_qvar_builder,
        r.qk_l2_norm == l.plan.qk_l2_norm && r.promote_qk_to_f32 == l.plan.promote_qk_to_f32,
        r.v_norm_eps == l.plan.v_norm_eps,
        r.qk_norm == norm,
        r.packed == packed->Ok_0 is Some,
        r.attn.num_heads == r.num_heads && r.attn.num_kv_heads == r.num_kv_heads && r.attn.head_dim
            == r.head_dim,
{
}

// ---- Prefill ----

/// Attention has as many key heads as heads where it is not told.
pub proof fn law_key_heads_default_to_heads(
    n: usize,
    d: usize,
    kv: Option<usize>,
    r: PagedAttention,
)
    requires
        call_ensures(PagedAttention::new, (n, d, kv), r),
    ensures
        r.num_heads == n && r.head_dim == d,
        kv is None ==> r.num_kv_heads == n,
        kv matches Some(k) ==> r.num_kv_heads == k,
{
}

/// Attention needs both caches. With decode pointers it decodes, and without them it can
/// only prefill.
pub proof fn law_attention_needs_both_caches(
    a: PagedAttention,
    ptrs: bool,
    k: bool,
    v: bool,
    prefill: bool,
    r: Result<CachePath, AttentionError>,
)
    requires
        call_ensures(PagedAttention::path, (&a, ptrs, k, v, prefill), r),
    ensures
        r is Ok == (k && v && (ptrs || prefill)),
        r matches Ok(p) ==> p is Decode == ptrs && p is PrefillEager == !ptrs,
        r matches Err(e) ==> e is NoCachePath,
{
}

/// Rows of a cache follow each other, four bytes a value.
pub proof fn law_cache_rows_follow_each_other(t: usize, row: usize, a: usize, b: usize)
    requires
        t < usize::MAX,
        call_ensures(attention::cache_row_offset, (t, row), a),
        call_ensures(attention::cache_row_offset, ((t + 1) as usize, row), b),
    ensures
        t == 0 ==> a == 0,
        b == a + 4 * row,
{
    assert((t + 1) * row * 4 == t * row * 4 + 4 * row) by (nonlinear_arith);
    assert(0 * row * 4 == 0) by (nonlinear_arith);
}

/// The scores of a head are scaled, masked where there is a mask, normalized and applied
/// to the values, in this order.
pub open spec fn is_order_of_head(steps: Seq<HeadStep>, masked: bool) -> bool {
    &&& steps.len() == if masked {
        5int
    } else {
        4
    }
    &&& steps[0] is TimesKeys && steps[1] is Scale
    &&& masked ==> steps[2] is AddMask
    &&& steps[steps.len() - 2] is Softmax && steps[steps.len() - 1] is TimesValues
}

proof fn lemma_first_outside(lens: Seq<usize>, tokens: usize, n: int)
    requires
        0 <= n <= lens.len(),
    ensures
        attention::first_outside(lens, tokens, n) matches Some(i) ==> 0 <= i < n
            && attention::seq_start(lens, i + 1) > tokens,
        attention::first_outside(lens, tokens, n) is None ==> forall|j: int|
            0 <= j <= n ==> #[trigger] attention::seq_start(lens, j) <= tokens,
        attention::first_outside(lens, tokens, n) matches Some(i) ==> forall|j: int|
            0 <= j <= i ==> #[trigger] attention::seq_start(lens, j) <= tokens,
    decreases n,
{
    if n > 0 {
        lemma_first_outside(lens, tokens, n - 1);
    }
}

proof fn lemma_headless(hq: int, hkv: int, n: int)
    requires
        0 < hkv <= hq,
        0 <= n <= hq,
    ensures
        attention::first_headless(hkv, hq / hkv, n) matches Some(h) ==> hq / hkv == 1 && h == hkv
            && h < n,
        attention::first_headless(hkv, hq / hkv, n) is None ==> hq / hkv > 1 || n <= hkv,
        hq / hkv >= 1,
    decreases n,
{
    let g = hq / hkv;
    assert(g >= 1 && hq < (g + 1) * hkv) by (nonlinear_arith)
        requires
            0 < hkv <= hq,
            g == hq / hkv,
    ;
    if n > 0 {
        lemma_headless(hq, hkv, n - 1);
        let h = n - 1;
        if g > 1 {
            assert(h / g < g * hkv) by (nonlinear_arith)
                requires
                    g > 1,
                    0 <= h,
                    h < (g + 1) * hkv,
                    hkv > 0,
            {
                assert(h / g <= h);
                assert((h / g) * g <= h);
                assert((g + 1) * hkv <= (g * hkv) * g);
            }
        } else {
            assert(h / 1 == h);
        }
    }
}

/// A prefill takes its sequences one behind the other, each with the mask of its number,
/// and reads the keys of a sequence as columns. Tokens of one sequence alone where no
/// lengths are given.
pub proof fn law_prefills_take_sequences_in_turn(
    tokens: usize,
    hq: usize,
    hkv: usize,
    d: usize,
    seqlens: &[usize],
    masks: Option<usize>,
    p: PrefillPlan,
    i: int,
)
    requires
        0 < hkv <= hq,
        call_ensures(attention::plan_prefill, (tokens, hq, hkv, d, seqlens, masks), p),
        0 <= i < p.seqs@.len(),
    ensures
        p.seqs@[0].tokens.start == 0,
        i + 1 < p.seqs@.len() ==> p.seqs@[i + 1].tokens.start == p.seqs@[i].tokens.start
            + p.seqs@[i].tokens.len,
        p.seqs@[i].tokens.start + p.seqs@[i].tokens.len <= tokens,
        seqlens@.len() > 0 ==> i < seqlens@.len() && p.seqs@[i].tokens.len == seqlens@[i],
        seqlens@.len() == 0 ==> p.seqs@.len() == 1 && p.seqs@[0].tokens.len == tokens,
        p.seqs@[i].mask is Some == masks is Some,
        p.seqs@[i].mask matches Some(m) ==> m == i,
        ({
            let k = p.seqs@[i].keys;
            &&& k.rows == d && k.cols == p.seqs@[i].tokens.len
            &&& k.row_step == 1 && k.col_step == d
        }),
        p.row == hkv * d,
        is_order_of_head(p.head_steps@, masks is Some),
{
    let lens = attention::prefill_lens(seqlens@, tokens);
    assert(seqlens@.len() == seqlens.len());
    lemma_first_outside(lens, tokens, lens.len() as int);
    lemma_headless(hq as int, hkv as int, hq as int);
    let n = p.seqs@.len() as int;
    assert(attention::are_placed(p.seqs@, lens, d, masks is Some, n));
    let _ = p.seqs@[0];
    if i + 1 < n {
        let _ = p.seqs@[i + 1];
    }
    assert(attention::seq_start(lens, i + 1) == attention::seq_start(lens, i) + lens[i]);
}

/// A prefill runs through where its sequences end within the tokens and each head has
/// a key head; the first one without is told, behind the first sequence.
pub proof fn law_prefills_run_through(
    tokens: usize,
    hq: usize,
    hkv: usize,
    d: usize,
    seqlens: &[usize],
    masks: Option<usize>,
    p: PrefillPlan,
)
    requires
        0 < hkv <= hq,
        call_ensures(attention::plan_prefill, (tokens, hq, hkv, d, seqlens, masks), p),
    ensures
        p.stop is None ==> p.seqs@.len() == if seqlens@.len() > 0 {
            seqlens@.len() as int
        } else {
            1
        },
        p.stop is None ==> p.kv_heads@.len() == hq,
        p.stop matches Some(AttentionError::KvHeadRange { head }) ==> head == hkv && hkv < hq < 2
            * hkv && p.kv_heads@.len() == hkv,
        p.stop matches Some(AttentionError::TokenRange { seq }) ==> seq == p.seqs@.len() && (
        seqlens@.len() > 0 ==> seq < seqlens@.len()) && (seq > 0 ==> p.seqs@[seq - 1].tokens.start
            + p.seqs@[seq - 1].tokens.len + seqlens@[seq as int] > tokens) && (seq == 0
            ==> seqlens@[0] > tokens),
        p.stop matches Some(e) ==> e is KvHeadRange || e is TokenRange,
        hkv < hq < 2 * hkv ==> p.stop is Some,
{
    let lens = attention::prefill_lens(seqlens@, tokens);
    assert(seqlens@.len() == seqlens.len());
    lemma_first_outside(lens, tokens, lens.len() as int);
    lemma_headless(hq as int, hkv as int, hq as int);
    assert(hkv < hq < 2 * hkv <==> (hq as int / hkv as int == 1 && hkv < hq)) by (nonlinear_arith)
        requires
            0 < hkv <= hq,
    ;
    if p.stop is Some && p.stop->Some_0 is TokenRange {
        let s = p.seqs@.len() as int;
        assert(attention::seq_start(lens, s + 1) == attention::seq_start(lens, s) + lens[s]);
        assert(attention::seq_start(lens, 0) == 0);
        if s > 0 {
            assert(attention::seq_start(lens, s) == attention::seq_start(lens, s - 1) + lens[s
                - 1]);
            let _ = p.seqs@[s - 1];
        } else {
            assert(attention::seq_start(lens, 1) == attention::seq_start(lens, 0) + lens[0]);
        }
        if seqlens@.len() == 0 {
            assert(lens.len() == 1 && lens[0] == tokens);
            assert(attention::seq_start(lens, 1) == tokens);
        }
    }
}

/// Heads of a group share a key head, groups take the key heads in turn, and behind the
/// last key head they start anew.
pub proof fn law_groups_take_key_heads_in_turn(
    tokens: usize,
    hq: usize,
    hkv: usize,
    d: usize,
    seqlens: &[usize],
    masks: Option<usize>,
    p: PrefillPlan,
    h: int,
    g: int,
)
    requires
        0 < hkv <= hq,
        call_ensures(attention::plan_prefill, (tokens, hq, hkv, d, seqlens, masks), p),
        0 <= h < p.kv_heads@.len(),
        0 <= g,
        g * p.group <= h < (g + 1) * p.group,
    ensures
        p.group * hkv <= hq < (p.group + 1) * hkv,
        p.kv_heads@[h] < hkv,
        g < hkv ==> p.kv_heads@[h] == g,
        g >= hkv ==> (g - p.kv_heads@[h]) % hkv as int == 0,
{
    lemma_headless(hq as int, hkv as int, hq as int);
    let gr = hq as int / hkv as int;
    assert(gr * hkv <= hq < (gr + 1) * hkv) by (nonlinear_arith)
        requires
            0 < hkv <= hq,
            gr == hq as int / hkv as int,
    ;
    assert((g + 1) * gr == g * gr + gr) by (nonlinear_arith);
    vstd::arithmetic::div_mod::lemma_fundamental_div_mod_converse(h, gr, g, h - g * gr);
    assert(attention::kv_row(h, hkv as int, gr) == Some(p.kv_heads@[h] as int));
    let k = hkv as int;
    assert(p.kv_heads@[h] == g % k);
    vstd::arithmetic::div_mod::lemma_mod_bound(g, k);
    if g < k {
        vstd::arithmetic::div_mod::lemma_small_mod(g as nat, k as nat);
    } else {
        vstd::arithmetic::div_mod::lemma_fundamental_div_mod(g, k);
        assert(g - g % k == (g / k) * k) by (nonlinear_arith)
            requires
                g == k * (g / k) + g % k,
        ;
        vstd::arithmetic::div_mod::lemma_mod_multiples_basic(g / k, k);
    }
}

// ---- Attention without a cache ----

/// Queries are taken in chunks of 1024, one behind the other; only the last one is
/// shorter, and they end with the queries.
pub proof fn law_queries_come_in_chunks(len: usize, r: Vec<Slice>, c: int)
    requires
        call_ensures(attention::query_chunks, (len,), r),
        0 <= c < r@.len(),
    ensures
        r@[0].start == 0,
        c + 1 < r@.len() ==> r@[c].len == 1024 && r@[c + 1].start == r@[c].start + 1024,
        c + 1 == r@.len() ==> r@[c].start + r@[c].len == len && 0 < r@[c].len <= 1024,
{
    let _ = r@[0];
    if c + 1 < r@.len() {
        let _ = r@[c + 1];
    }
}

/// Projections have names of their own in single files.
pub proof fn law_plain_projections_have_their_names(f: &'static str, qvar: bool, r: &'static str)
    requires
        call_ensures(attention::naive_name, (f, qvar), r),
    ensures
        !qvar ==> r@ == f@,
        qvar && f@ == "q_proj"@ ==> r@ == "attn_q"@,
        qvar && f@ == "k_proj"@ ==> r@ == "attn_k"@,
        qvar && f@ == "v_proj"@ ==> r@ == "attn_v"@,
        qvar && f@ == "o_proj"@ ==> r@ == "attn_output"@,
        f@ != "q_proj"@ && f@ != "k_proj"@ && f@ != "v_proj"@ && f@ != "o_proj"@ ==> r@ == f@,
{
    reveal_strlit("q_proj");
    reveal_strlit("k_proj");
    reveal_strlit("v_proj");
    reveal_strlit("o_proj");
    assert("q_proj"@[0] != "k_proj"@[0] && "q_proj"@[0] != "v_proj"@[0]);
    assert("q_proj"@[0] != "o_proj"@[0] && "k_proj"@[0] != "v_proj"@[0]);
    assert("k_proj"@[0] != "o_proj"@[0] && "v_proj"@[0] != "o_proj"@[0]);
}

/// All four projections keep the hidden size, none is split, and the last one may be
/// named.
pub proof fn law_plain_projections_keep_the_size(
    vb: VarBuilderX,
    n: usize,
    hidden: usize,
    d: usize,
    cap: Option<u64>,
    dtype: Dtype,
    name: Option<&str>,
    r: NaiveAttention,
)
    requires
        call_ensures(NaiveAttention::new, (&vb, n, hidden, d, cap, dtype, name), r),
    ensures
        r.num_heads == n && r.head_dim == d && r.softcapping == cap,
        r.q_proj.inner.weight.shape@ == seq![hidden, hidden],
        r.k_proj.inner.weight.shape@ == seq![hidden, hidden],
        r.v_proj.inner.weight.shape@ == seq![hidden, hidden],
        r.o_proj.inner.weight.shape@ == seq![hidden, hidden],
        r.q_proj.inner.weight.shard.world_size == 0 && r.k_proj.inner.weight.shard.world_size == 0
            && r.v_proj.inner.weight.shard.world_size == 0
            && r.o_proj.inner.weight.shard.world_size == 0,
        r.q_proj.path@ == vb.name_of("q_proj"@) && r.k_proj.path@ == vb.name_of("k_proj"@),
        r.v_proj.path@ == vb.name_of("v_proj"@),
        name is None ==> r.o_proj.path@ == vb.name_of("o_proj"@),
        name matches Some(s) ==> r.o_proj.path@ == vb.name_of(s@),
{
}

/// A chunk of scores is scaled, capped where there is a cap, masked with its own rows
/// where there is a mask, and normalized in singles.
pub proof fn law_chunks_go_in_order(a: NaiveAttention, q: Slice, masked: bool, r: Vec<ChunkStep>)
    requires
        call_ensures(NaiveAttention::chunk, (&a, q, masked), r),
    ensures
        ({
            let n = r@.len() as int;
            &&& n == 6 + (if masked {
                1int
            } else {
                0
            }) + (if a.softcapping is Some {
                1int
            } else {
                0
            })
            &&& r@[0] == ChunkStep::TimesKeys(q) && r@[1] is Scale
            &&& a.softcapping matches Some(cap) ==> r@[2] == ChunkStep::Cap(cap)
            &&& masked ==> r@[n - 5] == ChunkStep::AddMask(q)
            &&& r@[n - 4] is ToSingles && r@[n - 3] is Softmax
            &&& r@[n - 2] is BackToType && r@[n - 1] is TimesValues
        }),
{
}

/// A pass without a cache projects, shapes, rotates where there are positions, takes its
/// queries in chunks, and gives rows as wide as its heads.
pub proof fn law_plain_passes_go_in_order(
    a: NaiveAttention,
    batch: usize,
    len: usize,
    positions: bool,
    r: Vec<NaiveStep>,
    chunks: Vec<Slice>,
    c: int,
)
    requires
        a.num_heads * a.head_dim <= usize::MAX,
        call_ensures(NaiveAttention::forward, (&a, batch, len, positions), r),
        call_ensures(attention::query_chunks, (len,), chunks),
        0 <= c < chunks@.len(),
    ensures
        ({
            let at: int = if positions {
                5
            } else {
                4
            };
            let n = r@.len() as int;
            let (h, d) = (a.num_heads, a.head_dim);
            &&& n == at + chunks@.len() + 4
            &&& r@[0] is Project
            &&& r@[1] == NaiveStep::ShapeQk((len, h, d))
            &&& r@[2] == NaiveStep::ShapeV((batch, len, h, d))
            &&& positions ==> r@[3] is Rotate
            &&& r@[at - 1] == NaiveStep::SwapQk((batch, len, h, d))
            &&& r@[at + c] == NaiveStep::Chunk(chunks@[c])
            &&& r@[n - 4] is JoinChunks && r@[n - 3] is SwapOutput
            &&& r@[n - 2] matches NaiveStep::Flatten(s) && s.0 == batch && s.1 == len && s.2 == h
                * d
            &&& r@[n - 1] is ProjectOutput
        }),
{
    assert(a.num_heads * a.head_dim >= 0) by (nonlinear_arith);
    let _ = chunks@[c];
}

} // verus!
