//! Laws of gated delta net layers: sizes, passes, recurrences and rollbacks.

use crate::config::Config;
use crate::dtype::Dtype;
use crate::models::layers::deltanet::{
    self, ConvPath, ConvSlices, FusedSplit, GatedDeltaNet, GdnCall, GdnDims, GdnError, GdnStep,
    HybridConfig, ProjectionKind, RecurrencePath,
};
use crate::models::layers::distributed::Comm;
use crate::models::layers::linear::Slice;
use crate::models::layers::var_builder::VarBuilderX;
use vstd::prelude::*;

verus! {

// ---- Sizes ----

/// A layer is sized exactly where its value heads make whole groups for its key heads
/// and both divide over the ranks. All ranks together then have all heads, a rank has
/// whole groups, and its channels are those of its heads. The first condition that
/// fails is told.
pub proof fn law_heads_divide_over_ranks(
    h: HybridConfig,
    comm: Comm,
    r: Result<GdnDims, GdnError>,
)
    requires
        h.num_k_heads > 0,
        comm.world_size > 0,
        2 * (h.num_k_heads * h.key_head_dim) + h.num_v_heads * h.value_head_dim <= usize::MAX,
        call_ensures(GdnDims::resolve, (&h, &comm), r),
    ensures
        ({
            let ws = comm.world_size as int;
            let grouped = h.num_v_heads as int % h.num_k_heads as int == 0;
            let divided = h.num_v_heads as int % ws == 0 && h.num_k_heads as int % ws == 0;
            &&& r is Ok == (grouped && divided)
            &&& !grouped ==> r == Err::<GdnDims, GdnError>(
                GdnError::HeadGroups { num_v_heads: h.num_v_heads, num_k_heads: h.num_k_heads },
            )
            &&& grouped && !divided ==> r == Err::<GdnDims, GdnError>(
                GdnError::HeadRanks {
                    num_v_heads: h.num_v_heads,
                    num_k_heads: h.num_k_heads,
                    world_size: comm.world_size,
                },
            )
        }),
        r matches Ok(d) ==> {
            let ws = comm.world_size as int;
            &&& d.num_v_heads_global == h.num_v_heads && d.num_k_heads_global == h.num_k_heads
            &&& d.head_k_dim == h.key_head_dim && d.head_v_dim == h.value_head_dim
            &&& d.conv_kernel_size == h.conv_kernel_size
            &&& d.num_v_heads * ws == h.num_v_heads && d.num_k_heads * ws == h.num_k_heads
            &&& d.num_k_heads * d.kv_group_size == d.num_v_heads
            &&& d.key_dim_global == h.num_k_heads * h.key_head_dim
            &&& d.value_dim_global == h.num_v_heads * h.value_head_dim
            &&& d.key_dim == d.num_k_heads * h.key_head_dim
            &&& d.value_dim == d.num_v_heads * h.value_head_dim
            &&& d.conv_dim_global == d.key_dim_global + d.key_dim_global + d.value_dim_global
            &&& d.d_conv == d.key_dim + d.key_dim + d.value_dim
            &&& d.key_dim * ws == d.key_dim_global && d.value_dim * ws == d.value_dim_global
        },
{
    if r is Ok {
        deltanet::law_resolved_dims_are_consistent(h, comm.world_size as int);
        let d = r->Ok_0;
        let ws = comm.world_size as int;
        vstd::arithmetic::div_mod::lemma_fundamental_div_mod(h.num_v_heads as int, ws);
        vstd::arithmetic::div_mod::lemma_fundamental_div_mod(h.num_k_heads as int, ws);
        let nv = h.num_v_heads as int / ws;
        let nk = h.num_k_heads as int / ws;
        assert(0 <= nv <= h.num_v_heads && 0 <= nk <= h.num_k_heads && nv * ws == h.num_v_heads
            && nk * ws == h.num_k_heads) by (nonlinear_arith)
            requires
                h.num_v_heads as int == ws * nv,
                h.num_k_heads as int == ws * nk,
                h.num_v_heads >= 0,
                h.num_k_heads >= 0,
                ws >= 1,
        ;
        assert(d.num_v_heads == nv && d.num_k_heads == nk);
        vstd::arithmetic::mul::lemma_mul_is_commutative(ws, d.key_dim as int);
        vstd::arithmetic::mul::lemma_mul_is_commutative(ws, d.value_dim as int);
    }
}

/// The channels that ranks take of the convolution tile it, for queries, keys and
/// values each: the first rank starts where the part of all ranks starts, each next one
/// where the one before ends, and the last one ends with the part.
pub proof fn law_conv_channels_tile(
    d: GdnDims,
    rank: usize,
    ranks: usize,
    a: ConvSlices,
    b: ConvSlices,
)
    requires
        d.wf(),
        rank + 1 < ranks,
        ranks * d.key_dim == d.key_dim_global,
        ranks * d.value_dim == d.value_dim_global,
        call_ensures(GdnDims::conv_slices, (&d, &(Comm { world_size: ranks, rank })), a),
        call_ensures(
            GdnDims::conv_slices,
            (&d, &(Comm { world_size: ranks, rank: (rank + 1) as usize })),
            b,
        ),
    ensures
        a.q.len == d.key_dim && a.k.len == d.key_dim && a.v.len == d.value_dim,
        b.q.len == d.key_dim && b.k.len == d.key_dim && b.v.len == d.value_dim,
        rank == 0 ==> a.q.start == 0 && a.k.start == d.key_dim_global && a.v.start
            == d.key_dim_global + d.key_dim_global,
        b.q.start == a.q.start + a.q.len,
        b.k.start == a.k.start + a.k.len,
        b.v.start == a.v.start + a.v.len,
        rank + 2 == ranks ==> b.q.start + b.q.len == d.key_dim_global && b.k.start + b.k.len
            == d.key_dim_global + d.key_dim_global && b.v.start + b.v.len == d.conv_dim_global,
{
    let (k, v) = (d.key_dim as int, d.value_dim as int);
    assert((rank + 1) * k == rank * k + k && (rank + 1) * v == rank * v + v) by (nonlinear_arith);
    if rank + 2 == ranks {
        assert((rank + 1) * k + k == ranks * k && (rank + 1) * v + v == ranks * v)
            by (nonlinear_arith)
            requires
                rank + 2 == ranks,
        ;
    }
}

/// The columns of queries, keys and values stand behind each other and make up the
/// channels of the rank.
pub proof fn law_columns_make_up_channels(d: GdnDims, c: ConvSlices)
    requires
        d.wf(),
        call_ensures(GdnDims::columns, (&d,), c),
    ensures
        c.q.start == 0 && c.q.len == d.num_k_heads * d.head_k_dim,
        c.k.start == c.q.start + c.q.len && c.k.len == c.q.len,
        c.v.start == c.k.start + c.k.len && c.v.len == d.num_v_heads * d.head_v_dim,
        c.v.start + c.v.len == d.d_conv,
{
}

// ---- Passes ----

/// The place of a step among the others.
pub open spec fn stage(step: GdnStep) -> int {
    match step {
        GdnStep::ConvertInput(_) => 0,
        GdnStep::Project(_) => 1,
        GdnStep::CutFused(_) => 2,
        GdnStep::CutQkv(_) => 2,
        GdnStep::TakeChunks => 2,
        GdnStep::ConvertProjected(_) => 3,
        GdnStep::JoinColumns => 4,
        GdnStep::GatherConvState => 5,
        GdnStep::ConvolveGathered { .. } => 6,
        GdnStep::ConvolveInPlace { .. } => 6,
        GdnStep::StoreConvState => 7,
        GdnStep::CutColumns(_) => 8,
        GdnStep::Gates(_) => 9,
        GdnStep::Shape { .. } => 10,
        GdnStep::UnitQk { .. } => 11,
        GdnStep::ScaleQueries => 12,
        GdnStep::Recur(_) => 13,
        GdnStep::Flatten(_) => 14,
        GdnStep::GatedNorm { .. } => 15,
        GdnStep::ConvertGated(_) => 16,
        GdnStep::ProjectOutput => 17,
        GdnStep::ConvertBack(_) => 18,
    }
}

/// Every step comes behind those of earlier stages, and no stage comes twice.
pub open spec fn in_order(steps: Seq<GdnStep>) -> bool {
    forall|x: int, y: int|
        0 <= x < y < steps.len() ==> stage(#[trigger] steps[x]) < stage(#[trigger] steps[y])
}

/// Columns of queries, keys and values, behind each other, as wide as the heads are.
pub open spec fn are_columns(d: GdnDims, c: ConvSlices) -> bool {
    &&& c.q.start == 0 && c.q.len == d.num_k_heads * d.head_k_dim
    &&& c.k.start == c.q.len && c.k.len == c.q.len
    &&& c.v.start == c.q.len + c.k.len && c.v.len == d.num_v_heads * d.head_v_dim
}

/// The parts of a fused projection, behind each other: per key head its query, its key,
/// the values and the gates of its group, and its strengths and decays.
pub open spec fn are_fused_parts(d: GdnDims, f: FusedSplit) -> bool {
    &&& f.query.start == 0 && f.query.len == d.head_k_dim
    &&& f.key.start == f.query.len && f.key.len == d.head_k_dim
    &&& f.value.start == f.query.len + f.key.len && f.value.len == d.kv_group_size * d.head_v_dim
    &&& f.z.start == f.value.start + f.value.len && f.z.len == f.value.len
    &&& f.qkvz_group_dim == f.z.start + f.z.len
    &&& f.b.start == 0 && f.b.len == d.kv_group_size
    &&& f.a.start == f.b.len && f.a.len == d.kv_group_size
    &&& f.ba_group_dim == f.b.len + f.a.len
}

/// The snapshots of a pass: one per token in a verification, none else.
pub open spec fn snapshots_of(c: GdnCall, s: Option<Slice>) -> bool {
    match s {
        Some(part) => c.is_mtp_verify && part.start == 0 && part.len == c.token_count,
        None => !c.is_mtp_verify,
    }
}

/// Whether a step of a pass is due.
pub open spec fn due(
    net: GatedDeltaNet,
    c: GdnCall,
    kind: ProjectionKind,
    input: Dtype,
    step: GdnStep,
) -> bool {
    let d = net.dims;
    match step {
        GdnStep::ConvertInput(to) => to == net.types.model_dtype,
        GdnStep::Project(k) => k == kind,
        GdnStep::CutFused(f) => kind is FusedQkvzBa && are_fused_parts(d, f),
        GdnStep::CutQkv(s) => kind is SplitQkvZaLegacy && are_columns(d, s),
        GdnStep::TakeChunks => kind is SplitQkvZaMerged,
        GdnStep::ConvertProjected(to) => to == net.types.gdn_dtype,
        GdnStep::JoinColumns => true,
        GdnStep::GatherConvState => c.is_prefill,
        GdnStep::ConvolveGathered { snapshots, silu } => c.is_prefill && silu && snapshots_of(
            c,
            snapshots,
        ),
        GdnStep::StoreConvState => c.is_prefill,
        GdnStep::ConvolveInPlace { silu } => !c.is_prefill && silu,
        GdnStep::CutColumns(s) => are_columns(d, s),
        GdnStep::Gates(s) => s.0 == c.token_count && s.1 == d.num_v_heads,
        GdnStep::Shape { qk, v } => {
            &&& qk == (c.token_count, d.num_k_heads, d.head_k_dim)
            &&& v == (c.token_count, d.num_v_heads, d.head_v_dim)
        },
        GdnStep::UnitQk { eps } => eps == 0x3eb0_c6f7_a0b5_ed8du64,
        GdnStep::ScaleQueries => c.is_prefill && d.num_k_heads == d.num_v_heads,
        GdnStep::Recur(RecurrencePath::PrefillGrouped { snapshots }) => c.is_prefill
            && d.num_k_heads != d.num_v_heads && snapshots_of(c, snapshots),
        GdnStep::Recur(RecurrencePath::PrefillScaled { snapshots }) => c.is_prefill && d.num_k_heads
            == d.num_v_heads && snapshots_of(c, snapshots),
        GdnStep::Recur(RecurrencePath::Decode { batch }) => !c.is_prefill && batch == c.slot_count,
        GdnStep::Flatten(s) => s.0 == c.token_count && s.1 == d.num_v_heads * d.head_v_dim,
        GdnStep::GatedNorm { eps, sigmoid, group } => eps == net.norm_eps && sigmoid
            == net.gate_sigmoid && group == d.head_v_dim,
        GdnStep::ConvertGated(to) => to == net.types.model_dtype,
        GdnStep::ProjectOutput => true,
        GdnStep::ConvertBack(to) => to == input,
    }
}

spec fn within(steps: Seq<GdnStep>, lo: int, hi: int) -> bool {
    &&& in_order(steps)
    &&& forall|x: int| 0 <= x < steps.len() ==> lo <= stage(#[trigger] steps[x]) < hi
}

proof fn lemma_within_add(a: Seq<GdnStep>, b: Seq<GdnStep>, lo: int, mid: int, hi: int)
    requires
        within(a, lo, mid),
        within(b, mid, hi),
        lo <= mid <= hi,
    ensures
        within(a + b, lo, hi),
{
    let s = a + b;
    assert forall|x: int| 0 <= x < s.len() implies lo <= stage(#[trigger] s[x]) < hi by {
        if x < a.len() {
            assert(s[x] == a[x]);
        } else {
            assert(s[x] == b[x - a.len()]);
        }
    }
    assert forall|x: int, y: int| 0 <= x < y < s.len() implies stage(#[trigger] s[x]) < stage(
        #[trigger] s[y],
    ) by {
        if y < a.len() {
            assert(s[x] == a[x] && s[y] == a[y]);
        } else if x < a.len() {
            assert(s[x] == a[x] && s[y] == b[y - a.len()]);
        } else {
            assert(s[x] == b[x - a.len()] && s[y] == b[y - a.len()]);
        }
    }
}

proof fn lemma_contains_add(a: Seq<GdnStep>, b: Seq<GdnStep>, step: GdnStep)
    ensures
        (a + b).contains(step) == (a.contains(step) || b.contains(step)),
{
    let s = a + b;
    if a.contains(step) {
        let x = choose|x: int| 0 <= x < a.len() && a[x] == step;
        assert(s[x] == step);
    }
    if b.contains(step) {
        let x = choose|x: int| 0 <= x < b.len() && b[x] == step;
        assert(s[a.len() + x] == step);
    }
    if s.contains(step) {
        let x = choose|x: int| 0 <= x < s.len() && s[x] == step;
        if x < a.len() {
            assert(a[x] == step);
        } else {
            assert(b[x - a.len()] == step);
        }
    }
}

/// A sequence of given steps has exactly these.
proof fn lemma_has(s: Seq<GdnStep>, step: GdnStep)
    requires
        s.len() <= 5,
    ensures
        s.contains(step) == ((s.len() > 0 && s[0] == step) || (s.len() > 1 && s[1] == step) || (
        s.len() > 2 && s[2] == step) || (s.len() > 3 && s[3] == step) || (s.len() > 4 && s[4]
            == step)),
{
    if s.contains(step) {
        let x = choose|x: int| 0 <= x < s.len() && s[x] == step;
        assert(x == 0 || x == 1 || x == 2 || x == 3 || x == 4);
    }
}

proof fn lemma_parts_due(
    net: GatedDeltaNet,
    c: GdnCall,
    conv: ConvPath,
    kind: ProjectionKind,
    input: Dtype,
    step: GdnStep,
)
    requires
        net.dims.wf(),
        kind is FusedQkvzBa ==> net.dims.fits_fused(),
        deltanet::conv_answer(c, net.gdn_layer_idx, net.snapshot_len()) == Ok::<ConvPath, GdnError>(
            conv,
        ),
    ensures
        within(net.input_steps(kind), 0, 5),
        within(deltanet::conv_steps(conv), 5, 8),
        within(net.head_steps(c.token_count), 8, 12),
        within(deltanet::recurrence_steps(deltanet::recurrence_path(c, net.dims)), 12, 14),
        within(net.output_steps(c.token_count, input), 14, 19),
        net.input_steps(kind).contains(step) == (stage(step) < 5 && due(net, c, kind, input, step)),
        deltanet::conv_steps(conv).contains(step) == (5 <= stage(step) < 8 && due(
            net,
            c,
            kind,
            input,
            step,
        )),
        net.head_steps(c.token_count).contains(step) == (8 <= stage(step) < 12 && due(
            net,
            c,
            kind,
            input,
            step,
        )),
        deltanet::recurrence_steps(deltanet::recurrence_path(c, net.dims)).contains(step) == (12
            <= stage(step) < 14 && due(net, c, kind, input, step)),
        net.output_steps(c.token_count, input).contains(step) == (14 <= stage(step) && due(
            net,
            c,
            kind,
            input,
            step,
        )),
{
    let d = net.dims;
    assert(d.kv_group_size * d.head_v_dim >= 0) by (nonlinear_arith);
    lemma_has(net.input_steps(kind), step);
    lemma_has(deltanet::conv_steps(conv), step);
    lemma_has(net.head_steps(c.token_count), step);
    lemma_has(deltanet::recurrence_steps(deltanet::recurrence_path(c, d)), step);
    lemma_has(net.output_steps(c.token_count, input), step);
}

/// A pass makes exactly the steps that are due, each once and in order. A prefill
/// gathers the states of the convolution before it and writes them back behind it; a
/// decode step works in place. The output of the recurrence is flattened to the value
/// heads of the rank.
pub proof fn law_passes_make_the_due_steps(
    net: GatedDeltaNet,
    c: GdnCall,
    kind: ProjectionKind,
    input: Dtype,
    r: Result<Vec<GdnStep>, GdnError>,
    step: GdnStep,
)
    requires
        net.dims.wf(),
        kind is FusedQkvzBa ==> net.dims.fits_fused(),
        call_ensures(GatedDeltaNet::plan_forward, (&net, &c, kind, input), r),
    ensures
        r matches Ok(steps) ==> in_order(steps@) && steps@.contains(step) == due(
            net,
            c,
            kind,
            input,
            step,
        ),
{
    if r is Ok {
        let conv = deltanet::conv_answer(c, net.gdn_layer_idx, net.snapshot_len())->Ok_0;
        lemma_parts_due(net, c, conv, kind, input, step);
        let p0 = net.input_steps(kind);
        let p1 = deltanet::conv_steps(conv);
        let p2 = net.head_steps(c.token_count);
        let p3 = deltanet::recurrence_steps(deltanet::recurrence_path(c, net.dims));
        let p4 = net.output_steps(c.token_count, input);
        lemma_within_add(p0, p1, 0, 5, 8);
        lemma_within_add(p0 + p1, p2, 0, 8, 12);
        lemma_within_add(p0 + p1 + p2, p3, 0, 12, 14);
        lemma_within_add(p0 + p1 + p2 + p3, p4, 0, 14, 19);
        lemma_contains_add(p0, p1, step);
        lemma_contains_add(p0 + p1, p2, step);
        lemma_contains_add(p0 + p1 + p2, p3, step);
        lemma_contains_add(p0 + p1 + p2 + p3, p4, step);
    }
}

/// A pass is refused exactly without a slot, in a verification without snapshots or
/// with more tokens than snapshots, and in a decode step with another number of tokens
/// than slots. The missing slot is told first.
pub proof fn law_passes_are_refused(
    net: GatedDeltaNet,
    c: GdnCall,
    kind: ProjectionKind,
    input: Dtype,
    r: Result<Vec<GdnStep>, GdnError>,
)
    requires
        net.snapshots_agree(),
        call_ensures(GatedDeltaNet::plan_forward, (&net, &c, kind, input), r),
    ensures
        c.slot_count == 0 ==> r == Err::<Vec<GdnStep>, GdnError>(GdnError::NoSlots),
        c.slot_count > 0 && !c.is_prefill ==> r is Ok == (c.token_count == c.slot_count),
        c.slot_count > 0 && !c.is_prefill && r is Err ==> r == Err::<Vec<GdnStep>, GdnError>(
            GdnError::DecodeMismatch { tokens: c.token_count, slots: c.slot_count },
        ),
        c.slot_count > 0 && c.is_prefill && !c.is_mtp_verify ==> r is Ok,
        c.slot_count > 0 && c.is_prefill && c.is_mtp_verify ==> match net.snapshots {
            None => r == Err::<Vec<GdnStep>, GdnError>(
                GdnError::MissingConvSnapshot { layer: net.gdn_layer_idx },
            ),
            Some((conv, recurrent)) => {
                &&& r is Ok == (c.token_count <= conv@[0] && c.token_count <= recurrent@[0])
                &&& r is Err ==> r == Err::<Vec<GdnStep>, GdnError>(
                    GdnError::SnapshotTokens { tokens: c.token_count, len: conv@[0] },
                )
            },
        },
{
}

/// The flattened output holds the elements of the value heads, and in a layer that was
/// made from settings it is as wide as the part of the last projection that the rank
/// has: all ranks together make up its input.
pub proof fn law_flattened_output_meets_the_projection(
    net: GatedDeltaNet,
    vb: VarBuilderX,
    comm: Comm,
    config: Config,
    index: usize,
    dtype: Dtype,
    c: GdnCall,
    kind: ProjectionKind,
    input: Dtype,
    r: Result<Vec<GdnStep>, GdnError>,
    x: int,
    y: int,
)
    requires
        deltanet::fits_linear(config, comm),
        call_ensures(
            GatedDeltaNet::new,
            (&vb, &comm, &config, index, dtype),
            Ok::<GatedDeltaNet, GdnError>(net),
        ),
        kind is FusedQkvzBa ==> net.dims.fits_fused(),
        call_ensures(GatedDeltaNet::plan_forward, (&net, &c, kind, input), r),
        r matches Ok(steps) && 0 <= x < steps@.len() && 0 <= y < steps@.len() && steps@[x]
            is Flatten && steps@[y] is Shape,
    ensures
        ({
            let flat = (r->Ok_0)@[x]->Flatten_0;
            let heads = (r->Ok_0)@[y]->v;
            &&& flat.0 == c.token_count
            &&& flat.0 * flat.1 == heads.0 * (heads.1 * heads.2)
            &&& flat.1 * comm.world_size == net.out_proj.in_dim
        }),
{
    let h = config.hybrid;
    assert(h.num_v_heads * h.value_head_dim >= 0) by (nonlinear_arith);
    deltanet::law_resolved_dims_are_consistent(h, comm.world_size as int);
    let steps = (r->Ok_0)@;
    let (f, s) = (steps[x], steps[y]);
    law_passes_make_the_due_steps(net, c, kind, input, r, f);
    law_passes_make_the_due_steps(net, c, kind, input, r, s);
    assert(steps.contains(f) && steps.contains(s));
    vstd::arithmetic::mul::lemma_mul_is_commutative(
        comm.world_size as int,
        net.dims.value_dim as int,
    );
}

/// A step converts only what has another type: the input, what was projected and the
/// result to the type of the step. The gated output is converted in any case, and other
/// steps convert nothing.
pub proof fn law_steps_convert_what_differs(step: GdnStep, got: Dtype, r: Option<Dtype>)
    requires
        call_ensures(GdnStep::convert, (&step, got), r),
    ensures
        step matches GdnStep::ConvertInput(to) ==> (r is None == (got == to)) && (
        r matches Some(d) ==> d == to),
        step matches GdnStep::ConvertProjected(to) ==> (r is None == (got == to)) && (
        r matches Some(d) ==> d == to),
        step matches GdnStep::ConvertBack(to) ==> (r is None == (got == to)) && (
        r matches Some(d) ==> d == to),
        step matches GdnStep::ConvertGated(to) ==> r == Some(to),
        !(step is ConvertInput || step is ConvertProjected || step is ConvertBack || step
            is ConvertGated) ==> r is None,
{
}

} // verus!
