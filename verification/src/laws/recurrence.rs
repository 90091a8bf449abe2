//! Laws of what gated delta nets load, how their states run and how they roll back.

use crate::config::Config;
use crate::dtype::Dtype;
use crate::models::layers::deltanet::{
    self, ConvLaunch, ConvPath, ConvWeight, DecodeLaunch, GatedDeltaNet, GatedNormLaunch, GdnCall,
    GdnDims, GdnError, GdnTypes, ProjectionKind, ProjectionLoader, ProjectionSizes, ProjectionStep,
    RecurrenceInput, RecurrencePath, RecurrencePlan, RecurrenceStep, Rollback, WeightQuant,
};
use crate::models::layers::distributed::Comm;
use crate::models::layers::shape;
use crate::models::layers::var_builder::{KeyMap, VarBuilderX};
use crate::text;
use vstd::prelude::*;

verus! {

// ---- The run of a recurrence ----

proof fn lemma_max_slot(slots: Seq<u32>)
    ensures
        forall|x: int| 0 <= x < slots.len() ==> #[trigger] slots[x] <= deltanet::max_slot(slots),
        slots.len() > 0 ==> slots.contains(deltanet::max_slot(slots)),
    decreases slots.len(),
{
    if slots.len() > 0 {
        let s = slots.drop_last();
        lemma_max_slot(s);
        let m = deltanet::max_slot(slots);
        assert(s.len() == 0 ==> deltanet::max_slot(s) == 0);
        assert forall|x: int| 0 <= x < slots.len() implies #[trigger] slots[x] <= m by {
            if x < s.len() {
                assert(s[x] == slots[x]);
            }
        }
        if m == slots.last() {
            assert(slots[slots.len() - 1] == m);
        } else {
            let x = choose|x: int| 0 <= x < s.len() && s[x] == m;
            assert(slots[x] == m);
        }
    }
}

/// The shapes, bounds and slots of a recurrence that is run.
pub open spec fn is_runnable(i: RecurrenceInput) -> bool {
    &&& !i.snapshots
    &&& i.dtype is F32
    &&& i.q_shape@.len() == 3
    &&& i.v_shape@.len() == 3
    &&& i.v_shape@[0] == i.q_shape@[0]
    &&& i.v_shape@[1] as int % i.q_shape@[1] as int == 0
    &&& i.slots@.len() > 0
    &&& i.bounds@.len() == i.slots@.len() + 1
    &&& i.bounds@[i.slots@.len() as int] == i.q_shape@[0]
    &&& forall|s: int| 0 <= s < i.slots@.len() ==> #[trigger] i.slots@[s] < i.state_rows
}

/// A recurrence is planned exactly where it can be run, with the sizes of its inputs,
/// and what is refused tells what was found.
pub proof fn law_recurrences_that_run(i: RecurrenceInput, r: Result<RecurrencePlan, GdnError>)
    requires
        call_ensures(deltanet::plan_recurrence, (&i,), r),
    ensures
        r is Ok == is_runnable(i),
        r matches Ok(p) ==> p.total == i.q_shape@[0] && p.nk == i.q_shape@[1] && p.kd
            == i.q_shape@[2] && p.nv == i.v_shape@[1] && p.vd == i.v_shape@[2],
        r matches Err(e) ==> match e {
            GdnError::RecurrentSnapshotsClosed => i.snapshots,
            GdnError::NotF32 { dtype } => !i.snapshots && dtype == i.dtype && !(dtype is F32),
            GdnError::QueryRank { rank } => rank == i.q_shape@.len() && rank != 3,
            GdnError::ValueTokens => i.v_shape@.len() != 3 || i.v_shape@[0] != i.q_shape@[0],
            GdnError::GroupMapping { nv, nk } => nv == i.v_shape@[1] && nk == i.q_shape@[1] && nv
                as int % nk as int != 0,
            GdnError::BoundsMismatch { bounds, rows } => bounds == i.bounds@.len() && rows
                == i.slots@.len() && (bounds != rows + 1 || rows == 0),
            GdnError::BoundsTotal { last, total } => last == i.bounds@.last() && total
                == i.q_shape@[0] && last != total,
            GdnError::SlotOutOfRange { max, rows } => i.slots@.contains(max) && rows == i.state_rows
                && max >= rows && forall|s: int|
                0 <= s < i.slots@.len() ==> #[trigger] i.slots@[s] <= max,
            _ => false,
        },
{
    lemma_max_slot(i.slots@);
    assert(i.q_shape@.len() == i.q_shape.len());
    assert(i.bounds@.len() == i.bounds.len());
    assert(i.slots@.len() == i.slots.len());
    if i.slots@.len() > 0 && i.state_rows <= deltanet::max_slot(i.slots@) {
        let m = deltanet::max_slot(i.slots@);
        let x = choose|x: int| 0 <= x < i.slots@.len() && i.slots@[x] == m;
        assert(!(i.slots@[x] < i.state_rows));
    }
}

/// A step belongs to a token of its sequence, and writes the row of the token.
pub open spec fn is_step_of(i: RecurrenceInput, row: int, step: RecurrenceStep) -> bool {
    &&& 0 <= step.seq < i.slots@.len()
    &&& i.bounds@[step.seq as int] <= step.token
    &&& step.token < i.bounds@[step.seq + 1]
    &&& step.token < i.q_shape@[0]
    &&& i.slots@[step.seq as int] != 0xffff_ffffu32
    &&& step.dst == step.token * row
}

/// Steps go on by sequence, and in a sequence by token.
pub open spec fn steps_go_on(steps: Seq<RecurrenceStep>) -> bool {
    forall|x: int, y: int|
        0 <= x < y < steps.len() ==> (#[trigger] steps[x]).seq < (#[trigger] steps[y]).seq || (
        steps[x].seq == steps[y].seq && steps[x].token < steps[y].token)
}

/// All tokens of the sequences before `n` have their step, up to the last token.
pub open spec fn has_steps(i: RecurrenceInput, steps: Seq<RecurrenceStep>, n: int) -> bool {
    forall|s: int, t: int|
        0 <= s < n && #[trigger] i.bounds@[s] <= t < i.bounds@[s + 1] && t < i.q_shape@[0]
            ==> #[trigger] has_step(steps, s, t)
}

/// The step of a token.
pub open spec fn has_step(steps: Seq<RecurrenceStep>, s: int, t: int) -> bool {
    exists|x: int| 0 <= x < steps.len() && (#[trigger] steps[x]).seq == s && steps[x].token == t
}

/// Why a run stops at sequence `s`.
pub open spec fn stops_at(i: RecurrenceInput, s: int, e: GdnError) -> bool {
    &&& i.bounds@[s] < i.bounds@[s + 1]
    &&& match e {
        GdnError::SlotSentinel { seq } => seq == s && i.slots@[s] == 0xffff_ffffu32,
        GdnError::TokenOutOfRange { seq } => seq == s && i.slots@[s] != 0xffff_ffffu32
            && i.bounds@[s + 1] > i.q_shape@[0],
        _ => false,
    }
}

/// Sequence `s` runs through.
pub open spec fn runs_through(i: RecurrenceInput, s: int) -> bool {
    i.bounds@[s] < i.bounds@[s + 1] ==> i.slots@[s] != 0xffff_ffffu32 && i.bounds@[s + 1]
        <= i.q_shape@[0]
}

spec fn run_is_sound(
    i: RecurrenceInput,
    row: int,
    n: int,
    steps: Seq<RecurrenceStep>,
    stop: Option<GdnError>,
) -> bool {
    &&& forall|x: int|
        0 <= x < steps.len() ==> is_step_of(i, row, #[trigger] steps[x]) && steps[x].seq < n
    &&& steps_go_on(steps)
    &&& match stop {
        None => has_steps(i, steps, n) && forall|s: int|
            0 <= s < n ==> #[trigger] runs_through(i, s),
        Some(e) => exists|s: int|
            0 <= s < n && #[trigger] stops_at(i, s, e) && has_steps(i, steps, s) && (forall|z: int|
                0 <= z < s ==> #[trigger] runs_through(i, z)) && (forall|x: int|
                0 <= x < steps.len() ==> (#[trigger] steps[x]).seq <= s) && (
            e is TokenOutOfRange ==> has_steps(i, steps, s + 1)),
    }
}

proof fn lemma_run(i: RecurrenceInput, row: int, n: int)
    requires
        0 <= n <= i.slots@.len(),
        i.bounds@.len() == i.slots@.len() + 1,
        i.q_shape@.len() == 3,
        0 <= row,
        i.q_shape@[0] * row <= usize::MAX,
    ensures
        run_is_sound(i, row, n, deltanet::run_of(i, row, n).0, deltanet::run_of(i, row, n).1),
    decreases n,
{
    assert(i.slots@.len() == i.slots.len());
    if n > 0 {
        lemma_run(i, row, n - 1);
        let before = deltanet::run_of(i, row, n - 1);
        let all = deltanet::run_of(i, row, n);
        let s = n - 1;
        let (from, to) = (i.bounds@[s] as int, i.bounds@[s + 1] as int);
        let total = i.q_shape@[0] as int;
        if before.1 is Some {
            assert(all == before);
            let e = before.1->Some_0;
            let z = choose|z: int|
                0 <= z < n - 1 && #[trigger] stops_at(i, z, e) && has_steps(i, before.0, z) && (
                forall|y: int| 0 <= y < z ==> #[trigger] runs_through(i, y)) && (forall|x: int|
                    0 <= x < before.0.len() ==> (#[trigger] before.0[x]).seq <= z) && (
                e is TokenOutOfRange ==> has_steps(i, before.0, z + 1));
            assert(stops_at(i, z, e));
        } else {
            let own = deltanet::sequence_steps(i, row, s);
            let steps = before.0 + own;
            assert(all.0 == steps);
            assert forall|x: int| 0 <= x < own.len() implies is_step_of(i, row, #[trigger] own[x])
                && own[x].seq == s && own[x].token == from + x by {
                let t = from + x;
                assert(0 <= t < total);
                assert(0 <= t * row <= total * row) by (nonlinear_arith)
                    requires
                        0 <= t <= total,
                        row >= 0,
                ;
            }
            assert forall|x: int| 0 <= x < steps.len() implies is_step_of(
                i,
                row,
                #[trigger] steps[x],
            ) && steps[x].seq < n by {
                if x < before.0.len() {
                    assert(steps[x] == before.0[x]);
                } else {
                    assert(steps[x] == own[x - before.0.len()]);
                }
            }
            assert forall|x: int, y: int| 0 <= x < y < steps.len() implies (
            #[trigger] steps[x]).seq < (#[trigger] steps[y]).seq || (steps[x].seq == steps[y].seq
                && steps[x].token < steps[y].token) by {
                let l = before.0.len();
                if y < l {
                    assert(steps[x] == before.0[x] && steps[y] == before.0[y]);
                } else if x < l {
                    assert(steps[x] == before.0[x] && steps[y] == own[y - l]);
                } else {
                    assert(steps[x] == own[x - l] && steps[y] == own[y - l]);
                }
            }
            assert(has_steps(i, steps, s)) by {
                assert forall|z: int, t: int|
                    0 <= z < s && #[trigger] i.bounds@[z] <= t < i.bounds@[z + 1] && t < total implies
                    #[trigger] has_step(steps, z, t) by {
                    assert(has_step(before.0, z, t));
                    let x = choose|x: int|
                        0 <= x < before.0.len() && (#[trigger] before.0[x]).seq == z
                            && before.0[x].token == t;
                    assert(steps[x] == before.0[x]);
                }
            }
            let skipped = to > from && i.slots@[s] == 0xffff_ffffu32;
            if !skipped {
                assert forall|t: int| from <= t < to && t < total implies #[trigger] has_step(
                    steps,
                    s,
                    t,
                ) by {
                    let x = before.0.len() + (t - from);
                    assert(steps[x] == own[t - from]);
                }
                assert(has_steps(i, steps, n));
            }
            if all.1 is Some {
                let e = all.1->Some_0;
                assert(stops_at(i, s, e));
                assert(forall|x: int| 0 <= x < steps.len() ==> (#[trigger] steps[x]).seq <= s);
            } else {
                assert(runs_through(i, s));
            }
        }
    }
}

/// A run has a step for each token of its sequences, in order, that writes the row of
/// the token. It stops only at a sequence without a slot or with tokens past the end,
/// with all sequences before it done.
pub proof fn law_runs_go_token_by_token(i: RecurrenceInput, r: Result<RecurrencePlan, GdnError>)
    requires
        call_ensures(deltanet::plan_recurrence, (&i,), r),
        i.q_shape@.len() == 3 && i.v_shape@.len() == 3 ==> i.q_shape@[0] * (i.v_shape@[1]
            * i.v_shape@[2]) <= usize::MAX,
    ensures
        r matches Ok(p) ==> {
            let n = i.slots@.len() as int;
            &&& forall|x: int|
                0 <= x < p.steps@.len() ==> is_step_of(i, p.nv * p.vd, #[trigger] p.steps@[x])
            &&& steps_go_on(p.steps@)
            &&& p.stop is None ==> has_steps(i, p.steps@, n)
            &&& p.stop is None <==> forall|s: int| 0 <= s < n ==> #[trigger] runs_through(i, s)
            &&& p.stop matches Some(e) ==> exists|s: int|
                0 <= s < n && #[trigger] stops_at(i, s, e) && has_steps(i, p.steps@, s) && (forall|
                    z: int,
                |
                    0 <= z < s ==> #[trigger] runs_through(i, z)) && (forall|x: int|
                    0 <= x < p.steps@.len() ==> (#[trigger] p.steps@[x]).seq <= s) && (
                e is TokenOutOfRange ==> has_steps(i, p.steps@, s + 1))
        },
{
    if r is Ok {
        law_recurrences_that_run(i, r);
        let p = r->Ok_0;
        let row = p.nv * p.vd;
        assert(row >= 0) by (nonlinear_arith)
            requires
                row == p.nv * p.vd,
        ;
        let n = i.slots@.len() as int;
        lemma_run(i, row, n);
        assert((p.steps@, p.stop) == deltanet::run_of(i, row, n));
        if p.stop is Some {
            let e = p.stop->Some_0;
            let s = choose|s: int|
                0 <= s < n && #[trigger] stops_at(i, s, e) && has_steps(i, p.steps@, s) && (forall|
                    z: int,
                |
                    0 <= z < s ==> #[trigger] runs_through(i, z)) && (forall|x: int|
                    0 <= x < p.steps@.len() ==> (#[trigger] p.steps@[x]).seq <= s) && (
                e is TokenOutOfRange ==> has_steps(i, p.steps@, s + 1));
            assert(!runs_through(i, s));
        }
    }
}

// ---- Paths of a pass ----

/// A prefill convolves with states of its own, a decode step in place; what is refused
/// is told.
pub proof fn law_convolutions_take_their_path(
    c: GdnCall,
    layer: usize,
    snapshots: Option<usize>,
    r: Result<ConvPath, GdnError>,
)
    requires
        call_ensures(deltanet::plan_conv, (&c, layer, snapshots), r),
    ensures
        r matches Err(GdnError::NoSlots) <==> c.slot_count == 0,
        c.slot_count > 0 && !c.is_prefill ==> (r == Ok::<ConvPath, GdnError>(ConvPath::Decode))
            == (c.token_count == c.slot_count),
        c.slot_count > 0 && !c.is_prefill && c.token_count != c.slot_count ==> r == Err::<
            ConvPath,
            GdnError,
        >(GdnError::DecodeMismatch { tokens: c.token_count, slots: c.slot_count }),
        c.slot_count > 0 && c.is_prefill && !c.is_mtp_verify ==> r == Ok::<ConvPath, GdnError>(
            ConvPath::Prefill { snapshots: None },
        ),
        c.slot_count > 0 && c.is_prefill && c.is_mtp_verify && snapshots is None ==> r == Err::<
            ConvPath,
            GdnError,
        >(GdnError::MissingConvSnapshot { layer }),
        c.slot_count > 0 && c.is_prefill && c.is_mtp_verify ==> (snapshots matches Some(len) ==> {
            &&& c.token_count <= len ==> (r matches Ok(p) && p matches ConvPath::Prefill {
                snapshots: s,
            } && s matches Some(part) && part.start == 0 && part.len == c.token_count)
            &&& c.token_count > len ==> r == Err::<ConvPath, GdnError>(
                GdnError::SnapshotTokens { tokens: c.token_count, len },
            )
        }),
{
}

/// A decode step runs its slots as a batch. A prefill scales its queries where every
/// value head has a key head of its own, and groups them else.
pub proof fn law_recurrences_take_their_path(c: GdnCall, d: GdnDims, r: RecurrencePath)
    requires
        call_ensures(deltanet::plan_recurrence_path, (&c, &d), r),
    ensures
        r is Decode == !c.is_prefill,
        r matches RecurrencePath::Decode { batch } ==> batch == c.slot_count,
        r is PrefillScaled == (c.is_prefill && d.num_k_heads == d.num_v_heads),
        r is PrefillGrouped == (c.is_prefill && d.num_k_heads != d.num_v_heads),
        r matches RecurrencePath::PrefillScaled { snapshots } ==> match snapshots {
            Some(s) => c.is_mtp_verify && s.start == 0 && s.len == c.token_count,
            None => !c.is_mtp_verify,
        },
        r matches RecurrencePath::PrefillGrouped { snapshots } ==> match snapshots {
            Some(s) => c.is_mtp_verify && s.start == 0 && s.len == c.token_count,
            None => !c.is_mtp_verify,
        },
{
}

/// What has the type already is not converted, and what is converted gets the type.
pub proof fn law_conversions_reach_their_type(from: Dtype, to: Dtype, r: Option<Dtype>)
    requires
        call_ensures(deltanet::convert_to, (from, to), r),
    ensures
        r is None == (from == to),
        r matches Some(d) ==> d == to,
{
}

// ---- Rolling back ----

/// Rolling back to a number of kept tokens takes the snapshot of the last of them, and
/// none where none is kept. It fails where there is no such snapshot.
pub proof fn law_rollbacks_take_the_last_kept(
    layer: usize,
    keep: usize,
    offset: usize,
    len: Option<usize>,
    r: Result<Option<usize>, GdnError>,
)
    requires
        call_ensures(deltanet::rollback_conv, (layer, keep, offset, len), r),
    ensures
        r == Ok::<Option<usize>, GdnError>(None) <==> keep == 0,
        r matches Ok(Some(i)) ==> i + 1 == offset + keep && len is Some && i < len->Some_0,
        keep > 0 ==> r is Ok == (len is Some && offset + keep <= len->Some_0),
        keep > 0 && offset + keep > usize::MAX + 1 ==> r == Err::<Option<usize>, GdnError>(
            GdnError::RollbackOverflow { layer },
        ),
        keep > 0 && offset + keep <= usize::MAX + 1 && len is None ==> r == Err::<
            Option<usize>,
            GdnError,
        >(GdnError::MissingConvSnapshot { layer }),
        keep > 0 && offset + keep <= usize::MAX + 1 ==> (len matches Some(l) ==> (offset + keep > l
            ==> (r matches Err(GdnError::SnapshotRange { index, len: n, offset: o, keep: k })
            && index + 1 == offset + keep && n == l && o == offset && k == keep))),
{
}

/// The recurrent state is taken from the same snapshot.
pub proof fn law_recurrent_states_roll_back_alike(
    layer: usize,
    index: usize,
    keep: usize,
    offset: usize,
    len: Option<usize>,
    r: Result<usize, GdnError>,
)
    requires
        call_ensures(deltanet::rollback_recurrent, (layer, index, keep, offset, len), r),
    ensures
        r is Ok == (len is Some && index < len->Some_0),
        r matches Ok(i) ==> i == index,
        len is None ==> r == Err::<usize, GdnError>(GdnError::MissingRecurrentSnapshot { layer }),
        len matches Some(l) ==> (index >= l ==> r == Err::<usize, GdnError>(
            GdnError::SnapshotRange { index, len: l, offset, keep },
        )),
{
}

/// A layer rolls back to the snapshot of the last kept token, and converts the state of
/// the convolution where its type differs. Without an offset the snapshots start at the
/// first token.
pub proof fn law_layers_roll_back(
    net: GatedDeltaNet,
    keep: usize,
    offset: usize,
    state: Dtype,
    r: Result<Option<Rollback>, GdnError>,
    first: Result<Option<Rollback>, GdnError>,
)
    requires
        net.snapshots_agree(),
        call_ensures(GatedDeltaNet::rollback_mtp_verify_at, (&net, keep, offset, state), r),
        call_ensures(GatedDeltaNet::rollback_mtp_verify, (&net, keep, state), first),
    ensures
        offset == 0 ==> first == r,
        r == Ok::<Option<Rollback>, GdnError>(None) <==> keep == 0,
        r matches Ok(Some(b)) ==> {
            &&& b.index + 1 == offset + keep
            &&& b.convert_conv is None == (net.types.gdn_dtype == state)
            &&& b.convert_conv is Some ==> b.convert_conv == Some(state)
        },
        keep > 0 ==> r is Ok == (net.snapshots is Some && offset + keep
            <= net.snapshots->Some_0.0@[0]),
        keep > 0 && net.snapshots is None && offset + keep <= usize::MAX + 1 ==> r == Err::<
            Option<Rollback>,
            GdnError,
        >(GdnError::MissingConvSnapshot { layer: net.gdn_layer_idx }),
{
}

// ---- Loading ----

/// A layer takes the fused projections where both load, and never both layouts: the
/// split ones are tried exactly where a fused one fails, and each failure is kept with
/// its name.
pub proof fn law_fused_projections_come_first(
    l: &mut ProjectionLoader,
    qkvz: Result<(), String>,
    ba: Result<(), String>,
)
    requires
        call_ensures(ProjectionLoader::fused_loaded, (l, qkvz, ba), ()),
    ensures
        final(l).step == ProjectionStep::Done(ProjectionKind::FusedQkvzBa) <==> qkvz is Ok && ba
            is Ok,
        final(l).step is LoadSplit <==> qkvz is Err || ba is Err,
        final(l).world_size == old(l).world_size,
        final(l).is_quantized == old(l).is_quantized,
        final(l).is_qvar_builder == old(l).is_qvar_builder,
        ({
            let was = old(l).failures@.len() as int;
            let now = final(l).failures@;
            &&& forall|x: int|
                0 <= x < was ==> (#[trigger] now[x]).name@ == old(l).failures@[x].name@
                    && now[x].reason@ == old(l).failures@[x].reason@
            &&& now.len() == was + (if qkvz is Err {
                1int
            } else {
                0
            }) + (if ba is Err {
                1int
            } else {
                0
            })
            &&& qkvz matches Err(e) ==> now[was].name@ == "in_proj_qkvz"@ && now[was].reason@ == e@
            &&& ba matches Err(e) ==> now.last().name@ == "in_proj_ba"@ && now.last().reason@ == e@
        }),
{
    let was = deltanet::failure_texts(old(l).failures@);
    let now = deltanet::failure_texts(final(l).failures@);
    assert(now.len() == final(l).failures@.len() && was.len() == old(l).failures@.len());
    assert forall|x: int| 0 <= x < now.len() implies (#[trigger] final(l).failures@[x]).name@
        == now[x].0 && final(l).failures@[x].reason@ == now[x].1 by {}
    assert forall|x: int| 0 <= x < was.len() implies now[x] == #[trigger] was[x] by {}
    assert forall|x: int| 0 <= x < was.len() implies (#[trigger] final(l).failures@[x]).name@
        == old(l).failures@[x].name@ && final(l).failures@[x].reason@
        == old(l).failures@[x].reason@ by {
        assert(now[x] == was[x]);
    }
}

/// The split projections go on with merged chunks where there is more than one rank,
/// and with the one matrix where there is a single rank; with one missing they fail.
pub proof fn law_split_projections_go_on(
    l: &mut ProjectionLoader,
    z: Result<(), String>,
    b: Result<(), String>,
    a: Result<(), String>,
)
    requires
        call_ensures(ProjectionLoader::split_loaded, (l, z, b, a), ()),
    ensures
        final(l).step is Fail <==> z is Err || b is Err || a is Err,
        z is Ok && b is Ok && a is Ok ==> final(l).step == if old(l).world_size >= 2 {
            ProjectionStep::LoadMergedQkv
        } else {
            ProjectionStep::LoadLegacyQkv
        },
        z is Ok && b is Ok && a is Ok ==> final(l).failures@.len() == old(l).failures@.len(),
        z is Err && b is Err && a is Err ==> final(l).failures@.len() == old(l).failures@.len() + 3,
        final(l).world_size == old(l).world_size,
        final(l).is_quantized == old(l).is_quantized,
        final(l).is_qvar_builder == old(l).is_qvar_builder,
{
    assert(deltanet::failure_texts(final(l).failures@).len() == final(l).failures@.len());
    assert(deltanet::failure_texts(old(l).failures@).len() == old(l).failures@.len());
}

/// Merged chunks end the loading where they load. Else quantized tensors of other files
/// than single ones fail, and all others are loaded as one matrix.
pub proof fn law_merged_projections_end_the_loading(l: &mut ProjectionLoader, ok: bool)
    requires
        call_ensures(ProjectionLoader::merged_loaded, (l, ok), ()),
    ensures
        ok <==> final(l).step == ProjectionStep::Done(ProjectionKind::SplitQkvZaMerged),
        !ok ==> final(l).step is FailMerged == (old(l).is_quantized && !old(l).is_qvar_builder),
        !ok ==> final(l).step is LoadLegacyQkv == !(old(l).is_quantized
            && !old(l).is_qvar_builder),
        final(l).failures@ == old(l).failures@,
{
}

/// One matrix ends the loading, or its failure is the last one.
pub proof fn law_single_matrices_end_the_loading(
    l: &mut ProjectionLoader,
    qkv: Result<(), String>,
)
    requires
        call_ensures(ProjectionLoader::legacy_loaded, (l, qkv), ()),
    ensures
        qkv is Ok <==> final(l).step == ProjectionStep::Done(ProjectionKind::SplitQkvZaLegacy),
        qkv is Err <==> final(l).step is Fail,
        qkv is Ok ==> final(l).failures@.len() == old(l).failures@.len(),
        qkv matches Err(e) ==> {
            &&& final(l).failures@.len() == old(l).failures@.len() + 1
            &&& final(l).failures@.last().name@ == "in_proj_qkv"@
            &&& final(l).failures@.last().reason@ == e@
        },
{
    let was = deltanet::failure_texts(old(l).failures@);
    let now = deltanet::failure_texts(final(l).failures@);
    assert(now.len() == final(l).failures@.len() && was.len() == old(l).failures@.len());
    if qkv is Err {
        let x = now.len() - 1;
        assert(now[x] == ("in_proj_qkv"@, qkv->Err_0@));
        assert(final(l).failures@[x].name@ == now[x].0);
    }
}

/// A new loader starts with the fused projections and without failures.
pub proof fn law_loaders_start_fused(
    world_size: usize,
    quantized: bool,
    qvar: bool,
    r: ProjectionLoader,
)
    requires
        call_ensures(ProjectionLoader::new, (world_size, quantized, qvar), r),
    ensures
        r.step is LoadFused,
        r.failures@.len() == 0,
        r.world_size == world_size && r.is_quantized == quantized && r.is_qvar_builder == qvar,
{
}

/// Failures are told in order, each with its name, and one more failure is told behind
/// the others.
pub proof fn law_failures_are_told_in_order(
    before: ProjectionLoader,
    after: ProjectionLoader,
    b: String,
    a: String,
)
    requires
        call_ensures(ProjectionLoader::failure_text, (&before,), b),
        call_ensures(ProjectionLoader::failure_text, (&after,), a),
        after.failures@.len() == before.failures@.len() + 1,
        forall|x: int|
            0 <= x < before.failures@.len() ==> (#[trigger] after.failures@[x]).name@
                == before.failures@[x].name@ && after.failures@[x].reason@
                == before.failures@[x].reason@,
    ensures
        before.failures@.len() == 0 ==> b@.len() == 0,
        ({
            let f = after.failures@.last();
            let one = f.name@ + ": "@ + f.reason@;
            a@ == if before.failures@.len() == 0 {
                one
            } else {
                b@ + "; "@ + one
            }
        }),
{
    let bt = deltanet::failure_texts(before.failures@);
    let at = deltanet::failure_texts(after.failures@);
    assert(at.drop_last() =~= bt) by {
        assert forall|x: int| 0 <= x < bt.len() implies at.drop_last()[x] == bt[x] by {
            let _ = after.failures@[x];
        }
    }
}

/// Cutting one matrix is closed for asymmetric compressed tensors alone.
pub proof fn law_cuts_are_closed(method: Option<&str>, sym: Option<bool>, r: bool)
    requires
        call_ensures(deltanet::merged_qkv_is_closed, (method, sym), r),
    ensures
        method is None ==> !r,
        sym != Some(false) ==> !r,
        method matches Some(m) ==> (sym == Some(false) ==> r == (m@ == "compressed-tensors"@)),
{
}

/// Three chunks make a merged projection.
pub proof fn law_three_chunks_are_merged(got: usize, r: Result<(), GdnError>)
    requires
        call_ensures(deltanet::check_merged_chunks, (got,), r),
    ensures
        r is Ok == (got == 3),
        r matches Err(e) ==> e == (GdnError::MergedChunks { got }),
{
}

/// The lengths of projections add up: the fused ones are the split ones joined.
pub proof fn law_projection_lengths_add_up(d: GdnDims, r: ProjectionSizes)
    requires
        d.wf(),
        call_ensures(GdnDims::projection_sizes, (&d,), r),
    ensures
        r.qkv == d.conv_dim_global,
        r.qkvz == r.qkv + r.z,
        r.z == d.num_v_heads_global * d.head_v_dim,
        r.ba == r.b + r.a,
        r.b == d.num_v_heads_global && r.a == d.num_v_heads_global,
{
}

/// Single files keep all in single precision. Else the model keeps its type, and so
/// does the layer but in half precision mode.
pub proof fn law_types_of_a_layer(qvar: bool, half_mode: bool, dtype: Dtype, r: GdnTypes)
    requires
        call_ensures(deltanet::gdn_types, (qvar, half_mode, dtype), r),
    ensures
        qvar ==> r.gdn_dtype is F32 && r.model_dtype is F32,
        !qvar ==> r.model_dtype == dtype,
        !qvar && !half_mode ==> r.gdn_dtype == dtype,
        half_mode ==> r.gdn_dtype is F32,
{
}

/// The weight of the convolution is read with all channels, and where it is refused as
/// it is it is read once more with its dimensions exchanged.
pub proof fn law_conv_weights_are_read(
    d: GdnDims,
    qvar: bool,
    r: ConvWeight,
    again: Option<ConvWeight>,
    last: Option<ConvWeight>,
)
    requires
        call_ensures(GdnDims::conv_weight, (&d, qvar), r),
        call_ensures(GdnDims::conv_weight_retry, (&d, r), again),
        again matches Some(w) ==> call_ensures(GdnDims::conv_weight_retry, (&d, w), last),
    ensures
        match r {
            ConvWeight::Unsqueezed { channels, kernel } => qvar && again is None && channels
                == d.conv_dim_global && kernel == d.conv_kernel_size,
            ConvWeight::Direct { channels, kernel } => !qvar && channels == d.conv_dim_global
                && kernel == d.conv_kernel_size && again == Some(
                ConvWeight::Permuted { channels, kernel },
            ) && last is None,
            ConvWeight::Permuted { .. } => false,
        },
{
}

/// Snapshots have room for the tokens of a verification and for 16 at least: all
/// channels of the convolution with the tokens before a step, and the states of all
/// value heads.
pub proof fn law_snapshots_have_room(d: GdnDims, max: usize, r: (Vec<usize>, Vec<usize>))
    requires
        d.conv_kernel_size > 0,
        call_ensures(GdnDims::snapshot_shapes, (&d, max), r),
    ensures
        r.0@.len() == 3 && r.1@.len() == 4,
        r.0@[0] == r.1@[0],
        r.0@[0] >= 16 && r.0@[0] >= max,
        r.0@[0] == 16 || r.0@[0] == max,
        r.0@[1] == d.d_conv && r.0@[2] + 1 == d.conv_kernel_size,
        r.1@[1] == d.num_v_heads && r.1@[2] == d.head_k_dim && r.1@[3] == d.head_v_dim,
{
}

/// A gate named in lower case is a sigmoid exactly where it is named so, the case of
/// its letters does not matter, and an unnamed one is none.
pub proof fn law_gates_are_named_in_any_case(
    a: Option<&str>,
    b: Option<&str>,
    r: bool,
    q: bool,
)
    requires
        call_ensures(deltanet::gate_is_sigmoid, (a,), r),
        call_ensures(deltanet::gate_is_sigmoid, (b,), q),
    ensures
        a is None ==> !r,
        a matches Some(s) ==> {
            &&& s@ == "sigmoid"@ ==> r
            &&& (forall|x: int| 0 <= x < s@.len() ==> !('A' <= #[trigger] s@[x] <= 'Z')) ==> r == (
            s@ == "sigmoid"@)
        },
        a is Some && b is Some && a->Some_0@.len() == b->Some_0@.len() && (forall|x: int|
            0 <= x < a->Some_0@.len() ==> #[trigger] a->Some_0@[x] == b->Some_0@[x] || (
            'A' <= a->Some_0@[x] <= 'Z' && b->Some_0@[x] as u32 == a->Some_0@[x] as u32 + 32))
            ==> r == q,
{
    reveal_strlit("sigmoid");
    if a is Some {
        let s = a->Some_0@;
        let t = "sigmoid"@;
        assert(forall|x: int| 0 <= x < t.len() ==> !('A' <= #[trigger] t[x] <= 'Z'));
        if forall|x: int| 0 <= x < s.len() ==> !('A' <= #[trigger] s[x] <= 'Z') {
            if r {
                assert forall|x: int| 0 <= x < s.len() implies s[x] == t[x] by {
                    assert(text::ascii_lower(s[x]) == text::ascii_lower(t[x]));
                }
                assert(s =~= t);
            }
        }
        if b is Some {
            let u = b->Some_0@;
            if s.len() == u.len() && (forall|x: int|
                0 <= x < s.len() ==> #[trigger] s[x] == u[x] || ('A' <= s[x] <= 'Z' && u[x] as u32
                    == s[x] as u32 + 32)) {
                assert forall|x: int| 0 <= x < s.len() implies text::ascii_lower(#[trigger] s[x])
                    == text::ascii_lower(u[x]) by {}
                if r {
                    assert forall|x: int| 0 <= x < u.len() implies text::ascii_lower(#[trigger] u[x])
                        == text::ascii_lower(t[x]) by {
                        assert(text::ascii_lower(s[x]) == text::ascii_lower(t[x]));
                    }
                }
                if q {
                    assert forall|x: int| 0 <= x < s.len() implies text::ascii_lower(#[trigger] s[x])
                        == text::ascii_lower(t[x]) by {
                        assert(text::ascii_lower(u[x]) == text::ascii_lower(t[x]));
                    }
                }
            }
        }
    }
}

/// Parameters have a name of their own in single files.
pub proof fn law_parameters_have_their_names(r: KeyMap<'static>, qvar: bool)
    requires
        call_ensures(deltanet::gdn_key_map, (qvar,), r),
    ensures
        r.pairs@.len() == 7,
        ({
            let n = |i: int| r.pairs@[i].0@;
            &&& n(0) == "A_log"@ && n(1) == "dt_bias"@ && n(2) == "conv1d.weight"@
            &&& n(3) == "conv1d.bias"@ && n(4) == "out_proj"@ && n(5) == "norm.weight"@
            &&& n(6) == "norm.bias"@
        }),
        !qvar ==> forall|i: int| 0 <= i < 7 ==> (#[trigger] r.pairs@[i]).1@ == r.pairs@[i].0@,
        qvar ==> {
            let n = |i: int| r.pairs@[i].1@;
            &&& n(0) == "ssm_a"@ && n(1) == "ssm_dt.bias"@ && n(2) == "ssm_conv1d.weight"@
            &&& n(3) == "ssm_conv1d.bias"@ && n(4) == "ssm_out"@ && n(5) == "ssm_norm.weight"@
            &&& n(6) == "ssm_norm.bias"@
        },
{
}

/// Split projections have a name of their own in single files.
pub proof fn law_projections_have_their_names(r: KeyMap<'static>, qvar: bool)
    requires
        call_ensures(deltanet::projection_key_map, (qvar,), r),
    ensures
        r.pairs@.len() == 4,
        ({
            let n = |i: int| r.pairs@[i].0@;
            &&& n(0) == "in_proj_qkv"@ && n(1) == "in_proj_z"@
            &&& n(2) == "in_proj_b"@ && n(3) == "in_proj_a"@
        }),
        !qvar ==> forall|i: int| 0 <= i < 4 ==> (#[trigger] r.pairs@[i]).1@ == r.pairs@[i].0@,
        qvar ==> {
            let n = |i: int| r.pairs@[i].1@;
            &&& n(0) == "attn_qkv"@ && n(1) == "attn_gate"@
            &&& n(2) == "ssm_beta"@ && n(3) == "ssm_alpha"@
        },
{
}

// ---- Quantization of a weight ----

proof fn lemma_methods_differ()
    ensures
        "fp8"@ != "mxfp4"@ && "fp8"@ != "nvfp4"@ && "fp8"@ != "gptq"@ && "fp8"@ != "awq"@,
        "mxfp4"@ != "nvfp4"@ && "mxfp4"@ != "gptq"@ && "mxfp4"@ != "awq"@,
        "nvfp4"@ != "gptq"@ && "nvfp4"@ != "awq"@ && "gptq"@ != "awq"@,
        "compressed-tensors"@ != "fp8"@ && "compressed-tensors"@ != "mxfp4"@,
        "compressed-tensors"@ != "nvfp4"@ && "compressed-tensors"@ != "gptq"@,
        "compressed-tensors"@ != "awq"@,
{
    reveal_strlit("fp8");
    reveal_strlit("mxfp4");
    reveal_strlit("nvfp4");
    reveal_strlit("gptq");
    reveal_strlit("awq");
    reveal_strlit("compressed-tensors");
    assert("compressed-tensors"@.len() == 18 && "gptq"@.len() == 4 && "nvfp4"@.len() == 5);
    assert("fp8"@[0] != "awq"@[0]);
    assert("mxfp4"@[0] != "nvfp4"@[0]);
}

/// Weights of single files are not quantized tensors of a checkpoint. Else a weight is
/// quantized where the tensors of its method are there, and always with a method that
/// names none.
pub proof fn law_quantized_weights_have_their_tensors(
    vb: VarBuilderX,
    method: &str,
    r: bool,
    fp8: bool,
)
    requires
        call_ensures(deltanet::is_weight_quantized, (&vb, method), r),
        call_ensures(deltanet::is_weight_fp8, (&vb,), fp8),
    ensures
        vb.is_gguf ==> !r && !fp8,
        !vb.is_gguf ==> {
            let m = method@;
            let packed = vb.lists("weight_packed"@) || vb.lists("blocks"@);
            let second = vb.lists("weight_scale_2"@) || vb.lists("weight_global_scale"@);
            &&& fp8 == (vb.lists("weight_scale"@) || vb.lists("weight_scale_inv"@))
            &&& m == "fp8"@ ==> r == fp8
            &&& m == "mxfp4"@ ==> r == packed
            &&& m == "gptq"@ || m == "awq"@ ==> r == (vb.lists("qweight"@) || vb.lists("B"@))
            &&& m == "compressed-tensors"@ ==> r == (vb.lists("weight_packed"@) && vb.lists(
                "weight_scale"@,
            ))
            &&& m == "nvfp4"@ && (packed || second) ==> r == (vb.lists("weight_scale"@)
                || vb.lists("scales"@))
            &&& m == "nvfp4"@ && !packed && !second ==> r == (vb.lists("weight"@) && vb.lists(
                "scales"@,
            ))
            &&& m != "fp8"@ && m != "mxfp4"@ && m != "nvfp4"@ && m != "gptq"@ && m != "awq"@ && m
                != "compressed-tensors"@ ==> r
        },
{
    lemma_methods_differ();
}

/// A weight is read as the checkpoint says exactly where it is quantized so. The scales
/// of another quantization are taken for it with one method alone.
pub proof fn law_weights_are_read_as_configured(
    vb: VarBuilderX,
    method: Option<&str>,
    r: WeightQuant,
    quantized: bool,
    fp8: bool,
)
    requires
        call_ensures(deltanet::resolve_quant_for_weight, (&vb, method), r),
        method matches Some(m) ==> call_ensures(
            deltanet::is_weight_quantized,
            (&vb, m),
            quantized,
        ),
        call_ensures(deltanet::is_weight_fp8, (&vb,), fp8),
    ensures
        r is AsConfigured <==> method is Some && quantized,
        r is Fp8 <==> method is Some && !quantized && fp8 && method->Some_0@ == "nvfp4"@,
        r is Plain <==> method is None || (!quantized && !(fp8 && method->Some_0@ == "nvfp4"@)),
{
}

// ---- Launches ----

/// Numbers that fit 32 bits reach a launch as they are, each in its place.
pub proof fn law_launches_get_their_sizes(
    q: &[usize],
    v: &[usize],
    heads: usize,
    weight_len: usize,
    bias: bool,
    sigmoid: bool,
    d: DecodeLaunch,
    n: GatedNormLaunch,
)
    requires
        q@.len() >= 3,
        v@.len() >= 3,
        forall|x: int| 0 <= x < q@.len() ==> #[trigger] q@[x] <= i32::MAX,
        forall|x: int| 0 <= x < v@.len() ==> #[trigger] v@[x] <= i32::MAX,
        heads <= i32::MAX,
        call_ensures(deltanet::decode_launch, (q, v), d),
        call_ensures(deltanet::gated_norm_launch, (v, weight_len, heads, bias, sigmoid), n),
    ensures
        d.batch == q@[0] && d.nk == q@[1] && d.kd == q@[2] && d.nv == v@[1] && d.vd == v@[2],
        n.rows == v@[0] && n.value_dim == v@[1] && n.head_v_dim == heads,
        n.per_group == (weight_len == heads),
        n.has_bias == bias,
        sigmoid ==> n.act == 1,
        !sigmoid ==> n.act == 0,
{
    assert(q@[0] <= i32::MAX && q@[1] <= i32::MAX && q@[2] <= i32::MAX);
    assert(v@[0] <= i32::MAX && v@[1] <= i32::MAX && v@[2] <= i32::MAX);
}

/// Rows of the last dimension make up the elements.
pub proof fn law_rows_make_up_elements(
    dims: &[usize],
    r: (usize, usize),
    g: (i32, i32),
    heads: usize,
)
    requires
        dims@.len() > 0,
        call_ensures(deltanet::last_dim_rows, (dims,), r),
        call_ensures(deltanet::gating_launch, (dims, heads), g),
        shape::elem_count(dims@) <= i32::MAX,
        heads <= i32::MAX,
    ensures
        r.1 == dims@[dims@.len() - 1],
        r.0 * r.1 == g.0,
        g.1 == heads,
{
}

/// A convolution of packed sequences is launched exactly in single precision, without
/// snapshots, on rows of channels that the bounds cover, with a state for each.
pub proof fn law_convolutions_are_launched(
    snapshots: bool,
    dtype: Dtype,
    dims: &[usize],
    bounds: &[u32],
    rows: usize,
    r: Result<ConvLaunch, GdnError>,
)
    requires
        call_ensures(deltanet::check_conv1d_fwd, (snapshots, dtype, dims, bounds, rows), r),
        rows <= i32::MAX,
    ensures
        r is Ok == (!snapshots && dtype is F32 && dims@.len() == 2 && rows > 0 && bounds@.len()
            == rows + 1 && bounds@[rows as int] == dims@[0]),
        r matches Ok(l) ==> l.batch == rows && (dims@[1] <= i32::MAX ==> l.channels == dims@[1]),
        r matches Err(e) ==> match e {
            GdnError::ConvSnapshotsClosed => snapshots,
            GdnError::NotF32 { dtype: d } => !snapshots && d == dtype && !(dtype is F32),
            GdnError::ConvRank { rank } => !snapshots && dtype is F32 && rank == dims@.len()
                && rank != 2,
            GdnError::BoundsMismatch { bounds: b, rows: n } => b == bounds@.len() && n == rows && (b
                != n + 1 || n == 0),
            GdnError::BoundsTotal { last, total } => last == bounds@.last() && total == dims@[0]
                && last != total,
            _ => false,
        },
{
    assert(dims@.len() == dims.len());
    assert(bounds@.len() == bounds.len());
}

/// One step of a convolution is launched in single precision alone.
pub proof fn law_convolution_steps_are_launched(
    dtype: Dtype,
    dims: &[usize],
    r: Result<ConvLaunch, GdnError>,
)
    requires
        dims@.len() >= 2,
        dims@[0] <= i32::MAX && dims@[1] <= i32::MAX,
        call_ensures(deltanet::check_conv1d_update, (dtype, dims), r),
    ensures
        r is Ok == (dtype is F32),
        r matches Ok(l) ==> l.batch == dims@[0] && l.channels == dims@[1],
        r matches Err(e) ==> e == (GdnError::NotF32 { dtype }),
{
}

// ---- A layer as a whole ----

/// A layer asks for its parameters by their names: the strengths of all value heads and
/// the channels of all ranks, of which it takes its part.
pub proof fn law_layers_ask_for_their_parameters(
    vb: VarBuilderX,
    comm: Comm,
    config: Config,
    index: usize,
    dtype: Dtype,
    net: GatedDeltaNet,
    names: KeyMap<'static>,
    i: int,
)
    requires
        deltanet::fits_linear(config, comm),
        call_ensures(
            GatedDeltaNet::new,
            (&vb, &comm, &config, index, dtype),
            Ok::<GatedDeltaNet, GdnError>(net),
        ),
        call_ensures(deltanet::gdn_key_map, (vb.is_gguf,), names),
    ensures
        ({
            let h = config.hybrid;
            let path = |i: int| text::dotted(vb.path@, names.pairs@[i].1@);
            &&& net.gdn_layer_idx == index
            &&& net.a_log.name@ == path(0) && net.dt_bias.name@ == path(1)
            &&& net.conv_weight_name@ == path(2) && net.conv_bias.name@ == path(3)
            &&& net.out_proj.path@ == path(4)
            &&& net.norm_weight.name@ == path(5) && net.norm_bias.name@ == path(6)
            &&& net.a_log.shape@ == seq![h.num_v_heads] && net.dt_bias.shape@
                == seq![h.num_v_heads]
            &&& net.norm_weight.shape@ == seq![h.value_head_dim] && net.norm_bias.shape@
                == seq![h.value_head_dim]
            &&& !net.a_log.optional && !net.dt_bias.optional && !net.norm_weight.optional
            &&& net.conv_bias.optional && net.norm_bias.optional
            &&& net.a_log.shard == net.dt_bias.shard
            &&& net.a_log.shard.dim == 0 && net.a_log.shard.rank == comm.rank
                && net.a_log.shard.world_size == comm.world_size
            &&& net.out_proj.shard.dim == 1 && net.out_proj.shard.rank == comm.rank
                && net.out_proj.shard.world_size == comm.world_size
            &&& net.out_proj.in_dim == h.num_v_heads * h.value_head_dim
            &&& net.out_proj.out_dim == config.hidden_size
            &&& net.norm_eps == config.rms_norm_eps
            &&& net.snapshots is Some == config.mtp_enabled
        }),
{
    let h = config.hybrid;
    assert(h.num_v_heads * h.value_head_dim >= 0 && h.num_k_heads * h.key_head_dim >= 0)
        by (nonlinear_arith);
    let _ = names.pairs@[0];
    let _ = names.pairs@[1];
    let _ = names.pairs@[2];
    let _ = names.pairs@[3];
    let _ = names.pairs@[4];
    let _ = names.pairs@[5];
    let _ = names.pairs@[6];
}

/// The projections of a layer read the hidden state, and their lengths agree: the fused
/// one has the columns of the split ones, and the chunks make up one matrix.
pub proof fn law_projections_of_a_layer_agree(
    vb: VarBuilderX,
    comm: Comm,
    config: Config,
    index: usize,
    dtype: Dtype,
    net: GatedDeltaNet,
    names: KeyMap<'static>,
)
    requires
        deltanet::fits_linear(config, comm),
        call_ensures(
            GatedDeltaNet::new,
            (&vb, &comm, &config, index, dtype),
            Ok::<GatedDeltaNet, GdnError>(net),
        ),
        call_ensures(deltanet::projection_key_map, (vb.is_gguf,), names),
    ensures
        ({
            let p = net.projections;
            let path = |i: int| text::dotted(vb.path@, names.pairs@[i].1@);
            let h = config.hidden_size;
            &&& p.qkvz.in_dim == h && p.ba.in_dim == h && p.qkv.in_dim == h
            &&& p.z.in_dim == h && p.b.in_dim == h && p.a.in_dim == h
            &&& p.qkvz.path@ == text::dotted(vb.path@, "in_proj_qkvz"@)
            &&& p.ba.path@ == text::dotted(vb.path@, "in_proj_ba"@)
            &&& p.qkv.path@ == path(0) && p.z.path@ == path(1)
            &&& p.b.path@ == path(2) && p.a.path@ == path(3)
            &&& p.qkvz.out_dim == p.qkv.out_dim + p.z.out_dim
            &&& p.ba.out_dim == p.b.out_dim + p.a.out_dim
            &&& p.b.out_dim == config.hybrid.num_v_heads && p.a.out_dim == p.b.out_dim
            &&& p.z.out_dim == net.out_proj.in_dim
            &&& p.chunks@.len() == 3 && p.chunks@[0] == p.chunks@[1]
            &&& p.chunks@[0] + p.chunks@[1] + p.chunks@[2] == p.qkv.out_dim
            &&& p.chunks@[2] == p.z.out_dim
            &&& p.qkvz.shard == p.qkv.shard && p.ba.shard == p.z.shard && p.b.shard == p.a.shard
            &&& p.qkvz.shard == p.ba.shard && p.ba.shard == p.b.shard
            &&& p.qkvz.shard.dim == 0 && p.qkvz.shard.rank == comm.rank && p.qkvz.shard.world_size
                == comm.world_size
            &&& p.chunks_closed ==> p.qkv.quant is AsConfigured && config.sym == Some(false)
        }),
{
    let h = config.hybrid;
    assert(h.num_v_heads * h.value_head_dim >= 0 && h.num_k_heads * h.key_head_dim >= 0)
        by (nonlinear_arith);
    let _ = names.pairs@[0];
    let _ = names.pairs@[1];
    let _ = names.pairs@[2];
    let _ = names.pairs@[3];
}

/// A layer is loaded exactly where its sizes resolve, with these sizes, and fails as they
/// do.
pub proof fn law_layers_load_where_sizes_resolve(
    vb: VarBuilderX,
    comm: Comm,
    config: Config,
    index: usize,
    dtype: Dtype,
    r: Result<GatedDeltaNet, GdnError>,
    d: Result<GdnDims, GdnError>,
)
    requires
        call_ensures(GatedDeltaNet::new, (&vb, &comm, &config, index, dtype), r),
        call_ensures(GdnDims::resolve, (&config.hybrid, &comm), d),
    ensures
        r is Ok == d is Ok,
        r matches Ok(net) ==> net.dims == d->Ok_0,
        r matches Err(e) ==> d == Err::<GdnDims, GdnError>(e),
{
}

/// A configuration gives the quantization and the output activation that it names.
pub proof fn law_configurations_give_names(c: Config, m: Option<&str>, g: Option<&str>)
    requires
        call_ensures(Config::quantization, (&c,), m),
        call_ensures(Config::output_gate, (&c,), g),
    ensures
        m is Some == c.quant_method is Some,
        m matches Some(s) ==> s@ == c.quant_method->Some_0@,
        g is Some == c.output_gate_type is Some,
        g matches Some(s) ==> s@ == c.output_gate_type->Some_0@,
{
}

/// Each projection of a layer is read in the quantization of its own weight.
pub proof fn law_projections_are_read_as_quantized(
    vb: VarBuilderX,
    comm: Comm,
    config: Config,
    index: usize,
    dtype: Dtype,
    net: GatedDeltaNet,
    method: Option<&str>,
    name: &str,
    at: VarBuilderX,
    quant: WeightQuant,
)
    requires
        deltanet::fits_linear(config, comm),
        call_ensures(
            GatedDeltaNet::new,
            (&vb, &comm, &config, index, dtype),
            Ok::<GatedDeltaNet, GdnError>(net),
        ),
        text::given(method) == config.method(),
        call_ensures(VarBuilderX::pp, (&vb, name), at),
        call_ensures(deltanet::resolve_quant_for_weight, (&at, method), quant),
        at.path@.len() > 0,
    ensures
        net.out_proj.path@ == at.path@ ==> net.out_proj.quant == quant,
        net.projections.qkvz.path@ == at.path@ ==> net.projections.qkvz.quant == quant,
        net.projections.ba.path@ == at.path@ ==> net.projections.ba.quant == quant,
        net.projections.qkv.path@ == at.path@ ==> net.projections.qkv.quant == quant,
        net.projections.z.path@ == at.path@ ==> net.projections.z.quant == quant,
        net.projections.b.path@ == at.path@ ==> net.projections.b.quant == quant,
        net.projections.a.path@ == at.path@ ==> net.projections.a.quant == quant,
{
    let v = vb@;
    let m = config.method();
    lemma_quant_below(vb, "in_proj_qkvz"@, at, m, method, quant);
    lemma_quant_below(vb, "in_proj_ba"@, at, m, method, quant);
    lemma_quant_below(vb, deltanet::split_name(v, 0), at, m, method, quant);
    lemma_quant_below(vb, deltanet::split_name(v, 1), at, m, method, quant);
    lemma_quant_below(vb, deltanet::split_name(v, 2), at, m, method, quant);
    lemma_quant_below(vb, deltanet::split_name(v, 3), at, m, method, quant);
    lemma_quant_below(vb, deltanet::gdn_names()[4].0@, at, m, method, quant);
    lemma_quant_below(vb, deltanet::gdn_names()[4].1@, at, m, method, quant);
}

proof fn lemma_quant_below(
    vb: VarBuilderX,
    name: Seq<char>,
    at: VarBuilderX,
    m: Option<Seq<char>>,
    method: Option<&str>,
    quant: WeightQuant,
)
    requires
        text::given(method) == m,
        at.is_gguf == vb.is_gguf,
        at.gguf == vb.gguf,
        call_ensures(deltanet::resolve_quant_for_weight, (&at, method), quant),
        at.path@.len() > 0,
    ensures
        vb.name_of(name) == at.path@ ==> deltanet::quant_below(vb@, name, m) == quant,
{
    if vb.name_of(name) == at.path@ {
        let below = |key: &str| deltanet::lists_below(vb@, name, key);
        let own = |key: &str| at.lists(key@);
        assert forall|key: &str| #[trigger] below(key) == own(key) by {}
        assert(below =~= own);
    }
}

/// The snapshots of a layer have the shapes of its sizes.
pub proof fn law_layers_keep_snapshots_of_their_size(
    vb: VarBuilderX,
    comm: Comm,
    config: Config,
    index: usize,
    dtype: Dtype,
    net: GatedDeltaNet,
    shapes: (Vec<usize>, Vec<usize>),
    w: ConvWeight,
    t: GdnTypes,
)
    requires
        deltanet::fits_linear(config, comm),
        call_ensures(
            GatedDeltaNet::new,
            (&vb, &comm, &config, index, dtype),
            Ok::<GatedDeltaNet, GdnError>(net),
        ),
        call_ensures(
            GdnDims::snapshot_shapes,
            (&net.dims, config.mtp_max_verify_tokens),
            shapes,
        ),
        call_ensures(GdnDims::conv_weight, (&net.dims, vb.is_gguf), w),
        call_ensures(deltanet::gdn_types, (vb.is_gguf, config.is_f16_mode, dtype), t),
    ensures
        net.snapshots matches Some((conv, rec)) ==> conv@ == shapes.0@ && rec@ == shapes.1@,
        net.conv_weight == w,
        net.types == t,
        net.cut_params == vb.is_gguf,
        net.conv_bias.shape@ == seq![net.dims.conv_dim_global],
        net.conv_bias.shard == net.norm_weight.shard && net.norm_weight.shard
            == net.norm_bias.shard,
        net.norm_weight.shard.world_size == 0 && net.norm_weight.shard.rank == 0
            && net.norm_weight.shard.dim == 0,
        net.loader.world_size == comm.world_size,
        net.loader.is_quantized == config.quant_method is Some,
        net.loader.is_qvar_builder == vb.is_gguf,
        net.loader.step is LoadFused && net.loader.failures@.len() == 0,
{
}

/// A layer gates its output with a sigmoid where it is named so, and has closed chunks only
/// where cutting is closed for its method.
pub proof fn law_gates_of_layers(
    vb: VarBuilderX,
    comm: Comm,
    config: Config,
    index: usize,
    dtype: Dtype,
    net: GatedDeltaNet,
    named: Option<&str>,
    r: bool,
    closed: bool,
    method: Option<&str>,
)
    requires
        deltanet::fits_linear(config, comm),
        call_ensures(
            GatedDeltaNet::new,
            (&vb, &comm, &config, index, dtype),
            Ok::<GatedDeltaNet, GdnError>(net),
        ),
        call_ensures(Config::output_gate, (&config,), named),
        call_ensures(deltanet::gate_is_sigmoid, (named,), r),
        call_ensures(Config::quantization, (&config,), method),
        call_ensures(deltanet::merged_qkv_is_closed, (method, config.sym), closed),
    ensures
        net.gate_sigmoid == r,
        net.projections.chunks_closed == (closed && net.projections.qkv.quant is AsConfigured),
{
}

/// The layers of two neighbouring ranks take neighbouring channels of the convolution.
pub proof fn law_neighbouring_layers_take_neighbouring_channels(
    vb: VarBuilderX,
    rank: usize,
    ranks: usize,
    config: Config,
    index: usize,
    dtype: Dtype,
    a: GatedDeltaNet,
    b: GatedDeltaNet,
)
    requires
        rank + 1 < ranks,
        deltanet::fits_linear(config, Comm { world_size: ranks, rank }),
        call_ensures(
            GatedDeltaNet::new,
            (&vb, &(Comm { world_size: ranks, rank }), &config, index, dtype),
            Ok::<GatedDeltaNet, GdnError>(a),
        ),
        call_ensures(
            GatedDeltaNet::new,
            (
                &vb,
                &(Comm { world_size: ranks, rank: (rank + 1) as usize }),
                &config,
                index,
                dtype,
            ),
            Ok::<GatedDeltaNet, GdnError>(b),
        ),
    ensures
        a.dims == b.dims,
        b.conv_slices.q.start == a.conv_slices.q.start + a.conv_slices.q.len,
        b.conv_slices.k.start == a.conv_slices.k.start + a.conv_slices.k.len,
        b.conv_slices.v.start == a.conv_slices.v.start + a.conv_slices.v.len,
        a.conv_slices.q.len + a.conv_slices.k.len + a.conv_slices.v.len == a.dims.d_conv,
        rank == 0 ==> a.conv_slices.q.start == 0 && a.conv_slices.k.start
            == config.hybrid.num_k_heads * config.hybrid.key_head_dim && a.conv_slices.v.start
            == a.conv_slices.k.start + a.conv_slices.k.start,
{
    let h = config.hybrid;
    assert(h.num_v_heads * h.value_head_dim >= 0 && h.num_k_heads * h.key_head_dim >= 0)
        by (nonlinear_arith);
    deltanet::law_resolved_dims_are_consistent(h, ranks as int);
    let d = a.dims;
    let (k, v) = (d.key_dim as int, d.value_dim as int);
    let n = rank as int;
    assert((n + 1) * k == n * k + k && (n + 1) * v == n * v + v) by (nonlinear_arith);
    assert(0 * k == 0 && 0 * v == 0) by (nonlinear_arith);
    assert(0 <= n * k && (n + 1) * k <= ranks * k && 0 <= n * v && (n + 1) * v <= ranks * v)
        by (nonlinear_arith)
        requires
            0 <= n,
            n + 1 < ranks,
            k >= 0,
            v >= 0,
    ;
}

} // verus!
