//! Laws of planned sessions: slots, outputs and the phases of a plan.

use crate::models::layers::shape;
use crate::models::layers::var_builder;
use crate::session::{
    self, CaptureError, CaptureWindow, FallbackReason, FillError, FillPlan, FillReason, InputSlot,
    Mode, OutVal, OutputLength, OutputSlot, PlanEvent, PlanOutcome, PlanPhase, Session,
    SessionDesc, StepAction,
};
use vstd::prelude::*;

verus! {

// ---- Names ----

/// A name is first found at `at`: there, and not before.
pub open spec fn is_first(names: Seq<Seq<char>>, name: Seq<char>, at: int) -> bool {
    &&& 0 <= at < names.len()
    &&& names[at] == name
    &&& forall|i: int| 0 <= i < at ==> #[trigger] names[i] != name
}

/// A name is last found at `at`: there, and not behind.
pub open spec fn is_last(names: Seq<Seq<char>>, name: Seq<char>, at: int) -> bool {
    &&& 0 <= at < names.len()
    &&& names[at] == name
    &&& forall|i: int| at < i < names.len() ==> #[trigger] names[i] != name
}

proof fn lemma_first_named(names: Seq<Seq<char>>, name: Seq<char>)
    ensures
        session::first_named(names, name) matches Some(i) ==> is_first(names, name, i),
        session::first_named(names, name) is None <==> !names.contains(name),
    decreases names.len(),
{
    if names.len() > 0 {
        let s = names.drop_last();
        lemma_first_named(s, name);
        match session::first_named(s, name) {
            Some(i) => {
                assert(names[i] == s[i]);
                assert(forall|j: int| 0 <= j < i ==> s[j] == #[trigger] names[j]);
            },
            None => {
                assert forall|j: int| 0 <= j < s.len() implies #[trigger] names[j] != name by {
                    assert(s[j] == names[j]);
                    if s[j] == name {
                        assert(s.contains(name));
                    }
                }
                assert(names[names.len() - 1] == names.last());
            },
        }
    }
}

proof fn lemma_last_named(names: Seq<Seq<char>>, name: Seq<char>)
    ensures
        session::last_named(names, name) matches Some(i) ==> is_last(names, name, i),
        session::last_named(names, name) is None <==> !names.contains(name),
    decreases names.len(),
{
    if names.len() > 0 {
        let s = names.drop_last();
        lemma_last_named(s, name);
        assert(names[names.len() - 1] == names.last());
        if names.last() != name {
            match session::last_named(s, name) {
                Some(i) => {
                    assert(names[i] == s[i]);
                    assert forall|j: int| i < j < names.len() implies #[trigger] names[j] != name by {
                        if j < s.len() {
                            assert(s[j] == names[j]);
                        }
                    }
                },
                None => {
                    assert forall|j: int| 0 <= j < names.len() implies #[trigger] names[j]
                        != name by {
                        if j < s.len() {
                            assert(s[j] == names[j]);
                            if s[j] == name {
                                assert(s.contains(name));
                            }
                        }
                    }
                },
            }
        }
    }
}

// ---- Slots ----

/// A slot starts with its first values, cut or filled with zeros to its length, each as
/// four bytes, the lowest first.
pub proof fn law_slots_start_with_their_values(slot: InputSlot, r: Vec<u8>, i: int)
    requires
        call_ensures(InputSlot::first_bytes, (&slot,), r),
        0 <= i < slot.len,
    ensures
        r@.len() == 4 * slot.len,
        r@[4 * i] + 256 * r@[4 * i + 1] + 65536 * r@[4 * i + 2] + 16777216 * r@[4 * i + 3] == if i
            < slot.init@.len() {
            slot.init@[i] as int
        } else {
            0
        },
{
    let _ = var_builder::word_at(r@, i);
}

/// Bytes are read as singles, four bytes each, the lowest first.
pub proof fn law_singles_are_four_bytes(bytes: &[u8], r: Vec<u32>, i: int)
    requires
        call_ensures(session::singles_of, (bytes,), r),
        0 <= i < r@.len(),
    ensures
        4 * r@.len() <= bytes@.len() < 4 * r@.len() + 4,
        r@[i] == bytes@[4 * i] + 256 * bytes@[4 * i + 1] + 65536 * bytes@[4 * i + 2] + 16777216
            * bytes@[4 * i + 3],
{
}

/// What a slot starts with is read back as the singles that it was given.
pub proof fn law_first_values_are_read_back(
    slot: InputSlot,
    bytes: Vec<u8>,
    view: &[u8],
    r: Vec<u32>,
)
    requires
        call_ensures(InputSlot::first_bytes, (&slot,), bytes),
        view@ == bytes@,
        call_ensures(session::singles_of, (view,), r),
        slot.init@.len() == slot.len,
    ensures
        r@ == slot.init@,
{
    assert forall|i: int| 0 <= i < r@.len() implies r@[i] == slot.init@[i] by {
        let _ = var_builder::word_at(bytes@, i);
    }
    assert(r@ =~= slot.init@);
}

/// A slot is made empty, and values set later change nothing else of it.
pub proof fn law_slots_are_described(
    name: &'static str,
    len: usize,
    empty: InputSlot,
    v: Vec<u32>,
    set: InputSlot,
)
    requires
        call_ensures(InputSlot::of_f32, (name, len), empty),
        call_ensures(InputSlot::init, (empty, v), set),
    ensures
        empty.name@ == name@ && empty.len == len && empty.init@.len() == 0,
        set.name@ == name@ && set.len == len && set.init@ == v@,
{
}

/// An output is described by its name and its shape.
pub proof fn law_outputs_are_described(name: &'static str, shape: &[usize], r: OutputSlot)
    requires
        call_ensures(OutputSlot::of_f32, (name, shape), r),
    ensures
        r.name@ == name@,
        r.shape@ == shape@,
{
}

/// A session starts eager and without results, with the slots and the blocks that it was
/// given, in order.
pub proof fn law_sessions_start_eager<B>(
    desc: SessionDesc,
    blocks: Vec<B>,
    r: Session<B>,
    i: int,
    dims: &[usize],
    n: usize,
)
    requires
        call_ensures(Session::<B>::new, (&desc, blocks), r),
        call_ensures(shape::product, (dims,), n),
    ensures
        r.mode is Eager,
        r.last@.len() == 0,
        r.inputs@.len() == desc.inputs@.len(),
        r.out_specs@.len() == desc.outputs@.len(),
        0 <= i < r.inputs@.len() ==> r.inputs@[i].name@ == desc.inputs@[i].name@
            && r.inputs@[i].len == desc.inputs@[i].len && r.inputs@[i].block == blocks@[i],
        0 <= i < r.out_specs@.len() ==> r.out_specs@[i].name@ == desc.outputs@[i].name@ && (
        desc.outputs@[i].shape@ == dims@ ==> r.out_specs@[i].len == n),
{
}

/// An input is found by its name, the last one where several have it, and only there.
pub proof fn law_inputs_are_found_by_name<B>(s: Session<B>, name: &str, r: Option<usize>, j: int)
    requires
        call_ensures(Session::<B>::input, (&s, name), r),
        0 <= j < s.inputs@.len(),
    ensures
        r matches Some(i) ==> i < s.inputs@.len() && s.inputs@[i as int].name@ == name@ && (j > i
            ==> s.inputs@[j].name@ != name@),
        r is None ==> s.inputs@[j].name@ != name@,
{
    let names = session::slot_names(s.inputs@);
    lemma_last_named(names, name@);
    assert(names[j] == s.inputs@[j].name@);
    if r is None {
        if names[j] == name@ {
            assert(names.contains(name@));
        }
    } else {
        assert(names[r->Some_0 as int] == s.inputs@[r->Some_0 as int].name@);
    }
}

/// A fill goes to slot `at`: the first of its name, as long as the fill.
pub open spec fn fills_slot<B>(s: Session<B>, fill: (&str, &[u32]), at: int) -> bool {
    &&& 0 <= at < s.inputs@.len()
    &&& s.inputs@[at].name@ == fill.0@
    &&& s.inputs@[at].len == fill.1@.len()
    &&& forall|i: int| 0 <= i < at ==> (#[trigger] s.inputs@[i]).name@ != fill.0@
}

/// Why a fill is refused.
pub open spec fn refuses_fill<B>(s: Session<B>, fill: (&str, &[u32]), why: FillReason) -> bool {
    match why {
        FillReason::UnknownSlot => forall|i: int|
            0 <= i < s.inputs@.len() ==> (#[trigger] s.inputs@[i]).name@ != fill.0@,
        FillReason::Length { got, capacity } => got == fill.1@.len() && got != capacity && exists|
            i: int,
        |
            0 <= i < s.inputs@.len() && (#[trigger] s.inputs@[i]).name@ == fill.0@
                && s.inputs@[i].len == capacity && forall|j: int|
                0 <= j < i ==> (#[trigger] s.inputs@[j]).name@ != fill.0@,
    }
}

proof fn lemma_fills<B>(s: Session<B>, fills: Seq<(&str, &[u32])>, n: int)
    requires
        0 <= n <= fills.len(),
        fills.len() <= usize::MAX,
    ensures
        ({
            let r = session::fill_answer(
                s.inputs@,
                session::fill_names(fills),
                session::fill_lens(fills),
                n,
            );
            &&& forall|x: int|
                0 <= x < r.0.len() ==> fills_slot(s, #[trigger] fills[x], r.0[x] as int)
            &&& r.0.len() <= n
            &&& match r.1 {
                None => r.0.len() == n,
                Some(e) => e.at == r.0.len() && e.at < n && refuses_fill(
                    s,
                    fills[e.at as int],
                    e.reason,
                ),
            }
        }),
    decreases n,
{
    if n > 0 {
        lemma_fills(s, fills, n - 1);
        let names = session::fill_names(fills);
        let lens = session::fill_lens(fills);
        let before = session::fill_answer(s.inputs@, names, lens, n - 1);
        let r = session::fill_answer(s.inputs@, names, lens, n);
        if before.1 is None {
            let slots = session::slot_names(s.inputs@);
            let fill = fills[n - 1];
            assert(names[n - 1] == fill.0@ && lens[n - 1] == fill.1@.len());
            lemma_first_named(slots, fill.0@);
            assert(s.inputs@.len() == s.inputs.len());
            assert(forall|i: int|
                0 <= i < s.inputs@.len() ==> slots[i] == (#[trigger] s.inputs@[i]).name@);
            match session::first_named(slots, fill.0@) {
                None => {
                    assert forall|i: int| 0 <= i < s.inputs@.len() implies (
                    #[trigger] s.inputs@[i]).name@ != fill.0@ by {
                        if slots[i] == fill.0@ {
                            assert(slots.contains(fill.0@));
                        }
                    }
                },
                Some(i) => {
                    assert forall|j: int| 0 <= j < i implies (#[trigger] s.inputs@[j]).name@
                        != fill.0@ by {
                        assert(slots[j] != fill.0@);
                    }
                    assert(slots[i] == s.inputs@[i].name@);
                    if lens[n - 1] == s.inputs@[i].len {
                        assert(fills_slot(s, fill, i));
                        assert forall|x: int| 0 <= x < r.0.len() implies fills_slot(
                            s,
                            #[trigger] fills[x],
                            r.0[x] as int,
                        ) by {
                            if x < before.0.len() {
                                assert(r.0[x] == before.0[x]);
                            }
                        }
                    } else {
                        assert(fill.1@.len() <= usize::MAX) by {
                            assert(fill.1@.len() == fill.1.len());
                        }
                        assert(refuses_fill(s, fill, r.1->Some_0.reason));
                    }
                },
            }
        }
    }
}

/// Fills go to the first slot of their name, in order, up to the first one that is
/// refused: of no slot, or of another length. Nothing behind it is filled.
pub proof fn law_fills_go_to_named_slots<B>(s: Session<B>, fills: &[(&str, &[u32])], r: FillPlan)
    requires
        call_ensures(Session::<B>::fill_slots, (&s, fills), r),
    ensures
        forall|x: int|
            0 <= x < r.slots@.len() ==> fills_slot(s, #[trigger] fills@[x], r.slots@[x] as int),
        match r.error {
            None => r.slots@.len() == fills@.len(),
            Some(e) => e.at == r.slots@.len() && e.at < fills@.len() && refuses_fill(
                s,
                fills@[e.at as int],
                e.reason,
            ),
        },
{
    assert(fills@.len() == fills.len());
    lemma_fills(s, fills@, fills@.len() as int);
}

/// A step is refused with a failed fill, and else launches the graph of a captured
/// session or evaluates an eager one.
pub proof fn law_steps_follow_the_mode<B>(
    s: Session<B>,
    plan: FillPlan,
    r: Result<StepAction, FillError>,
)
    requires
        call_ensures(Session::<B>::step_after, (&s, &plan), r),
    ensures
        r is Err == plan.error is Some,
        r matches Err(e) ==> plan.error == Some(e),
        r matches Ok(a) ==> match a {
            StepAction::Evaluate => s.mode is Eager,
            StepAction::Launch { graph } => s.mode == (Mode::Captured { graph }),
        },
{
}

// ---- Outputs ----

/// Outputs have the length of the last declaration of their name; the first name without
/// one is told.
pub proof fn law_outputs_are_declared<B>(
    s: Session<B>,
    names: &[&str],
    r: Result<Vec<usize>, usize>,
    i: int,
    d: int,
)
    requires
        call_ensures(Session::<B>::declare_outputs, (&s, names), r),
        0 <= i < names@.len(),
        0 <= d < s.out_specs@.len(),
        s.out_specs@[d].name@ == names@[i]@,
        forall|x: int|
            d < x < s.out_specs@.len() ==> (#[trigger] s.out_specs@[x]).name@ != names@[i]@,
    ensures
        r matches Ok(lens) ==> lens@.len() == names@.len() && lens@[i] == s.out_specs@[d].len,
        r matches Err(at) ==> at != i,
{
    let specs = session::spec_names(s.out_specs@);
    let name = names@[i]@;
    lemma_last_named(specs, name);
    assert(specs[d] == name);
    assert(specs.contains(name));
    assert(forall|x: int|
        0 <= x < specs.len() ==> specs[x] == (#[trigger] s.out_specs@[x]).name@);
    let at = session::last_named(specs, name)->Some_0;
    if at < d {
        assert(specs[d] != name);
    }
    if d < at {
        assert(s.out_specs@[at].name@ == name);
    }
}

/// Names without a declaration are refused, the first of them is told.
pub proof fn law_undeclared_outputs_are_refused<B>(
    s: Session<B>,
    names: &[&str],
    r: Result<Vec<usize>, usize>,
    i: int,
)
    requires
        call_ensures(Session::<B>::declare_outputs, (&s, names), r),
        0 <= i < names@.len(),
        forall|x: int|
            0 <= x < s.out_specs@.len() ==> (#[trigger] s.out_specs@[x]).name@ != names@[i]@,
    ensures
        r matches Err(at) && at <= i,
{
    let specs = session::spec_names(s.out_specs@);
    lemma_last_named(specs, names@[i]@);
    if specs.contains(names@[i]@) {
        let x = choose|x: int| 0 <= x < specs.len() && specs[x] == names@[i]@;
        assert(s.out_specs@[x].name@ == names@[i]@);
    }
    if r is Err && r->Err_0 > i {
        assert(session::declared_len(s.out_specs@, names@[i]@) is Some);
    }
}

proof fn lemma_stored<B>(results: Seq<OutVal<B>>, v: OutVal<B>, name: Seq<char>)
    ensures
        session::result_of(session::stored(results, v), name) == if name == v.name@ {
            Some(v)
        } else {
            session::result_of(results, name)
        },
{
    session::law_stored_result_is_read(results, v, name);
}

/// An output of the right length, or of none, is recorded under its name and read back
/// from there; the results of other names stay. One of another length is refused and
/// changes nothing.
pub proof fn law_recorded_outputs_are_read<B>(
    s: &mut Session<B>,
    name: &'static str,
    block: B,
    got: usize,
    want: usize,
    r: Result<(), OutputLength>,
    other: &str,
    before: Option<(&B, usize)>,
    after: Option<(&B, usize)>,
)
    requires
        call_ensures(Session::<B>::record, (s, name, block, got, want), r),
        call_ensures(Session::<B>::read_output, (old(s), other), before),
        call_ensures(Session::<B>::read_output, (final(s), other), after),
    ensures
        r is Ok == (got == 0 || got == want),
        r matches Err(e) ==> e.got == got && e.want == want,
        r is Err || other@ != name@ ==> before == after,
        r is Ok && other@ == name@ ==> (after matches Some((b, bytes)) && *b == block && bytes
            == want * 4),
        final(s).mode == old(s).mode,
        final(s).inputs == old(s).inputs,
{
    lemma_stored(old(s).last@, OutVal { name, block, len: want }, other@);
}

/// After the warm up no result is left, and nothing else has changed.
pub proof fn law_warm_up_leaves_no_results<B>(
    s: &mut Session<B>,
    name: &str,
    r: Option<(&B, usize)>,
)
    requires
        call_ensures(Session::<B>::end_warmup, (s,), ()),
        call_ensures(Session::<B>::read_output, (final(s), name), r),
    ensures
        r is None,
        final(s).mode == old(s).mode,
        final(s).inputs == old(s).inputs,
        final(s).out_specs == old(s).out_specs,
{
    lemma_first_named(session::result_names(final(s).last@), name@);
}

/// A captured session has the graph and the results of its window. An error of the
/// window comes first, then one of the end, and either leaves the session as it was.
pub proof fn law_captures_are_finished<B, E>(
    s: &mut Session<B>,
    window: Result<CaptureWindow<B>, CaptureError<E>>,
    end: Result<u64, E>,
    r: Result<PlanOutcome, CaptureError<E>>,
)
    requires
        call_ensures(Session::<B>::finish_capture::<E>, (s, window, end), r),
    ensures
        r is Ok == (window is Ok && end is Ok),
        r matches Ok(o) ==> o is Captured && final(s).mode is Captured
            && final(s).mode->graph == end->Ok_0 && final(s).last@ == window->Ok_0.results@,
        window matches Err(e) ==> r == Err::<PlanOutcome, CaptureError<E>>(e),
        window is Ok ==> (end matches Err(e) ==> r == Err::<PlanOutcome, CaptureError<E>>(
            CaptureError::End(e),
        )),
        r is Err ==> final(s).mode == old(s).mode && final(s).last == old(s).last,
{
}

/// A window takes outputs of the right length, or of none, under their names.
pub proof fn law_windows_take_outputs<B>(
    w: CaptureWindow<B>,
    name: &'static str,
    block: B,
    got: usize,
    want: usize,
    r: Result<CaptureWindow<B>, OutputLength>,
    other: Seq<char>,
)
    requires
        call_ensures(CaptureWindow::<B>::accept, (w, name, block, got, want), r),
    ensures
        r is Ok == (got == 0 || got == want),
        r matches Err(e) ==> e.got == got && e.want == want,
        r matches Ok(v) ==> session::result_of(v.results@, other) == if other == name@ {
            Some(OutVal { name, block, len: want })
        } else {
            session::result_of(w.results@, other)
        },
{
    lemma_stored(w.results@, OutVal { name, block, len: want }, other);
}

/// A window starts without results.
pub proof fn law_windows_start_empty<B>(w: CaptureWindow<B>)
    requires
        call_ensures(CaptureWindow::<B>::new, (), w),
    ensures
        w.results@.len() == 0,
{
}

/// A session that is not captured says why.
pub proof fn law_fallbacks_say_why(reason: FallbackReason, error: &str, r: PlanOutcome)
    requires
        call_ensures(session::fallback, (reason, error), r),
    ensures
        r matches PlanOutcome::EagerFallback { reason: text } && match reason {
            FallbackReason::NotAsked => text@ == "未请求捕获"@,
            FallbackReason::FromHost => text@ == "输出树含 Htod(捕获期禁)"@,
            FallbackReason::NoGraphs => text@ == "face 无图能力: "@ + error@,
        },
{
}

// ---- Phases ----

/// A plan starts with its first slot, and with the warm up where it has none.
pub proof fn law_plans_start_with_slots(slots: usize, r: PlanPhase)
    requires
        call_ensures(PlanPhase::start, (slots,), r),
    ensures
        slots == 0 ==> r is WarmUp,
        slots > 0 ==> r == (PlanPhase::LoadSlot { slot: 0 }),
{
}

/// Slots are loaded one by one, then the session is warmed up, waited for and cleared.
/// A failure ends the plan.
pub proof fn law_plans_prepare_in_order(
    p: PlanPhase,
    e: PlanEvent,
    slots: usize,
    capture: bool,
    r: PlanPhase,
)
    requires
        p.wf(slots),
        call_ensures(PlanPhase::next, (p, e, slots, capture), r),
    ensures
        e is Failed && (p is LoadSlot || p is WarmUp || p is Sync || p is Clear || p is Declare || p
            is End) ==> r is Failed,
        !(e is Failed) ==> (p matches PlanPhase::LoadSlot { slot } ==> r == if slot + 1 < slots {
            PlanPhase::LoadSlot { slot: (slot + 1) as usize }
        } else {
            PlanPhase::WarmUp
        }),
        !(e is Failed) && p is WarmUp ==> r is Sync,
        !(e is Failed) && p is Sync ==> r is Clear,
        !(e is Failed) && p is Clear && capture ==> r is Declare,
        !(e is Failed) && p is Clear && !capture ==> r == PlanPhase::Fallback(
            FallbackReason::NotAsked,
        ),
        p is Captured || p is Fallback || p is Failed ==> r == p,
{
}

/// A declared plan is captured output by output unless an output comes from the host.
/// Where no capture can begin the plan falls back; a failure within it ends the capture,
/// which is then spoiled.
pub proof fn law_plans_capture_in_order(
    p: PlanPhase,
    e: PlanEvent,
    slots: usize,
    capture: bool,
    r: PlanPhase,
)
    requires
        p.wf(slots),
        call_ensures(PlanPhase::next, (p, e, slots, capture), r),
    ensures
        p is Declare ==> match e {
            PlanEvent::Declared { outputs, from_host } => if from_host {
                r == PlanPhase::Fallback(FallbackReason::FromHost)
            } else {
                r == (PlanPhase::Begin { outputs })
            },
            _ => r is Failed,
        },
        p matches PlanPhase::Begin { outputs } ==> {
            &&& e is Failed ==> r == PlanPhase::Fallback(FallbackReason::NoGraphs)
            &&& !(e is Failed) && outputs == 0 ==> r == (PlanPhase::End { spoiled: false })
            &&& !(e is Failed) && outputs > 0 ==> r == (PlanPhase::Capture { output: 0, outputs })
        },
        p matches PlanPhase::Capture { output, outputs } ==> {
            &&& e is Failed ==> r == (PlanPhase::End { spoiled: true })
            &&& !(e is Failed) && output + 1 == outputs ==> r == (PlanPhase::End { spoiled: false })
            &&& !(e is Failed) && output + 1 < outputs ==> r == (PlanPhase::Capture {
                output: (output + 1) as usize,
                outputs,
            })
        },
        p matches PlanPhase::End { spoiled } ==> {
            &&& r is Captured == !(spoiled || e is Failed)
            &&& r is Failed == (spoiled || e is Failed)
        },
{
}

} // verus!
