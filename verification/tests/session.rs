//! Capture sessions.

use owl::session::{
    fallback, singles_of, CaptureError, CaptureWindow, FallbackReason, FillError, FillPlan,
    FillReason, InputSlot, Mode, OutputLength, OutputSlot, PlanEvent, PlanOutcome, PlanPhase,
    Session, SessionDesc, StepAction,
};

fn desc(capture: bool) -> SessionDesc {
    SessionDesc {
        inputs: vec![InputSlot::of_f32("x", 2), InputSlot::of_f32("pos", 1)],
        outputs: vec![OutputSlot::of_f32("y", &[2, 3]), OutputSlot::of_f32("z", &[])],
        capture,
    }
}

fn session() -> Session<&'static str> {
    Session::new(&desc(true), vec!["block x", "block pos"])
}

#[test]
fn slots_start_with_their_contents() {
    let one = 1.0f32.to_bits();
    assert_eq!(InputSlot::of_f32("x", 2).first_bytes(), vec![0; 8]);
    let filled = InputSlot::of_f32("x", 2).init(vec![one]);
    assert_eq!(filled.first_bytes(), vec![0, 0, 0x80, 0x3f, 0, 0, 0, 0]);
    let cut = InputSlot::of_f32("x", 1).init(vec![one, one, one]);
    assert_eq!(cut.first_bytes(), vec![0, 0, 0x80, 0x3f]);
    let none = SessionDesc::default();
    assert!(none.inputs.is_empty() && none.outputs.is_empty() && !none.capture);
}

#[test]
fn a_session_starts_eager() {
    let s = session();
    assert_eq!(s.mode, Mode::Eager);
    assert_eq!(s.step_after(&s.fill_slots(&[])), Ok(StepAction::Evaluate));
    assert_eq!((s.inputs[1].name, s.inputs[1].len, s.inputs[1].block), ("pos", 1, "block pos"));
    assert_eq!((s.out_specs[0].name, s.out_specs[0].len), ("y", 6));
    assert_eq!(s.out_specs[1].len, 1);
    assert_eq!((s.input("pos"), s.input("w")), (Some(1), None));
    assert!(s.read_output("y").is_none());
}

#[test]
fn fills_stop_at_the_first_error() {
    let s = session();
    let all = s.fill_slots(&[("pos", &[7]), ("x", &[1, 2]), ("pos", &[8])]);
    assert_eq!((all.slots, all.error), (vec![1, 0, 1], None));
    let long = s.fill_slots(&[("x", &[1, 2]), ("pos", &[1, 2]), ("x", &[1, 2])]);
    assert_eq!(long.slots, vec![0]);
    assert_eq!(
        long.error,
        Some(FillError { at: 1, reason: FillReason::Length { got: 2, capacity: 1 } })
    );
    let unknown = s.fill_slots(&[("w", &[1])]);
    assert_eq!(unknown.error, Some(FillError { at: 0, reason: FillReason::UnknownSlot }));
    assert!(unknown.slots.is_empty());
}

#[test]
fn outputs_must_be_declared() {
    let s = session();
    assert_eq!(s.declare_outputs(&["z", "y"]), Ok(vec![1, 6]));
    assert_eq!(s.declare_outputs(&["y", "w", "v"]), Err(1));
}

#[test]
fn the_last_result_is_read() {
    let mut s = session();
    assert_eq!(s.record("y", "first", 6, 6), Ok(()));
    assert_eq!(s.record("z", "other", 0, 1), Ok(()));
    assert_eq!(s.record("y", "second", 6, 6), Ok(()));
    assert_eq!(s.record("y", "third", 5, 6), Err(OutputLength { got: 5, want: 6 }));
    assert_eq!(s.read_output("y"), Some((&"second", 24)));
    assert_eq!(s.read_output("z"), Some((&"other", 4)));
    s.end_warmup();
    assert!(s.read_output("y").is_none());
}

#[test]
fn a_capture_makes_steps_launches() {
    let mut s = session();
    let w = CaptureWindow::new().accept("y", "a", 6, 6).ok().unwrap();
    let w = w.accept("y", "b", 0, 6).ok().unwrap();
    let r: Result<PlanOutcome, CaptureError<&str>> = s.finish_capture(Ok(w), Ok(42));
    assert!(matches!(r, Ok(PlanOutcome::Captured)));
    assert_eq!(s.step_after(&s.fill_slots(&[])), Ok(StepAction::Launch { graph: 42 }));
    assert_eq!(s.read_output("y"), Some((&"b", 24)));
}

#[test]
fn a_failed_capture_changes_nothing() {
    let mut s = session();
    s.record("y", "kept", 6, 6).unwrap();
    let length = CaptureWindow::<&str>::new().accept("y", "a", 5, 6).err().unwrap();
    assert_eq!(length, OutputLength { got: 5, want: 6 });
    let r: Result<PlanOutcome, CaptureError<&str>> =
        s.finish_capture(Err(CaptureError::Output(length)), Ok(1));
    assert!(matches!(r, Err(CaptureError::Output(OutputLength { got: 5, want: 6 }))));
    let r = s.finish_capture(Err(CaptureError::Window("lost")), Ok(1));
    assert!(matches!(r, Err(CaptureError::Window("lost"))));
    let r = s.finish_capture(Ok(CaptureWindow::new()), Err("refused"));
    assert!(matches!(r, Err(CaptureError::End("refused"))));
    assert_eq!(s.mode, Mode::Eager);
    assert_eq!(s.read_output("y"), Some((&"kept", 24)));
}

/// Makes the writes of a plan.
fn write(contents: &mut [Vec<u32>], plan: &FillPlan, fills: &[(&str, &[u32])]) {
    for (slot, fill) in plan.slots.iter().zip(fills) {
        contents[*slot] = fill.1.to_vec();
    }
}

/// A fill that cannot be made ends the step, launched or evaluated. The fills before it
/// are made, other slots keep their contents, and outputs are read as before.
#[test]
fn failed_fills_end_the_step() {
    let error = FillError { at: 1, reason: FillReason::Length { got: 2, capacity: 1 } };
    for captured in [false, true] {
        let mut s = session();
        if captured {
            let w = CaptureWindow::new().accept("y", "kept", 6, 6).ok().unwrap();
            let r: Result<PlanOutcome, CaptureError<&str>> = s.finish_capture(Ok(w), Ok(42));
            assert!(r.is_ok());
        } else {
            s.record("y", "kept", 6, 6).unwrap();
        }
        let fills: [(&str, &[u32]); 3] = [("x", &[1, 2]), ("pos", &[1, 2]), ("x", &[3, 4])];
        let plan = s.fill_slots(&fills);
        assert_eq!(s.step_after(&plan), Err(error));
        let mut contents = vec![vec![0, 0], vec![9]];
        write(&mut contents, &plan, &fills);
        assert_eq!(contents, vec![vec![1, 2], vec![9]]);
        assert_eq!(s.read_output("y"), Some((&"kept", 24)));
    }
}

/// Runs a plan on events: the phases that it goes through.
fn phases(slots: usize, capture: bool, events: &[PlanEvent]) -> Vec<PlanPhase> {
    let mut phase = PlanPhase::start(slots);
    let mut all = vec![phase];
    for event in events {
        phase = phase.next(*event, slots, capture);
        all.push(phase);
    }
    all
}

const DECLARED: PlanEvent = PlanEvent::Declared { outputs: 2, from_host: false };

#[test]
fn captures_follow_the_warm_up() {
    let done = PlanEvent::Done;
    let events = [done, done, done, done, done, DECLARED, done, done, done, done];
    assert_eq!(
        phases(2, true, &events),
        vec![
            PlanPhase::LoadSlot { slot: 0 },
            PlanPhase::LoadSlot { slot: 1 },
            PlanPhase::WarmUp,
            PlanPhase::Sync,
            PlanPhase::Clear,
            PlanPhase::Declare,
            PlanPhase::Begin { outputs: 2 },
            PlanPhase::Capture { output: 0, outputs: 2 },
            PlanPhase::Capture { output: 1, outputs: 2 },
            PlanPhase::End { spoiled: false },
            PlanPhase::Captured
        ]
    );
    let none = PlanEvent::Declared { outputs: 0, from_host: false };
    assert_eq!(
        phases(0, true, &[done, done, done, none, done, done])[3..],
        [
            PlanPhase::Declare,
            PlanPhase::Begin { outputs: 0 },
            PlanPhase::End { spoiled: false },
            PlanPhase::Captured
        ]
    );
}

/// An error before a capture begins ends the plan, whatever comes after.
#[test]
fn early_errors_end_the_plan() {
    let done = PlanEvent::Done;
    let good = [done, done, done, done, done, DECLARED];
    for at in 0..good.len() {
        let mut events = good;
        events[at] = PlanEvent::Failed;
        let all = phases(2, true, &events);
        assert_eq!(all[..=at], phases(2, true, &good)[..=at]);
        assert!(all[at + 1..].iter().all(|p| *p == PlanPhase::Failed));
    }
}

/// A window that an output spoiled is ended all the same, and is an error.
#[test]
fn begun_captures_are_ended() {
    let done = PlanEvent::Done;
    let begun = |rest: &[PlanEvent]| {
        let mut events = vec![done, done, done, DECLARED, done];
        events.extend_from_slice(rest);
        phases(0, true, &events)[6..].to_vec()
    };
    assert_eq!(
        begun(&[PlanEvent::Failed, done]),
        vec![PlanPhase::End { spoiled: true }, PlanPhase::Failed]
    );
    assert_eq!(
        begun(&[done, done, PlanEvent::Failed])[1..],
        [PlanPhase::End { spoiled: false }, PlanPhase::Failed]
    );
}

#[test]
fn captures_that_do_not_begin() {
    let done = PlanEvent::Done;
    let last = |capture: bool, events: &[PlanEvent]| *phases(0, capture, events).last().unwrap();
    assert_eq!(
        last(false, &[done, done, done]),
        PlanPhase::Fallback(FallbackReason::NotAsked)
    );
    let from_host = PlanEvent::Declared { outputs: 1, from_host: true };
    assert_eq!(
        last(true, &[done, done, done, from_host]),
        PlanPhase::Fallback(FallbackReason::FromHost)
    );
    assert_eq!(
        last(true, &[done, done, done, DECLARED, PlanEvent::Failed]),
        PlanPhase::Fallback(FallbackReason::NoGraphs)
    );
    let text = |why: FallbackReason| match fallback(why, "no graphs") {
        PlanOutcome::EagerFallback { reason } => reason,
        PlanOutcome::Captured => unreachable!(),
    };
    assert_eq!(text(FallbackReason::NotAsked), "未请求捕获");
    assert_eq!(text(FallbackReason::FromHost), "输出树含 Htod(捕获期禁)");
    assert_eq!(text(FallbackReason::NoGraphs), "face 无图能力: no graphs");
}

#[test]
fn results_are_little_endian_singles() {
    let bytes: Vec<u8> = [1.5f32, -2.0].iter().flat_map(|f| f.to_le_bytes()).collect();
    assert_eq!(singles_of(&bytes), vec![1.5f32.to_bits(), (-2.0f32).to_bits()]);
}
