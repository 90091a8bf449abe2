//! Capture sessions: one declaration, executed eagerly, captured, or replayed.
//!
//! The caller owns the device and does what the session decides: it loads the
//! slots, runs a warm up, tries a capture where one is asked for, and then fills
//! slots and launches or evaluates step by step.

use crate::models::layers::shape;
use crate::models::layers::var_builder::{self, bytes_of_words, words_of_bytes};
use crate::text;
use vstd::prelude::*;

verus! {

/// A named buffer that stays in place; every step may fill it anew.
pub struct InputSlot {
    pub name: &'static str,
    /// How many singles it holds.
    pub len: usize,
    /// The first contents, as the bits of singles.
    pub init: Vec<u32>,
}

/// `v` cut or filled up with zeros to `len`.
pub open spec fn sized(v: Seq<u32>, len: nat) -> Seq<u32> {
    Seq::new(
        len,
        |i: int|
            if i < v.len() {
                v[i]
            } else {
                0
            },
    )
}

impl InputSlot {
    /// A slot of singles, with zeros at first.
    pub fn of_f32(name: &'static str, len: usize) -> (r: Self)
        ensures
            r.name@ == name@,
            r.len == len,
            r.init@.len() == 0,
    {
        InputSlot { name, len, init: Vec::new() }
    }

    /// The same slot with other first contents.
    pub fn init(self, v: Vec<u32>) -> (r: Self)
        ensures
            r.name == self.name,
            r.len == self.len,
            r.init == v,
    {
        InputSlot { name: self.name, len: self.len, init: v }
    }

    /// The bytes that are loaded at first: the contents, cut or filled up with zeros
    /// to the length of the slot, as little endian singles.
    pub fn first_bytes(&self) -> (r: Vec<u8>)
        ensures
            r@.len() == 4 * self.len,
            forall|i: int|
                0 <= i < self.len ==> #[trigger] var_builder::word_at(r@, i) == sized(
                    self.init@,
                    self.len as nat,
                )[i],
    {
        let n: usize = self.init.len();
        let mut words: Vec<u32> = Vec::new();
        let mut i: usize = 0;
        while i < self.len
            invariant
                i <= self.len,
                n == self.init@.len(),
                words@.len() == i,
                forall|j: int|
                    0 <= j < i ==> #[trigger] words@[j] == sized(self.init@, self.len as nat)[j],
            decreases self.len - i,
        {
            words.push(
                if i < n {
                    self.init[i]
                } else {
                    0
                },
            );
            i += 1;
        }
        bytes_of_words(words.as_slice())
    }
}

/// An output: what the declaration under this name is expected to give.
pub struct OutputSlot {
    pub name: &'static str,
    pub shape: Vec<usize>,
}

impl OutputSlot {
    /// An output of singles.
    pub fn of_f32(name: &'static str, shape: &[usize]) -> (r: Self)
        ensures
            r.name@ == name@,
            r.shape@ == shape@,
    {
        OutputSlot { name, shape: shape::copy_dims(shape) }
    }
}

/// What a session declares.
pub struct SessionDesc {
    pub inputs: Vec<InputSlot>,
    pub outputs: Vec<OutputSlot>,
    /// Whether a capture is tried.
    pub capture: bool,
}

impl Default for SessionDesc {
    fn default() -> (r: Self)
        ensures
            r.inputs@.len() == 0,
            r.outputs@.len() == 0,
            !r.capture,
    {
        SessionDesc { inputs: Vec::new(), outputs: Vec::new(), capture: false }
    }
}

/// How a session was planned.
#[derive(Debug)]
pub enum PlanOutcome {
    Captured,
    /// The same declaration is evaluated step by step.
    EagerFallback { reason: String },
}

/// How a session executes its steps.
#[derive(Debug, Clone, Copy, PartialEq, Eq, Structural)]
pub enum Mode {
    Eager,
    Captured { graph: u64 },
}

/// What a step does after its slots are filled.
#[derive(Debug, Clone, Copy, PartialEq, Eq, Structural)]
pub enum StepAction {
    /// Evaluate the declaration.
    Evaluate,
    /// Launch the captured graph.
    Launch { graph: u64 },
}

/// A slot on the device. `B` is the handle of a block.
pub struct InSlotDev<B> {
    pub name: &'static str,
    pub len: usize,
    pub block: B,
}

/// A declared output and its number of elements.
pub struct OutSpec {
    pub name: &'static str,
    pub len: usize,
}

/// The last result of an output.
pub struct OutVal<B> {
    pub name: &'static str,
    pub block: B,
    pub len: usize,
}

/// Why a slot cannot be filled.
#[derive(Debug, Clone, Copy, PartialEq, Eq, Structural)]
pub enum FillReason {
    UnknownSlot,
    Length { got: usize, capacity: usize },
}

/// The fill at which the filling stops.
#[derive(Debug, Clone, Copy, PartialEq, Eq, Structural)]
pub struct FillError {
    pub at: usize,
    pub reason: FillReason,
}

/// The slots to write, in order, up to the first fill that cannot be made.
pub struct FillPlan {
    pub slots: Vec<usize>,
    pub error: Option<FillError>,
}

/// An output that gave another number of elements than declared.
#[derive(Debug, Clone, Copy, PartialEq, Eq, Structural)]
pub struct OutputLength {
    pub got: usize,
    pub want: usize,
}

/// Why a capture failed after it had begun. Then there is no way back: the window
/// is spoiled.
pub enum CaptureError<E> {
    /// An output gave another number of elements than declared.
    Output(OutputLength),
    /// The device failed within the window.
    Window(E),
    /// The device could not end the capture.
    End(E),
}

/// The position of the first of `names` that equals `name`.
pub open spec fn first_named(names: Seq<Seq<char>>, name: Seq<char>) -> Option<int>
    decreases names.len(),
{
    if names.len() == 0 {
        None
    } else {
        match first_named(names.drop_last(), name) {
            Some(i) => Some(i),
            None => if names.last() == name {
                Some(names.len() - 1)
            } else {
                None
            },
        }
    }
}

/// The position of the last of `names` that equals `name`.
pub open spec fn last_named(names: Seq<Seq<char>>, name: Seq<char>) -> Option<int>
    decreases names.len(),
{
    if names.len() == 0 {
        None
    } else if names.last() == name {
        Some(names.len() - 1)
    } else {
        last_named(names.drop_last(), name)
    }
}

proof fn lemma_first_named(names: Seq<Seq<char>>, name: Seq<char>)
    ensures
        match first_named(names, name) {
            Some(i) => 0 <= i < names.len() && names[i] == name && forall|j: int|
                0 <= j < i ==> #[trigger] names[j] != name,
            None => forall|j: int| 0 <= j < names.len() ==> #[trigger] names[j] != name,
        },
    decreases names.len(),
{
    if names.len() > 0 {
        let rest = names.drop_last();
        lemma_first_named(rest, name);
        assert forall|j: int| 0 <= j < rest.len() implies #[trigger] names[j] == rest[j] by {}
    }
}

proof fn lemma_first_named_is(names: Seq<Seq<char>>, name: Seq<char>, i: int)
    requires
        0 <= i < names.len(),
        names[i] == name,
        forall|j: int| 0 <= j < i ==> #[trigger] names[j] != name,
    ensures
        first_named(names, name) == Some(i),
{
    lemma_first_named(names, name);
}

/// The names of slots.
pub open spec fn slot_names<B>(slots: Seq<InSlotDev<B>>) -> Seq<Seq<char>> {
    Seq::new(slots.len(), |i: int| slots[i].name@)
}

/// The names of declared outputs.
pub open spec fn spec_names(specs: Seq<OutSpec>) -> Seq<Seq<char>> {
    Seq::new(specs.len(), |i: int| specs[i].name@)
}

/// The names of results.
pub open spec fn result_names<B>(results: Seq<OutVal<B>>) -> Seq<Seq<char>> {
    Seq::new(results.len(), |i: int| results[i].name@)
}

/// The number of elements that an output declares. Of several declarations under
/// one name the last one counts.
pub open spec fn declared_len(specs: Seq<OutSpec>, name: Seq<char>) -> Option<usize> {
    match last_named(spec_names(specs), name) {
        Some(i) => Some(specs[i].len),
        None => None,
    }
}

/// The results after one more: it takes the place of an earlier one of its name.
pub open spec fn stored<B>(results: Seq<OutVal<B>>, v: OutVal<B>) -> Seq<OutVal<B>> {
    match first_named(result_names(results), v.name@) {
        Some(i) => results.update(i, v),
        None => results.push(v),
    }
}

/// The result under a name.
pub open spec fn result_of<B>(results: Seq<OutVal<B>>, name: Seq<char>) -> Option<OutVal<B>> {
    match first_named(result_names(results), name) {
        Some(i) => Some(results[i]),
        None => None,
    }
}

/// What was stored under a name last is read back, and results under other names
/// stay as they were.
pub proof fn law_stored_result_is_read<B>(results: Seq<OutVal<B>>, v: OutVal<B>, other: Seq<char>)
    ensures
        result_of(stored(results, v), v.name@) == Some(v),
        other != v.name@ ==> result_of(stored(results, v), other) == result_of(results, other),
{
    let names = result_names(results);
    let after = stored(results, v);
    let after_names = result_names(after);
    lemma_first_named(names, v.name@);
    lemma_first_named(names, other);
    lemma_first_named(after_names, v.name@);
    lemma_first_named(after_names, other);
    assert forall|j: int| 0 <= j < names.len() implies #[trigger] after_names[j] == names[j] by {
        assert(after_names[j] == after[j].name@);
        assert(names[j] == results[j].name@);
    }
    match first_named(names, v.name@) {
        Some(i) => {
            assert(after_names.len() == names.len());
            lemma_first_named_is(after_names, v.name@, i);
        },
        None => {
            let n = results.len() as int;
            assert(after_names[n] == v.name@);
            lemma_first_named_is(after_names, v.name@, n);
        },
    }
    if other != v.name@ {
        match first_named(names, other) {
            Some(i) => {
                lemma_first_named_is(after_names, other, i);
            },
            None => {
                assert forall|j: int| 0 <= j < after_names.len() implies #[trigger] after_names[j]
                    != other by {
                    if j < names.len() {
                        assert(after_names[j] == names[j]);
                    }
                }
            },
        }
    }
}

/// The slots to write for the first fills, and the first error.
pub open spec fn fill_answer<B>(
    slots: Seq<InSlotDev<B>>,
    names: Seq<Seq<char>>,
    lens: Seq<nat>,
    n: int,
) -> (Seq<usize>, Option<FillError>)
    decreases n,
{
    if n <= 0 {
        (Seq::empty(), None)
    } else {
        let before = fill_answer(slots, names, lens, n - 1);
        if before.1 is Some {
            before
        } else {
            let at = (n - 1) as usize;
            match first_named(slot_names(slots), names[n - 1]) {
                None => (before.0, Some(FillError { at, reason: FillReason::UnknownSlot })),
                Some(i) => if lens[n - 1] != slots[i].len {
                    (
                        before.0,
                        Some(
                            FillError {
                                at,
                                reason: FillReason::Length {
                                    got: lens[n - 1] as usize,
                                    capacity: slots[i].len,
                                },
                            },
                        ),
                    )
                } else {
                    (before.0.push(i as usize), None)
                },
            }
        }
    }
}

proof fn lemma_fill_stops<B>(
    slots: Seq<InSlotDev<B>>,
    names: Seq<Seq<char>>,
    lens: Seq<nat>,
    m: int,
    n: int,
)
    requires
        0 <= m <= n,
        fill_answer(slots, names, lens, m).1 is Some,
    ensures
        fill_answer(slots, names, lens, n) == fill_answer(slots, names, lens, m),
    decreases n,
{
    if m < n {
        lemma_fill_stops(slots, names, lens, m, n - 1);
    }
}

/// Fills that all can be made go, in order, to slots of their names and lengths.
pub proof fn law_fills_go_to_their_slots<B>(
    slots: Seq<InSlotDev<B>>,
    names: Seq<Seq<char>>,
    lens: Seq<nat>,
    n: int,
)
    requires
        0 <= n <= names.len(),
        names.len() == lens.len(),
        slots.len() <= usize::MAX,
        fill_answer(slots, names, lens, n).1 is None,
    ensures
        fill_answer(slots, names, lens, n).0.len() == n,
        forall|i: int|
            0 <= i < n ==> (#[trigger] fill_answer(slots, names, lens, n).0[i]) < slots.len()
                && slots[fill_answer(slots, names, lens, n).0[i] as int].name@ == names[i]
                && slots[fill_answer(slots, names, lens, n).0[i] as int].len == lens[i],
    decreases n,
{
    if n > 0 {
        law_fills_go_to_their_slots(slots, names, lens, n - 1);
        lemma_first_named(slot_names(slots), names[n - 1]);
        let before = fill_answer(slots, names, lens, n - 1).0;
        let after = fill_answer(slots, names, lens, n).0;
        assert forall|i: int| 0 <= i < n implies (#[trigger] after[i]) < slots.len()
            && slots[after[i] as int].name@ == names[i] && slots[after[i] as int].len == lens[i] by {
            if i < n - 1 {
                assert(after[i] == before[i]);
            } else {
                let s = after[i] as int;
                assert(slot_names(slots)[s] == slots[s].name@);
            }
        }
    }
}

/// What a step does after its fills: the first fill that could not be made is its
/// error; else a captured session launches its graph, and another one evaluates.
pub open spec fn step_answer(mode: Mode, error: Option<FillError>) -> Result<
    StepAction,
    FillError,
> {
    match error {
        Some(e) => Err(e),
        None => match mode {
            Mode::Eager => Ok(StepAction::Evaluate),
            Mode::Captured { graph } => Ok(StepAction::Launch { graph }),
        },
    }
}

/// The contents of the slots after the first `n` writes, each one in place.
pub open spec fn written(
    contents: Seq<Seq<u32>>,
    targets: Seq<usize>,
    data: Seq<Seq<u32>>,
    n: int,
) -> Seq<Seq<u32>>
    decreases n,
{
    if n <= 0 {
        contents
    } else {
        written(contents, targets, data, n - 1).update(targets[n - 1] as int, data[n - 1])
    }
}

/// A slot holds what was written to it last, and a slot that nothing was written to
/// keeps its contents.
pub proof fn law_slots_hold_the_last_write(
    contents: Seq<Seq<u32>>,
    targets: Seq<usize>,
    data: Seq<Seq<u32>>,
    n: int,
    s: int,
)
    requires
        0 <= n <= targets.len(),
        forall|i: int| 0 <= i < n ==> (#[trigger] targets[i]) < contents.len(),
        0 <= s < contents.len(),
    ensures
        written(contents, targets, data, n).len() == contents.len(),
        (forall|i: int| 0 <= i < n ==> #[trigger] targets[i] != s) ==> written(
            contents,
            targets,
            data,
            n,
        )[s] == contents[s],
        forall|i: int|
            0 <= i < n && #[trigger] targets[i] == s && (forall|j: int|
                i < j < n ==> #[trigger] targets[j] != s) ==> written(contents, targets, data, n)[s]
                == data[i],
    decreases n,
{
    if n > 0 {
        law_slots_hold_the_last_write(contents, targets, data, n - 1, s);
        let before = written(contents, targets, data, n - 1);
        assert(targets[n - 1] < contents.len());
        assert forall|i: int|
            0 <= i < n && #[trigger] targets[i] == s && (forall|j: int|
                i < j < n ==> #[trigger] targets[j] != s) implies written(
            contents,
            targets,
            data,
            n,
        )[s] == data[i] by {
            if i < n - 1 {
                assert(targets[n - 1] != s);
                assert(before[s] == data[i]);
            }
        }
    }
}

/// A step whose fill `e.at` cannot be made ends with that error: it neither launches
/// nor evaluates, in either mode. The fills before it are made, in order, into the
/// slots of their names. The slot of the last one that names it holds its data, and
/// all other slots keep theirs.
pub proof fn law_failed_fill_ends_the_step<B>(
    slots: Seq<InSlotDev<B>>,
    names: Seq<Seq<char>>,
    data: Seq<Seq<u32>>,
    contents: Seq<Seq<u32>>,
    mode: Mode,
    s: int,
)
    requires
        names.len() == data.len(),
        names.len() <= usize::MAX,
        slots.len() <= usize::MAX,
        contents.len() == slots.len(),
        0 <= s < slots.len(),
        fill_answer(slots, names, data_lens(data), names.len() as int).1 is Some,
    ensures
        ({
            let plan = fill_answer(slots, names, data_lens(data), names.len() as int);
            let e = plan.1->0;
            let after = written(contents, plan.0, data, e.at as int);
            &&& step_answer(mode, plan.1) == Err::<StepAction, FillError>(e)
            &&& e.at < names.len()
            &&& plan.0.len() == e.at
            &&& forall|i: int|
                0 <= i < e.at ==> (#[trigger] plan.0[i]) < slots.len() && slots[plan.0[i] as int].name@
                    == names[i]
            &&& after.len() == contents.len()
            &&& (forall|i: int| 0 <= i < e.at ==> #[trigger] plan.0[i] != s) ==> after[s]
                == contents[s]
            &&& forall|i: int|
                0 <= i < e.at && #[trigger] plan.0[i] == s && (forall|j: int|
                    i < j < e.at ==> #[trigger] plan.0[j] != s) ==> after[s] == data[i]
        }),
{
    let lens = data_lens(data);
    let n = names.len() as int;
    lemma_fill_error(slots, names, lens, n);
    let plan = fill_answer(slots, names, lens, n);
    let at = (plan.1->0).at as int;
    law_fills_go_to_their_slots(slots, names, lens, at);
    law_slots_hold_the_last_write(contents, plan.0, data, at, s);
}

/// An error stands at the first fill that cannot be made, and the ones before it are
/// planned.
proof fn lemma_fill_error<B>(
    slots: Seq<InSlotDev<B>>,
    names: Seq<Seq<char>>,
    lens: Seq<nat>,
    n: int,
)
    requires
        0 <= n <= names.len(),
        names.len() == lens.len(),
        names.len() <= usize::MAX,
        slots.len() <= usize::MAX,
        fill_answer(slots, names, lens, n).1 is Some,
    ensures
        ({
            let plan = fill_answer(slots, names, lens, n);
            let at = (plan.1->0).at as int;
            &&& 0 <= at < n
            &&& fill_answer(slots, names, lens, at) == (plan.0, None::<FillError>)
            &&& plan.0.len() == at
        }),
    decreases n,
{
    if n > 0 {
        if fill_answer(slots, names, lens, n - 1).1 is Some {
            lemma_fill_error(slots, names, lens, n - 1);
        } else {
            law_fills_go_to_their_slots(slots, names, lens, n - 1);
        }
    }
}

/// The lengths of the data of fills.
pub open spec fn data_lens(data: Seq<Seq<u32>>) -> Seq<nat> {
    Seq::new(data.len(), |i: int| data[i].len())
}

/// The names of fills.
pub open spec fn fill_names(fills: Seq<(&str, &[u32])>) -> Seq<Seq<char>> {
    Seq::new(fills.len(), |i: int| fills[i].0@)
}

/// The lengths of fills.
pub open spec fn fill_lens(fills: Seq<(&str, &[u32])>) -> Seq<nat> {
    Seq::new(fills.len(), |i: int| fills[i].1@.len())
}

/// A session: what is declared, what the last step gave, and how steps run.
pub struct Session<B> {
    pub inputs: Vec<InSlotDev<B>>,
    pub out_specs: Vec<OutSpec>,
    pub last: Vec<OutVal<B>>,
    pub mode: Mode,
}

impl<B> Session<B> {
    /// A session whose slots were loaded into `blocks`, in the order of their
    /// declaration.
    pub fn new(desc: &SessionDesc, blocks: Vec<B>) -> (r: Self)
        requires
            blocks@.len() == desc.inputs@.len(),
            forall|i: int, j: int|
                0 <= i < desc.outputs@.len() && 0 <= j <= desc.outputs@[i].shape@.len()
                    ==> shape::elem_count(#[trigger] desc.outputs@[i].shape@.take(j)) <= usize::MAX,
        ensures
            r.inputs@.len() == desc.inputs@.len(),
            forall|i: int|
                0 <= i < r.inputs@.len() ==> (#[trigger] r.inputs@[i]).name == desc.inputs@[i].name
                    && r.inputs@[i].len == desc.inputs@[i].len && r.inputs@[i].block == blocks@[i],
            r.out_specs@.len() == desc.outputs@.len(),
            forall|i: int|
                0 <= i < r.out_specs@.len() ==> (#[trigger] r.out_specs@[i]).name
                    == desc.outputs@[i].name && r.out_specs@[i].len == shape::elem_count(
                    desc.outputs@[i].shape@,
                ),
            r.last@.len() == 0,
            r.mode == Mode::Eager,
    {
        let mut blocks: Vec<B> = blocks;
        let ghost all = blocks@;
        let n: usize = desc.inputs.len();
        let mut inputs: Vec<InSlotDev<B>> = Vec::with_capacity(n);
        let mut i: usize = 0;
        while i < n
            invariant
                i <= n,
                n == desc.inputs@.len(),
                all.len() == n,
                blocks@ == all.skip(i as int),
                inputs@.len() == i,
                forall|j: int|
                    0 <= j < i ==> (#[trigger] inputs@[j]).name == desc.inputs@[j].name
                        && inputs@[j].len == desc.inputs@[j].len && inputs@[j].block == all[j],
            decreases n - i,
        {
            let block: B = blocks.remove(0);
            assert(blocks@ =~= all.skip(i as int + 1));
            inputs.push(
                InSlotDev { name: desc.inputs[i].name, len: desc.inputs[i].len, block },
            );
            i += 1;
        }
        let m: usize = desc.outputs.len();
        let mut out_specs: Vec<OutSpec> = Vec::with_capacity(m);
        let mut k: usize = 0;
        while k < m
            invariant
                k <= m,
                m == desc.outputs@.len(),
                forall|i: int, j: int|
                    0 <= i < desc.outputs@.len() && 0 <= j <= desc.outputs@[i].shape@.len()
                        ==> shape::elem_count(#[trigger] desc.outputs@[i].shape@.take(j))
                        <= usize::MAX,
                out_specs@.len() == k,
                forall|j: int|
                    0 <= j < k ==> (#[trigger] out_specs@[j]).name == desc.outputs@[j].name
                        && out_specs@[j].len == shape::elem_count(desc.outputs@[j].shape@),
            decreases m - k,
        {
            let len: usize = shape::product(desc.outputs[k].shape.as_slice());
            out_specs.push(OutSpec { name: desc.outputs[k].name, len });
            k += 1;
        }
        Session { inputs, out_specs, last: Vec::new(), mode: Mode::Eager }
    }

    /// The slot that the declaration reads under a name. Of several slots with one
    /// name the last one is read.
    pub fn input(&self, name: &str) -> (r: Option<usize>)
        ensures
            match r {
                Some(i) => last_named(slot_names(self.inputs@), name@) == Some(i as int),
                None => last_named(slot_names(self.inputs@), name@) is None,
            },
    {
        let ghost names = slot_names(self.inputs@);
        let mut i: usize = self.inputs.len();
        assert(names.take(i as int) =~= names);
        while i > 0
            invariant
                i <= self.inputs@.len(),
                names == slot_names(self.inputs@),
                last_named(names, name@) == last_named(names.take(i as int), name@),
            decreases i,
        {
            let ghost here = names.take(i as int);
            assert(here.last() == self.inputs@[i - 1].name@);
            assert(here.drop_last() =~= names.take(i - 1));
            if text::same_text(self.inputs[i - 1].name, name) {
                return Some(i - 1);
            }
            i -= 1;
        }
        None
    }

    fn slot(&self, name: &str) -> (r: Option<usize>)
        ensures
            match r {
                Some(i) => first_named(slot_names(self.inputs@), name@) == Some(i as int) && i
                    < self.inputs@.len(),
                None => first_named(slot_names(self.inputs@), name@) is None,
            },
    {
        let ghost names = slot_names(self.inputs@);
        let n: usize = self.inputs.len();
        let mut i: usize = 0;
        while i < n
            invariant
                i <= n,
                n == self.inputs@.len(),
                names == slot_names(self.inputs@),
                forall|j: int| 0 <= j < i ==> #[trigger] names[j] != name@,
            decreases n - i,
        {
            assert(names[i as int] == self.inputs@[i as int].name@);
            if text::same_text(self.inputs[i].name, name) {
                proof {
                    lemma_first_named_is(names, name@, i as int);
                }
                return Some(i);
            }
            i += 1;
        }
        proof {
            lemma_first_named(names, name@);
        }
        None
    }

    /// The slots that fills are written to, each one in place. Filling stops at the
    /// first fill that names no slot or has another length; the ones before it are
    /// made. A slot that no fill names keeps its contents.
    pub fn fill_slots(&self, fills: &[(&str, &[u32])]) -> (r: FillPlan)
        ensures
            (r.slots@, r.error) == fill_answer(
                self.inputs@,
                fill_names(fills@),
                fill_lens(fills@),
                fills@.len() as int,
            ),
    {
        let ghost names = fill_names(fills@);
        let ghost lens = fill_lens(fills@);
        let n: usize = fills.len();
        let mut slots: Vec<usize> = Vec::new();
        let mut at: usize = 0;
        while at < n
            invariant
                at <= n,
                n == fills@.len(),
                names == fill_names(fills@),
                lens == fill_lens(fills@),
                fill_answer(self.inputs@, names, lens, at as int) == (
                    slots@,
                    None::<FillError>,
                ),
            decreases n - at,
        {
            let (name, data) = fills[at];
            assert(names[at as int] == name@);
            assert(lens[at as int] == data@.len());
            let got: usize = data.len();
            let reason: Option<FillReason> = match self.slot(name) {
                None => Some(FillReason::UnknownSlot),
                Some(i) => {
                    if got != self.inputs[i].len {
                        Some(FillReason::Length { got, capacity: self.inputs[i].len })
                    } else {
                        slots.push(i);
                        None
                    }
                },
            };
            match reason {
                Some(reason) => {
                    proof {
                        lemma_fill_stops(self.inputs@, names, lens, at as int + 1, n as int);
                    }
                    return FillPlan { slots, error: Some(FillError { at, reason }) };
                },
                None => {},
            }
            at += 1;
        }
        FillPlan { slots, error: None }
    }

    fn out_spec(&self, name: &str) -> (r: Option<usize>)
        ensures
            r == declared_len(self.out_specs@, name@),
    {
        let ghost names = spec_names(self.out_specs@);
        let mut i: usize = self.out_specs.len();
        assert(names.take(i as int) =~= names);
        while i > 0
            invariant
                i <= self.out_specs@.len(),
                names == spec_names(self.out_specs@),
                last_named(names, name@) == last_named(names.take(i as int), name@),
            decreases i,
        {
            let ghost here = names.take(i as int);
            assert(here.last() == self.out_specs@[i - 1].name@);
            assert(here.drop_last() =~= names.take(i - 1));
            if text::same_text(self.out_specs[i - 1].name, name) {
                return Some(self.out_specs[i - 1].len);
            }
            i -= 1;
        }
        None
    }

    /// Checks the outputs that a declaration gave: each one must be declared. Returns
    /// the elements that each one should give, or the first that is not declared.
    pub fn declare_outputs(&self, names: &[&str]) -> (r: Result<Vec<usize>, usize>)
        ensures
            match r {
                Ok(lens) => lens@.len() == names@.len() && forall|i: int|
                    0 <= i < names@.len() ==> declared_len(self.out_specs@, (#[trigger] names@[i])@)
                        == Some(lens@[i]),
                Err(at) => at < names@.len() && declared_len(self.out_specs@, names@[at as int]@)
                    is None && forall|i: int|
                    0 <= i < at ==> declared_len(self.out_specs@, (#[trigger] names@[i])@) is Some,
            },
    {
        let n: usize = names.len();
        let mut lens: Vec<usize> = Vec::with_capacity(n);
        let mut i: usize = 0;
        while i < n
            invariant
                i <= n,
                n == names@.len(),
                lens@.len() == i,
                forall|j: int|
                    0 <= j < i ==> declared_len(self.out_specs@, (#[trigger] names@[j])@) == Some(
                        lens@[j],
                    ),
            decreases n - i,
        {
            match self.out_spec(names[i]) {
                Some(len) => {
                    lens.push(len);
                },
                None => {
                    return Err(i);
                },
            }
            i += 1;
        }
        Ok(lens)
    }

    /// Keeps the result of an output, evaluated to `got` elements. A block that counts
    /// no elements is taken as it is.
    pub fn record(&mut self, name: &'static str, block: B, got: usize, want: usize) -> (r: Result<
        (),
        OutputLength,
    >)
        ensures
            final(self).inputs == old(self).inputs,
            final(self).out_specs == old(self).out_specs,
            final(self).mode == old(self).mode,
            if got != 0 && got != want {
                r == Err::<(), OutputLength>(OutputLength { got, want }) && final(self).last
                    == old(self).last
            } else {
                r == Ok::<(), OutputLength>(()) && final(self).last@ == stored(
                    old(self).last@,
                    (OutVal { name, block, len: want }),
                )
            },
    {
        if got != 0 && got != want {
            return Err(OutputLength { got, want });
        }
        let at: Option<usize> = self.result_index(name);
        let v: OutVal<B> = OutVal { name, block, len: want };
        match at {
            Some(i) => {
                self.last.set(i, v);
            },
            None => {
                self.last.push(v);
            },
        }
        Ok(())
    }

    fn result_index(&self, name: &str) -> (r: Option<usize>)
        ensures
            match r {
                Some(i) => first_named(result_names(self.last@), name@) == Some(i as int) && i
                    < self.last@.len(),
                None => first_named(result_names(self.last@), name@) is None,
            },
    {
        let ghost names = result_names(self.last@);
        let n: usize = self.last.len();
        let mut i: usize = 0;
        while i < n
            invariant
                i <= n,
                n == self.last@.len(),
                names == result_names(self.last@),
                forall|j: int| 0 <= j < i ==> #[trigger] names[j] != name@,
            decreases n - i,
        {
            assert(names[i as int] == self.last@[i as int].name@);
            if text::same_text(self.last[i].name, name) {
                proof {
                    lemma_first_named_is(names, name@, i as int);
                }
                return Some(i);
            }
            i += 1;
        }
        proof {
            lemma_first_named(names, name@);
        }
        None
    }

    /// Ends the warm up: what it gave is dropped.
    pub fn end_warmup(&mut self)
        ensures
            final(self).last@.len() == 0,
            final(self).inputs == old(self).inputs,
            final(self).out_specs == old(self).out_specs,
            final(self).mode == old(self).mode,
    {
        self.last = Vec::new();
    }

    /// What a step does once its slots are filled: a fill that could not be made ends
    /// the step, and nothing is launched or evaluated.
    pub fn step_after(&self, plan: &FillPlan) -> (r: Result<StepAction, FillError>)
        ensures
            r == step_answer(self.mode, plan.error),
    {
        match plan.error {
            Some(e) => Err(e),
            None => match self.mode {
                Mode::Eager => Ok(StepAction::Evaluate),
                Mode::Captured { graph } => Ok(StepAction::Launch { graph }),
            },
        }
    }

    /// The result to read under a name, and how many bytes it has; none before a
    /// step gave it.
    pub fn read_output(&self, name: &str) -> (r: Option<(&B, usize)>)
        requires
            result_of(self.last@, name@) matches Some(v) ==> v.len * 4 <= usize::MAX,
        ensures
            match r {
                Some((block, bytes)) => result_of(self.last@, name@) matches Some(v) && *block
                    == v.block && bytes == v.len * 4,
                None => result_of(self.last@, name@) is None,
            },
    {
        match self.result_index(name) {
            Some(i) => {
                let v: &OutVal<B> = &self.last[i];
                Some((&v.block, v.len * 4))
            },
            None => None,
        }
    }

    /// Closes a capture. The window ran to its end with these results, or failed. A
    /// graph makes every later step a launch, and the results of the window are the
    /// blocks that it fills. A failure leaves the session as it was.
    pub fn finish_capture<E>(
        &mut self,
        window: Result<CaptureWindow<B>, CaptureError<E>>,
        end: Result<u64, E>,
    ) -> (r: Result<PlanOutcome, CaptureError<E>>)
        ensures
            final(self).inputs == old(self).inputs,
            final(self).out_specs == old(self).out_specs,
            match (window, end) {
                (Ok(w), Ok(graph)) => r == Ok::<PlanOutcome, CaptureError<E>>(
                    PlanOutcome::Captured,
                ) && final(self).mode == (Mode::Captured { graph }) && final(self).last@
                    == w.results@,
                (Err(e), _) => r == Err::<PlanOutcome, CaptureError<E>>(e) && final(self).mode
                    == old(self).mode && final(self).last == old(self).last,
                (Ok(_), Err(e)) => r == Err::<PlanOutcome, CaptureError<E>>(CaptureError::End(e))
                    && final(self).mode == old(self).mode && final(self).last == old(self).last,
            },
            r is Ok == capture_succeeds(window is Err, end is Ok),
    {
        match window {
            Err(e) => Err(e),
            Ok(w) => match end {
                Err(e) => Err(CaptureError::End(e)),
                Ok(graph) => {
                    self.mode = Mode::Captured { graph };
                    self.last = w.results;
                    Ok(PlanOutcome::Captured)
                },
            },
        }
    }
}

/// The results of a capture window. Of several results under one name the last
/// one counts.
pub struct CaptureWindow<B> {
    pub results: Vec<OutVal<B>>,
}

impl<B> CaptureWindow<B> {
    pub fn new() -> (r: Self)
        ensures
            r.results@.len() == 0,
    {
        CaptureWindow { results: Vec::new() }
    }

    /// Takes the next result of the window. One of a wrong length ends the window.
    pub fn accept(self, name: &'static str, block: B, got: usize, want: usize) -> (r: Result<
        Self,
        OutputLength,
    >)
        ensures
            if got == 0 || got == want {
                r matches Ok(w) && w.results@ == stored(
                    self.results@,
                    (OutVal { name, block, len: want }),
                )
            } else {
                r == Err::<Self, OutputLength>(OutputLength { got, want })
            },
    {
        let mut scratch: Session<B> = Session {
            inputs: Vec::new(),
            out_specs: Vec::new(),
            last: self.results,
            mode: Mode::Eager,
        };
        match scratch.record(name, block, got, want) {
            Ok(_) => Ok(CaptureWindow { results: scratch.last }),
            Err(e) => Err(e),
        }
    }
}

/// Why a session is not captured.
#[derive(Debug, Clone, Copy, PartialEq, Eq, Structural)]
pub enum FallbackReason {
    /// No capture was asked for.
    NotAsked,
    /// The declaration loads from the host.
    FromHost,
    /// The device refused to begin a capture.
    NoGraphs,
}

/// The outcome of a plan that falls back. `error` is what the device said where it
/// refused to begin a capture.
pub fn fallback(reason: FallbackReason, error: &str) -> (r: PlanOutcome)
    ensures
        r matches PlanOutcome::EagerFallback { reason: text } && text@ == match reason {
            FallbackReason::NotAsked => "未请求捕获"@,
            FallbackReason::FromHost => "输出树含 Htod(捕获期禁)"@,
            FallbackReason::NoGraphs => "face 无图能力: "@ + error@,
        },
{
    let reason: String = match reason {
        FallbackReason::NotAsked => text::copy("未请求捕获"),
        FallbackReason::FromHost => text::copy("输出树含 Htod(捕获期禁)"),
        FallbackReason::NoGraphs => text::concat("face 无图能力: ", error),
    };
    PlanOutcome::EagerFallback { reason }
}

/// What a plan does next.
#[derive(Debug, Clone, Copy, PartialEq, Eq, Structural)]
pub enum PlanPhase {
    /// Load the first contents of a slot.
    LoadSlot { slot: usize },
    /// Evaluate the declaration once.
    WarmUp,
    /// Wait for the device.
    Sync,
    /// Drop what the warm up gave.
    Clear,
    /// Declare the outputs of a capture.
    Declare,
    /// Ask the device to begin a capture of that many outputs.
    Begin { outputs: usize },
    /// Evaluate an output within the window.
    Capture { output: usize, outputs: usize },
    /// Ask the device to end the capture. The window is spoiled where an output of it
    /// failed.
    End { spoiled: bool },
    /// Planned, and every step launches the captured graph.
    Captured,
    /// Planned, and every step evaluates the declaration.
    Fallback(FallbackReason),
    /// An error ended the plan.
    Failed,
}

/// How the work of a phase went.
#[derive(Debug, Clone, Copy, PartialEq, Eq, Structural)]
pub enum PlanEvent {
    Done,
    /// The outputs are declared; some of them may load from the host.
    Declared { outputs: usize, from_host: bool },
    Failed,
}

/// The phase that follows, of a plan with so many slots.
pub open spec fn next_phase(
    phase: PlanPhase,
    event: PlanEvent,
    slots: usize,
    capture: bool,
) -> PlanPhase {
    let failed = event is Failed;
    match phase {
        PlanPhase::LoadSlot { slot } => if failed {
            PlanPhase::Failed
        } else {
            first_phase((slot + 1) as usize, slots)
        },
        PlanPhase::WarmUp => if failed {
            PlanPhase::Failed
        } else {
            PlanPhase::Sync
        },
        PlanPhase::Sync => if failed {
            PlanPhase::Failed
        } else {
            PlanPhase::Clear
        },
        PlanPhase::Clear => if failed {
            PlanPhase::Failed
        } else if capture {
            PlanPhase::Declare
        } else {
            PlanPhase::Fallback(FallbackReason::NotAsked)
        },
        PlanPhase::Declare => match event {
            PlanEvent::Declared { outputs, from_host } => if from_host {
                PlanPhase::Fallback(FallbackReason::FromHost)
            } else {
                PlanPhase::Begin { outputs }
            },
            _ => PlanPhase::Failed,
        },
        PlanPhase::Begin { outputs } => if failed {
            PlanPhase::Fallback(FallbackReason::NoGraphs)
        } else {
            window_phase(0, outputs)
        },
        PlanPhase::Capture { output, outputs } => if failed {
            PlanPhase::End { spoiled: true }
        } else {
            window_phase((output + 1) as usize, outputs)
        },
        PlanPhase::End { spoiled } => if spoiled || failed {
            PlanPhase::Failed
        } else {
            PlanPhase::Captured
        },
        _ => phase,
    }
}

/// The phase of a plan of which the slots before `slot` are loaded.
pub open spec fn first_phase(slot: usize, slots: usize) -> PlanPhase {
    if slot < slots {
        PlanPhase::LoadSlot { slot }
    } else {
        PlanPhase::WarmUp
    }
}

/// The phase of a window of which the outputs before `output` are evaluated.
pub open spec fn window_phase(output: usize, outputs: usize) -> PlanPhase {
    if output < outputs {
        PlanPhase::Capture { output, outputs }
    } else {
        PlanPhase::End { spoiled: false }
    }
}

impl PlanPhase {
    /// A slot or an output of the phase is one of those that there are.
    pub open spec fn wf(&self, slots: usize) -> bool {
        &&& *self matches PlanPhase::LoadSlot { slot } ==> slot < slots
        &&& *self matches PlanPhase::Capture { output, outputs } ==> output < outputs
    }

    /// Where a plan with so many slots starts.
    pub fn start(slots: usize) -> (r: Self)
        ensures
            r == first_phase(0, slots),
            r.wf(slots),
    {
        if slots > 0 {
            PlanPhase::LoadSlot { slot: 0 }
        } else {
            PlanPhase::WarmUp
        }
    }

    /// The phase after the work of this one.
    pub fn next(self, event: PlanEvent, slots: usize, capture: bool) -> (r: Self)
        requires
            self.wf(slots),
        ensures
            r == next_phase(self, event, slots, capture),
            r.wf(slots),
    {
        let failed: bool = match event {
            PlanEvent::Failed => true,
            _ => false,
        };
        match self {
            PlanPhase::LoadSlot { slot } => {
                if failed {
                    PlanPhase::Failed
                } else if slot + 1 < slots {
                    PlanPhase::LoadSlot { slot: slot + 1 }
                } else {
                    PlanPhase::WarmUp
                }
            },
            PlanPhase::WarmUp => {
                if failed {
                    PlanPhase::Failed
                } else {
                    PlanPhase::Sync
                }
            },
            PlanPhase::Sync => {
                if failed {
                    PlanPhase::Failed
                } else {
                    PlanPhase::Clear
                }
            },
            PlanPhase::Clear => {
                if failed {
                    PlanPhase::Failed
                } else if capture {
                    PlanPhase::Declare
                } else {
                    PlanPhase::Fallback(FallbackReason::NotAsked)
                }
            },
            PlanPhase::Declare => match event {
                PlanEvent::Declared { outputs, from_host } => {
                    if from_host {
                        PlanPhase::Fallback(FallbackReason::FromHost)
                    } else {
                        PlanPhase::Begin { outputs }
                    }
                },
                _ => PlanPhase::Failed,
            },
            PlanPhase::Begin { outputs } => {
                if failed {
                    PlanPhase::Fallback(FallbackReason::NoGraphs)
                } else if outputs > 0 {
                    PlanPhase::Capture { output: 0, outputs }
                } else {
                    PlanPhase::End { spoiled: false }
                }
            },
            PlanPhase::Capture { output, outputs } => {
                if failed {
                    PlanPhase::End { spoiled: true }
                } else if output + 1 < outputs {
                    PlanPhase::Capture { output: output + 1, outputs }
                } else {
                    PlanPhase::End { spoiled: false }
                }
            },
            PlanPhase::End { spoiled } => {
                if spoiled || failed {
                    PlanPhase::Failed
                } else {
                    PlanPhase::Captured
                }
            },
            _ => self,
        }
    }
}

/// Whether the end of a capture makes a plan captured, whatever its slots are.
pub open spec fn capture_succeeds(spoiled: bool, ended: bool) -> bool {
    let event = if ended {
        PlanEvent::Done
    } else {
        PlanEvent::Failed
    };
    next_phase(PlanPhase::End { spoiled }, event, 0, true) is Captured
}

/// Where a plan stands after events.
pub open spec fn phase_after(slots: usize, capture: bool, events: Seq<PlanEvent>) -> PlanPhase
    decreases events.len(),
{
    if events.len() == 0 {
        first_phase(0, slots)
    } else {
        next_phase(phase_after(slots, capture, events.drop_last()), events.last(), slots, capture)
    }
}

/// The phases before a capture, in their order.
pub open spec fn preparation(slots: usize, i: int) -> PlanPhase {
    if i < slots {
        PlanPhase::LoadSlot { slot: i as usize }
    } else if i == slots {
        PlanPhase::WarmUp
    } else if i == slots + 1 {
        PlanPhase::Sync
    } else if i == slots + 2 {
        PlanPhase::Clear
    } else {
        PlanPhase::Declare
    }
}

/// Whether a phase comes before a capture.
pub open spec fn prepares(phase: PlanPhase) -> bool {
    phase is LoadSlot || phase is WarmUp || phase is Sync || phase is Clear || phase is Declare
}

/// A plan in a phase before a capture went through the ones before it, and nothing
/// failed.
proof fn lemma_preparation(slots: usize, capture: bool, events: Seq<PlanEvent>)
    requires
        prepares(phase_after(slots, capture, events)),
    ensures
        events.len() <= slots + 3,
        phase_after(slots, capture, events) is Declare ==> capture,
        forall|i: int|
            0 <= i <= events.len() ==> #[trigger] phase_after(slots, capture, events.take(i))
                == preparation(slots, i),
        forall|i: int| 0 <= i < events.len() ==> !(#[trigger] events[i] is Failed),
    decreases events.len(),
{
    let n = events.len() as int;
    assert(events.take(n) =~= events);
    if n > 0 {
        let before = events.drop_last();
        lemma_preparation(slots, capture, before);
        assert(before.take(n - 1) =~= before);
        assert(phase_after(slots, capture, before.take(n - 1)) == preparation(slots, n - 1));
        assert forall|i: int| 0 <= i <= n implies #[trigger] phase_after(
            slots,
            capture,
            events.take(i),
        ) == preparation(slots, i) by {
            if i < n {
                assert(events.take(i) =~= before.take(i));
            }
        }
        assert forall|i: int| 0 <= i < n implies !(#[trigger] events[i] is Failed) by {
            if i < n - 1 {
                assert(events[i] == before[i]);
            }
        }
    }
}

/// A capture is begun only where one was asked for, after every slot was loaded in
/// turn, the declaration was warmed up, the device had finished, what the warm up
/// gave was dropped, and the outputs were declared and load nothing from the host;
/// nothing of that failed.
pub proof fn law_capture_follows_warm_up(slots: usize, capture: bool, events: Seq<PlanEvent>)
    requires
        phase_after(slots, capture, events) is Begin,
    ensures
        capture,
        events.len() == slots + 4,
        forall|i: int|
            0 <= i < events.len() ==> #[trigger] phase_after(slots, capture, events.take(i))
                == preparation(slots, i),
        forall|i: int| 0 <= i < events.len() ==> !(#[trigger] events[i] is Failed),
        events.last() matches PlanEvent::Declared { outputs, from_host } && !from_host
            && phase_after(slots, capture, events) == (PlanPhase::Begin { outputs }),
{
    let n = events.len() as int;
    let before = events.drop_last();
    lemma_preparation(slots, capture, before);
    assert(before.take(n - 1) =~= before);
    assert(phase_after(slots, capture, before.take(n - 1)) == preparation(slots, n - 1));
    assert forall|i: int| 0 <= i < n implies #[trigger] phase_after(slots, capture, events.take(i))
        == preparation(slots, i) by {
        assert(events.take(i) =~= before.take(i));
    }
    assert forall|i: int| 0 <= i < n implies !(#[trigger] events[i] is Failed) by {
        if i < n - 1 {
            assert(events[i] == before[i]);
        }
    }
}

/// An error before a capture begins ends the plan, whatever comes after: no capture
/// is begun, and no session comes out.
pub proof fn law_early_errors_end_the_plan(
    slots: usize,
    capture: bool,
    events: Seq<PlanEvent>,
    later: Seq<PlanEvent>,
)
    requires
        events.len() > 0,
        prepares(phase_after(slots, capture, events.drop_last())),
        events.last() is Failed,
    ensures
        phase_after(slots, capture, events + later) is Failed,
    decreases later.len(),
{
    if later.len() == 0 {
        assert(events + later =~= events);
    } else {
        law_early_errors_end_the_plan(slots, capture, events, later.drop_last());
        assert((events + later).drop_last() =~= events + later.drop_last());
    }
}

/// A capture that was begun is ended before anything else is done: after the window,
/// also after one that an output spoiled, the device is asked to end it. A graph
/// comes out only where no output failed and the device ended it; else there is an
/// error, and no fallback.
pub proof fn law_begun_captures_are_ended(
    phase: PlanPhase,
    event: PlanEvent,
    slots: usize,
    capture: bool,
)
    requires
        phase.wf(slots),
    ensures
        ({
            let next = next_phase(phase, event, slots, capture);
            &&& phase is Begin && !(event is Failed) ==> next is Capture || next == (
            PlanPhase::End { spoiled: false })
            &&& phase is Capture && !(event is Failed) ==> next is Capture || next == (
            PlanPhase::End { spoiled: false })
            &&& phase is Capture && event is Failed ==> next == (PlanPhase::End { spoiled: true })
            &&& next is Captured && !(phase is Captured) ==> phase == (PlanPhase::End {
                spoiled: false,
            }) && !(event is Failed)
            &&& phase is End && !(next is Captured) ==> next is Failed
        }),
{
}

/// The singles of a read result, as bits.
pub fn singles_of(bytes: &[u8]) -> (r: Vec<u32>)
    ensures
        r@.len() == bytes@.len() / 4,
        forall|i: int|
            0 <= i < r@.len() ==> #[trigger] r@[i] == var_builder::word_at(bytes@, i),
{
    words_of_bytes(bytes)
}

} // verus!
