//! The protocol between a driver and whoever owns the bus.
//!
//! A driver states what an operation does as a plan: a list of [`Step`]s.
//! [`advance`] walks a plan one bus access at a time. It hands out the
//! [`Access`] that is due, is called again with what the access returned, and
//! in the end reports that the plan is through.

use vstd::prelude::*;
use crate::fields::{field_matches_all, field_modify, FieldValue};

verus! {

/// One thing to do on the machine.
#[derive(Clone, Copy, PartialEq, Eq, Structural, Debug)]
pub enum Access {
    /// Read the 32-bit register at `addr`, with one volatile load.
    Load { addr: usize },
    /// Write `value` to the 32-bit register at `addr`, with one volatile store.
    Store { addr: usize, value: u32 },
    /// Execute `cycles` no-operation instructions.
    Spin { cycles: usize },
}

/// What an operation answers: the access that it needs next, or its result.
#[derive(PartialEq, Eq, Debug)]
pub enum Poll<T> {
    /// Perform the access, then call the operation again with `Some` of the
    /// word that it returned (of any word, where it was no load).
    Pending(Access),
    /// The operation is complete.
    Ready(T),
}

/// One step of a plan.
#[derive(Clone, Copy, PartialEq, Eq, Structural, Debug)]
pub enum Step {
    /// Write `value` to the register.
    Store { addr: usize, value: u32 },
    /// Read the register, replace the bits that `field` covers, write the
    /// word back.
    Modify { addr: usize, field: FieldValue },
    /// Wait for `cycles` no-operation instructions.
    Spin { cycles: usize },
    /// Read the register again and again, one no-operation instruction
    /// apart, for as long as it shows `flag`.
    WaitWhile { addr: usize, flag: FieldValue },
    /// Read the register and keep the word as the plan's result.
    Fetch { addr: usize },
    /// Read the register; where it shows `flag`, end the plan here, without
    /// a result.
    StopIf { addr: usize, flag: FieldValue },
}

/// How far the step under the cursor has come.
#[derive(Clone, Copy, PartialEq, Eq, Structural, Debug)]
pub enum Stage {
    /// Nothing of the step has been asked for yet.
    Due,
    /// The step's first access has been asked for.
    Asked,
    /// The step's second access has been asked for: the store of a
    /// [`Step::Modify`], the pause of a [`Step::WaitWhile`].
    Settling,
}

/// A position in a plan.
#[derive(Clone, Copy, PartialEq, Eq, Structural, Debug)]
pub struct Cursor {
    /// The step that is under way; the plan's length once the plan is through.
    pub index: usize,
    /// How far that step has come.
    pub stage: Stage,
    /// The word that the last completed [`Step::Fetch`] has read.
    pub word: Option<u32>,
}

impl Step {
    /// The access with which the step begins.
    pub open spec fn opening(self) -> Access {
        match self {
            Step::Store { addr, value } => Access::Store { addr, value },
            Step::Spin { cycles } => Access::Spin { cycles },
            Step::Modify { addr, .. } => Access::Load { addr },
            Step::WaitWhile { addr, .. } => Access::Load { addr },
            Step::Fetch { addr } => Access::Load { addr },
            Step::StopIf { addr, .. } => Access::Load { addr },
        }
    }

    /// Whether the step is one access whose outcome does not matter.
    pub open spec fn is_plain(self) -> bool {
        self is Store || self is Spin
    }

    fn begin(self) -> (access: Access)
        ensures
            access == self.opening(),
    {
        match self {
            Step::Store { addr, value } => Access::Store { addr, value },
            Step::Spin { cycles } => Access::Spin { cycles },
            Step::Modify { addr, .. } => Access::Load { addr },
            Step::WaitWhile { addr, .. } => Access::Load { addr },
            Step::Fetch { addr } => Access::Load { addr },
            Step::StopIf { addr, .. } => Access::Load { addr },
        }
    }
}

impl Cursor {
    /// The cursor before a plan's first step.
    pub open spec fn start() -> Cursor {
        Cursor { index: 0, stage: Stage::Due, word: None }
    }

    /// The cursor of a plan of `len` steps that has ended with `word`.
    pub open spec fn end(len: nat, word: Option<u32>) -> Cursor {
        Cursor { index: len as usize, stage: Stage::Due, word }
    }

    /// The cursor before a plan's first step.
    pub fn new() -> (at: Cursor)
        ensures
            at == Cursor::start(),
    {
        Cursor { index: 0, stage: Stage::Due, word: None }
    }
}

/// Where a plan stands, and what it answers, once it moves on to the step at
/// `index` with `word` as the result so far: that step's first access, or the
/// end of the plan.
pub open spec fn enter(plan: Seq<Step>, index: int, word: Option<u32>) -> (Cursor, Poll<Option<u32>>) {
    if 0 <= index < plan.len() {
        (Cursor { index: index as usize, stage: Stage::Asked, word }, Poll::Pending(plan[index].opening()))
    } else {
        (Cursor::end(plan.len(), word), Poll::Ready(word))
    }
}

/// One move of a plan: where the cursor `at` goes, and what the plan answers,
/// when `reply` is what the access asked for last has returned.
///
/// - A store or a pause is over once it has been performed.
/// - A modify stores the word it has read, with the field's bits replaced.
/// - A wait pauses for one instruction and reads again while the word read
///   shows the flag; the first word that does not show it ends the step.
/// - A fetch keeps the word it has read.
/// - A stop-if ends the whole plan, with no result, where the word read
///   shows the flag.
/// - Past the last step the plan answers with the last word fetched.
pub open spec fn after(plan: Seq<Step>, at: Cursor, reply: u32) -> (Cursor, Poll<Option<u32>>) {
    if at.index >= plan.len() {
        (Cursor::end(plan.len(), at.word), Poll::Ready(at.word))
    } else {
        let next = at.index + 1;
        match at.stage {
            Stage::Due => enter(plan, at.index as int, at.word),
            Stage::Asked => match plan[at.index as int] {
                Step::Store { .. } => enter(plan, next, at.word),
                Step::Spin { .. } => enter(plan, next, at.word),
                Step::Modify { addr, field } => (
                    Cursor { stage: Stage::Settling, ..at },
                    Poll::Pending(Access::Store { addr, value: field.modified(reply) }),
                ),
                Step::WaitWhile { addr, flag } => if flag.matched_by(reply) {
                    (Cursor { stage: Stage::Settling, ..at }, Poll::Pending(Access::Spin { cycles: 1 }))
                } else {
                    enter(plan, next, at.word)
                },
                Step::Fetch { .. } => enter(plan, next, Some(reply)),
                Step::StopIf { addr, flag } => if flag.matched_by(reply) {
                    (Cursor::end(plan.len(), None), Poll::Ready(None))
                } else {
                    enter(plan, next, at.word)
                },
            },
            Stage::Settling => match plan[at.index as int] {
                Step::WaitWhile { addr, .. } => (
                    Cursor { stage: Stage::Asked, ..at },
                    Poll::Pending(Access::Load { addr }),
                ),
                _ => enter(plan, next, at.word),
            },
        }
    }
}

/// What an operation in progress carries on from: the position it has reached,
/// where there is one and `reply` brings the outcome of an access; else the
/// start.
pub open spec fn resume(progress: Option<Cursor>, reply: Option<u32>) -> Cursor {
    match (progress, reply) {
        (Some(at), Some(_)) => at,
        _ => Cursor::start(),
    }
}

/// The word that a reply brings; `0` where it brings none.
pub open spec fn word_of(reply: Option<u32>) -> u32 {
    match reply {
        Some(word) => word,
        None => 0,
    }
}

/// One call of an operation that follows `plan`: the progress that it leaves
/// behind, and its answer.
///
/// With `None` for `reply` the plan starts from its first step, whatever was
/// in progress. With `Some` the plan is resumed where `progress` stands (and
/// started where nothing was in progress). While the answer is an access, the
/// new position is kept; with the result, no progress is left.
pub open spec fn polled(plan: Seq<Step>, progress: Option<Cursor>, reply: Option<u32>) -> (Option<Cursor>, Poll<Option<u32>>) {
    let (to, answer) = after(plan, resume(progress, reply), word_of(reply));
    (if answer is Pending { Some(to) } else { None }, answer)
}

fn move_to(plan: &Vec<Step>, index: usize, word: Option<u32>) -> (out: (Cursor, Poll<Option<u32>>))
    ensures
        out == enter(plan@, index as int, word),
{
    if index < plan.len() {
        (Cursor { index, stage: Stage::Asked, word }, Poll::Pending(plan[index].begin()))
    } else {
        (Cursor { index: plan.len(), stage: Stage::Due, word }, Poll::Ready(word))
    }
}

/// Moves a plan on by one access.
///
/// `at` is where the plan stands and `reply` is what the access asked for
/// last has returned (any word, where that was no load, or where nothing has
/// been asked yet). The answer is the new position together with the next
/// access, or with the plan's result once it is through.
pub fn advance(plan: &Vec<Step>, at: Cursor, reply: u32) -> (out: (Cursor, Poll<Option<u32>>))
    ensures
        out == after(plan@, at, reply),
{
    if at.index >= plan.len() {
        return (Cursor { index: plan.len(), stage: Stage::Due, word: at.word }, Poll::Ready(at.word));
    }
    let next: usize = at.index + 1;
    match at.stage {
        Stage::Due => move_to(plan, at.index, at.word),
        Stage::Asked => match plan[at.index] {
            Step::Store { .. } => move_to(plan, next, at.word),
            Step::Spin { .. } => move_to(plan, next, at.word),
            Step::Modify { addr, field } => (
                Cursor { index: at.index, stage: Stage::Settling, word: at.word },
                Poll::Pending(Access::Store { addr, value: field_modify(field, reply) }),
            ),
            Step::WaitWhile { addr, flag } => if field_matches_all(flag, reply) {
                (
                    Cursor { index: at.index, stage: Stage::Settling, word: at.word },
                    Poll::Pending(Access::Spin { cycles: 1 }),
                )
            } else {
                move_to(plan, next, at.word)
            },
            Step::Fetch { .. } => move_to(plan, next, Some(reply)),
            Step::StopIf { addr, flag } => if field_matches_all(flag, reply) {
                (Cursor { index: plan.len(), stage: Stage::Due, word: None }, Poll::Ready(None))
            } else {
                move_to(plan, next, at.word)
            },
        },
        Stage::Settling => match plan[at.index] {
            Step::WaitWhile { addr, .. } => (
                Cursor { index: at.index, stage: Stage::Asked, word: at.word },
                Poll::Pending(Access::Load { addr }),
            ),
            _ => move_to(plan, next, at.word),
        },
    }
}

/// Starts or resumes an operation that follows `plan`, as [`polled`] says.
pub fn poll_plan(plan: &Vec<Step>, progress: Option<Cursor>, reply: Option<u32>) -> (out: (Option<Cursor>, Poll<Option<u32>>))
    ensures
        out == polled(plan@, progress, reply),
{
    let (from, word): (Cursor, u32) = match (progress, reply) {
        (Some(at), Some(word)) => (at, word),
        (None, Some(word)) => (Cursor::new(), word),
        _ => (Cursor::new(), 0),
    };
    let (to, answer) = advance(plan, from, word);
    match answer {
        Poll::Pending(_) => (Some(to), answer),
        Poll::Ready(_) => (None, answer),
    }
}

/// The accesses that a plan asks for from `at` on, when `reply` is what the
/// access asked for last has returned and `replies` are what the accesses to
/// come return, one after the other: up to the end of the plan, or to the
/// access for which no reply is left.
pub open spec fn asked(plan: Seq<Step>, at: Cursor, reply: u32, replies: Seq<u32>) -> Seq<Access>
    decreases replies.len(),
{
    let (to, answer) = after(plan, at, reply);
    match answer {
        Poll::Ready(_) => Seq::empty(),
        Poll::Pending(access) => if replies.len() == 0 {
            seq![access]
        } else {
            seq![access] + asked(plan, to, replies[0], replies.skip(1))
        },
    }
}

/// The accesses that an operation which follows `plan` asks for over calls
/// that come one after the other: the first call finds `progress` and is
/// given `reply`, and each later call is given `Some` of what the access
/// asked for before it has returned, as `replies` has it.
pub open spec fn polls(plan: Seq<Step>, progress: Option<Cursor>, reply: Option<u32>, replies: Seq<u32>) -> Seq<
    Access,
>
    decreases replies.len(),
{
    let (left, answer) = polled(plan, progress, reply);
    match answer {
        Poll::Ready(_) => Seq::empty(),
        Poll::Pending(access) => if replies.len() == 0 {
            seq![access]
        } else {
            seq![access] + polls(plan, left, Some(replies[0]), replies.skip(1))
        },
    }
}

/// An operation that is started walks its plan from the first step,
/// whatever was in progress: the accesses that its calls ask for are those
/// that the plan asks for from its start.
pub proof fn lemma_calls_walk_the_plan(plan: Seq<Step>, progress: Option<Cursor>, replies: Seq<u32>)
    ensures
        polls(plan, progress, None, replies) == asked(plan, Cursor::start(), 0, replies),
{
    let (to, answer) = after(plan, Cursor::start(), 0);
    if answer is Pending && replies.len() > 0 {
        lemma_calls_walk_on(plan, to, replies[0], replies.skip(1));
    }
}

/// The same for an operation that is resumed at `at`.
proof fn lemma_calls_walk_on(plan: Seq<Step>, at: Cursor, reply: u32, replies: Seq<u32>)
    ensures
        polls(plan, Some(at), Some(reply), replies) == asked(plan, at, reply, replies),
    decreases replies.len(),
{
    let (to, answer) = after(plan, at, reply);
    if answer is Pending && replies.len() > 0 {
        lemma_calls_walk_on(plan, to, replies[0], replies.skip(1));
    }
}

/// The registers of a machine that remembers what is stored and does
/// nothing else: the word at each address.
pub type Memory = Map<usize, u32>;

/// What an access does to such registers, and what it returns: a load
/// returns the word at its address, a store puts its word there, a pause
/// changes nothing.
pub open spec fn perform(registers: Memory, access: Access) -> (Memory, u32) {
    match access {
        Access::Load { addr } => (registers, registers[addr]),
        Access::Store { addr, value } => (registers.insert(addr, value), 0),
        Access::Spin { .. } => (registers, 0),
    }
}

/// The registers that a plan leaves when it runs from `at` on such a
/// machine, with `reply` for what the access asked for last has returned;
/// `None` where the plan needs more than `fuel` accesses.
pub open spec fn run(plan: Seq<Step>, at: Cursor, reply: u32, registers: Memory, fuel: nat) -> Option<Memory>
    decreases fuel,
{
    let (to, answer) = after(plan, at, reply);
    match answer {
        Poll::Ready(_) => Some(registers),
        Poll::Pending(access) => if fuel == 0 {
            None
        } else {
            let (next, word) = perform(registers, access);
            run(plan, to, word, next, (fuel - 1) as nat)
        },
    }
}

impl Step {
    /// Whether the step writes or pauses, and waits for nothing.
    pub open spec fn is_write(self) -> bool {
        self is Store || self is Modify || self is Spin
    }

    /// What the step makes of registers that remember what is stored.
    pub open spec fn effect(self, registers: Memory) -> Memory {
        match self {
            Step::Store { addr, value } => registers.insert(addr, value),
            Step::Modify { addr, field } => registers.insert(addr, field.modified(registers[addr])),
            _ => registers,
        }
    }
}

/// What the steps of a plan from `from` on make of such registers, each
/// applied in its turn.
pub open spec fn effect(plan: Seq<Step>, from: int, registers: Memory) -> Memory
    decreases plan.len() - from,
{
    if 0 <= from < plan.len() {
        effect(plan, from + 1, plan[from].effect(registers))
    } else {
        registers
    }
}

/// A plan of stores and pauses asks for its steps in order, one access each,
/// whatever the accesses return.
pub proof fn lemma_plain_steps_are_asked_in_order(plan: Seq<Step>, reply: u32, replies: Seq<u32>)
    requires
        forall|i: int| 0 <= i < plan.len() ==> (#[trigger] plan[i]).is_plain(),
        replies.len() >= plan.len(),
        plan.len() <= usize::MAX,
    ensures
        asked(plan, Cursor::start(), reply, replies) == plan.map_values(|step: Step| step.opening()),
{
    let all = plan.map_values(|step: Step| step.opening());
    if plan.len() == 0 {
        assert(asked(plan, Cursor::start(), reply, replies) =~= all);
    } else {
        lemma_plain_steps_from(plan, 0, replies[0], replies.skip(1));
        assert(asked(plan, Cursor::start(), reply, replies) =~= all);
    }
}

/// The same from the step at `k` on, once its access has been asked for.
proof fn lemma_plain_steps_from(plan: Seq<Step>, k: int, reply: u32, replies: Seq<u32>)
    requires
        forall|i: int| 0 <= i < plan.len() ==> (#[trigger] plan[i]).is_plain(),
        0 <= k < plan.len(),
        replies.len() + k + 1 >= plan.len(),
        plan.len() <= usize::MAX,
    ensures
        asked(plan, Cursor { index: k as usize, stage: Stage::Asked, word: None }, reply, replies)
            == plan.map_values(|step: Step| step.opening()).skip(k + 1),
    decreases plan.len() - k,
{
    let all = plan.map_values(|step: Step| step.opening());
    let at = Cursor { index: k as usize, stage: Stage::Asked, word: None };
    assert(plan[k].is_plain());
    if k + 1 < plan.len() {
        lemma_plain_steps_from(plan, k + 1, replies[0], replies.skip(1));
        assert(all.skip(k + 1) =~= seq![all[k + 1]] + all.skip(k + 2));
    } else {
        assert(asked(plan, at, reply, replies) =~= all.skip(k + 1));
    }
}

/// On registers that remember what is stored, a plan of stores, modifies and
/// pauses leaves what its steps make of them, each applied in its turn. Two
/// accesses for each step are enough.
pub proof fn lemma_writes_take_effect_in_order(plan: Seq<Step>, reply: u32, registers: Memory, fuel: nat)
    requires
        forall|i: int| 0 <= i < plan.len() ==> (#[trigger] plan[i]).is_write(),
        fuel >= 2 * plan.len(),
        plan.len() <= usize::MAX,
    ensures
        run(plan, Cursor::start(), reply, registers, fuel) == Some(effect(plan, 0, registers)),
{
    if plan.len() > 0 {
        lemma_writes_from(plan, 0, registers, (fuel - 1) as nat);
    }
}

/// The same from the step at `k` on, once its first access has been asked
/// for and performed.
proof fn lemma_writes_from(plan: Seq<Step>, k: int, registers: Memory, fuel: nat)
    requires
        forall|i: int| 0 <= i < plan.len() ==> (#[trigger] plan[i]).is_write(),
        0 <= k < plan.len(),
        fuel + 1 >= 2 * (plan.len() - k),
        plan.len() <= usize::MAX,
    ensures
        ({
            let (next, word) = perform(registers, plan[k].opening());
            run(plan, Cursor { index: k as usize, stage: Stage::Asked, word: None }, word, next, fuel)
                == Some(effect(plan, k, registers))
        }),
    decreases plan.len() - k,
{
    let at = Cursor { index: k as usize, stage: Stage::Asked, word: None };
    let (next, word) = perform(registers, plan[k].opening());
    let made = plan[k].effect(registers);
    let onward = Cursor { index: (k + 1) as usize, stage: Stage::Asked, word: None };
    assert(plan[k].is_write());
    assert(effect(plan, k, registers) == effect(plan, k + 1, made));
    if k + 1 < plan.len() {
        assert(enter(plan, k + 1, None) == (onward, Poll::<Option<u32>>::Pending(plan[k + 1].opening())));
    } else {
        assert(enter(plan, k + 1, None).1 == Poll::<Option<u32>>::Ready(None));
        assert(effect(plan, k + 1, made) == made);
    }
    match plan[k] {
        Step::Modify { addr, field } => {
            let settling = Cursor { stage: Stage::Settling, ..at };
            assert(after(plan, at, word) == (
                settling,
                Poll::<Option<u32>>::Pending(Access::Store { addr, value: field.modified(word) }),
            ));
            assert(run(plan, at, word, next, fuel) == run(plan, settling, 0, made, (fuel - 1) as nat));
            assert(after(plan, settling, 0) == enter(plan, k + 1, None));
            if k + 1 < plan.len() {
                lemma_writes_from(plan, k + 1, made, (fuel - 2) as nat);
            }
        },
        _ => {
            assert(next == made);
            assert(after(plan, at, word) == enter(plan, k + 1, None));
            if k + 1 < plan.len() {
                lemma_writes_from(plan, k + 1, made, (fuel - 1) as nat);
            }
        },
    }
}

} // verus!
