//! What a device driver offers, what a board's device manager offers, and
//! how a kernel brings the drivers of a board up.

use vstd::prelude::*;
use crate::bus::Poll;

verus! {

/// A device driver.
pub trait DeviceDriver {
    /// A name that tells which device the driver is for.
    fn compatible(&self) -> &'static str;

    /// Brings the device up, one bus access at a time: `None` for `reply`
    /// starts, `Some` of what the last access returned resumes. The result is
    /// `Ok`, or `Err` with the reason. A driver that has nothing to bring up
    /// keeps this version, which is done at once.
    fn init(&mut self, reply: Option<u32>) -> (out: Poll<Result<(), &'static str>>)
        default_ensures
            out == Poll::<Result<(), &'static str>>::Ready(Ok(())),
    {
        Poll::Ready(Ok(()))
    }
}

/// The device manager of a board: the registry of its drivers, in the order
/// in which they have to come up, and what is left to do once all are up.
///
/// The registry lends its drivers for reading. What changes a driver goes
/// through the manager, which owns them.
pub trait DeviceManager: Sized {
    /// Whether the registry may hold `count` drivers. A manager that says
    /// nothing of its registry keeps this version, which allows any number.
    open spec fn holds(self, count: nat) -> bool {
        true
    }

    /// Whether a call of `init_device_driver` with `index` and `reply` may
    /// take the manager from `self` to `after` and answer `out`. A manager
    /// that says nothing of its drivers keeps this version, which allows
    /// whatever happens.
    open spec fn brings_up(
        self,
        index: usize,
        reply: Option<u32>,
        after: Self,
        out: Poll<Result<(), &'static str>>,
    ) -> bool {
        true
    }

    /// Whether a call of `post_device_driver_init` with `reply` may take the
    /// manager from `self` to `after` and answer `out`. A manager that says
    /// nothing of it keeps this version, which allows whatever happens.
    open spec fn finishes(self, reply: Option<u32>, after: Self, out: Poll<()>) -> bool {
        true
    }

    /// The drivers of the registry, in order.
    fn all_device_drivers(&self) -> (drivers: Vec<&dyn DeviceDriver>)
        ensures
            self.holds(drivers@.len()),
    ;

    /// Calls `init` of the driver at `index` of the registry.
    fn init_device_driver(&mut self, index: usize, reply: Option<u32>) -> (out: Poll<Result<(), &'static str>>)
        ensures
            (*old(self)).brings_up(index, reply, *final(self), out),
    ;

    /// Does what is left to do once every driver is up, one bus access at a
    /// time: `None` for `reply` starts, `Some` of what the last access
    /// returned resumes.
    fn post_device_driver_init(&mut self, reply: Option<u32>) -> (out: Poll<()>)
        ensures
            (*old(self)).finishes(reply, *final(self), out),
    ;
}

/// Why a board did not come up: which driver failed, and the reason it gave.
#[derive(Clone, Copy, PartialEq, Eq, Debug)]
pub struct InitError {
    /// The failing driver's place in the registry.
    pub index: usize,
    /// The failing driver's name.
    pub driver: &'static str,
    /// The reason the driver gave.
    pub reason: &'static str,
}

/// How far a board has come up.
#[derive(Clone, Copy, PartialEq, Eq, Debug)]
pub enum BootStage {
    /// The drivers before `next` are up; the one at `next` is about to be
    /// brought up, or is in the middle of it.
    Drivers { next: usize },
    /// Every driver is up; what is left to do is about to be done, or under
    /// way.
    PostInit,
    /// The board is up.
    Up,
    /// A driver has failed. Nothing more is done.
    Failed { error: InitError },
}

/// One call that a bring-up has made to a device manager: what it handed in,
/// what came back, and the manager before and after it.
pub enum Call<M> {
    /// `init_device_driver` for the driver at `index`, whose name is `name`.
    Init {
        index: usize,
        name: &'static str,
        reply: Option<u32>,
        outcome: Poll<Result<(), &'static str>>,
        before: M,
        after: M,
    },
    /// `post_device_driver_init`.
    PostInit { reply: Option<u32>, answer: Poll<()>, before: M, after: M },
}

/// The bring-up of a board.
pub struct BootState<M> {
    /// How far the board has come up.
    pub stage: BootStage,
    /// Every call of `init_device_driver` and of `post_device_driver_init`
    /// that the bring-up has made, oldest first.
    pub calls: Seq<Call<M>>,
    /// The names of the drivers, as the registry gave them to the last step
    /// that asked for them.
    pub registry: Seq<&'static str>,
}

/// The bring-up of a board.
pub struct KernelInit<M> {
    stage: BootStage,
    calls: Ghost<Seq<Call<M>>>,
    registry: Ghost<Seq<&'static str>>,
}

impl<M> View for KernelInit<M> {
    type V = BootState<M>;

    closed spec fn view(&self) -> BootState<M> {
        BootState { stage: self.stage, calls: self.calls@, registry: self.registry@ }
    }
}

impl BootStage {
    /// The place in a registry of `count` drivers at which the stage stands:
    /// `count` itself once every driver is up.
    pub open spec fn place(self, count: nat) -> nat {
        match self {
            BootStage::Drivers { next } => if next < count {
                next as nat
            } else {
                count
            },
            _ => count,
        }
    }
}

impl<M: DeviceManager> Call<M> {
    /// The manager as the call found it.
    pub open spec fn before(self) -> M {
        match self {
            Call::Init { before, .. } => before,
            Call::PostInit { before, .. } => before,
        }
    }

    /// The manager as the call left it.
    pub open spec fn after(self) -> M {
        match self {
            Call::Init { after, .. } => after,
            Call::PostInit { after, .. } => after,
        }
    }

    /// What the call was handed.
    pub open spec fn handed(self) -> Option<u32> {
        match self {
            Call::Init { reply, .. } => reply,
            Call::PostInit { reply, .. } => reply,
        }
    }

    /// Whether the call went as the manager says that such a call goes.
    pub open spec fn went(self) -> bool {
        match self {
            Call::Init { index, reply, outcome, before, after, .. } => before.brings_up(
                index,
                reply,
                after,
                outcome,
            ),
            Call::PostInit { reply, answer, before, after } => before.finishes(reply, after, answer),
        }
    }

    /// The place in a registry of `count` drivers that the call is for:
    /// that of its driver, and `count` for `post_device_driver_init`.
    pub open spec fn place(self, count: nat) -> nat {
        match self {
            Call::Init { index, .. } => index as nat,
            Call::PostInit { .. } => count,
        }
    }
}

/// Whether the call at `k` is in its place among the calls of one step of a
/// bring-up that stands at place `first` of a registry with the names
/// `registry`, finds the manager as `manager` and is given `reply`.
///
/// - The call at `k` is for the driver at `first + k`, under the name that
///   the registry gives it, or, past the last driver, the one call of
///   `post_device_driver_init`.
/// - The first call carries `reply`, every later one starts afresh.
/// - The first call finds the manager as the step found it, every later one
///   as the call before left it; and the call went as the manager says.
/// - Only a driver that has come up is followed by another call.
pub open spec fn in_place<M: DeviceManager>(
    calls: Seq<Call<M>>,
    k: int,
    first: nat,
    registry: Seq<&'static str>,
    manager: M,
    reply: Option<u32>,
) -> bool {
    let count = registry.len();
    &&& first + k <= count
    &&& match calls[k] {
        Call::Init { index, name, .. } => {
            &&& first + k < count
            &&& index == first + k
            &&& name == registry[first + k]
        },
        Call::PostInit { .. } => first + k == count,
    }
    &&& calls[k].handed() == if k == 0 {
        reply
    } else {
        None
    }
    &&& calls[k].before() == if k == 0 {
        manager
    } else {
        calls[k - 1].after()
    }
    &&& calls[k].went()
    &&& k + 1 < calls.len() ==> calls[k] matches Call::Init { outcome: Poll::Ready(Ok(_)), .. }
}

/// Whether `calls` are the calls of one step of a bring-up that stands at
/// place `first` of a registry with the names `registry`, finds the manager
/// as `manager` and is given `reply`: whether each of them is [`in_place`].
pub open spec fn in_order<M: DeviceManager>(
    calls: Seq<Call<M>>,
    first: nat,
    registry: Seq<&'static str>,
    manager: M,
    reply: Option<u32>,
) -> bool {
    forall|k: int| 0 <= k < calls.len() ==> #[trigger] in_place(calls, k, first, registry, manager, reply)
}

/// How a step ends after `init` of the driver at `index`, whose name is
/// `name`, has answered `outcome`: the stage and the step's answer, or `None`
/// where the step goes on.
///
/// - An access that the driver needs is passed on, and the stage stays at
///   the driver.
/// - A driver that fails ends the bring-up, with its place, its name and its
///   reason.
/// - After a driver that has come up the step goes on.
pub open spec fn init_ends(index: usize, name: &'static str, outcome: Poll<Result<(), &'static str>>) -> Option<
    (BootStage, Poll<Result<(), InitError>>),
> {
    match outcome {
        Poll::Pending(access) => Some((BootStage::Drivers { next: index }, Poll::Pending(access))),
        Poll::Ready(Err(reason)) => {
            let error = InitError { index, driver: name, reason };
            Some((BootStage::Failed { error }, Poll::Ready(Err(error))))
        },
        Poll::Ready(Ok(_)) => None,
    }
}

/// How a step ends after `post_device_driver_init` has answered `answer`:
/// an access that it needs is passed on; once it is complete, the board is
/// up.
pub open spec fn post_init_ends(answer: Poll<()>) -> (BootStage, Poll<Result<(), InitError>>) {
    match answer {
        Poll::Pending(access) => (BootStage::PostInit, Poll::Pending(access)),
        Poll::Ready(_) => (BootStage::Up, Poll::Ready(Ok(()))),
    }
}

/// Whether a step whose last call was `last` ends at `stage` with `out`, as
/// [`init_ends`] and [`post_init_ends`] say.
pub open spec fn settles<M>(last: Call<M>, stage: BootStage, out: Poll<Result<(), InitError>>) -> bool {
    match last {
        Call::Init { index, name, outcome, .. } => init_ends(index, name, outcome) == Some((stage, out)),
        Call::PostInit { answer, .. } => post_init_ends(answer) == (stage, out),
    }
}

/// Decides how a step of a bring-up ends after `init` of the driver at
/// `index`, whose name is `name`, has answered `outcome`.
pub fn after_init(index: usize, name: &'static str, outcome: Poll<Result<(), &'static str>>) -> (end: Option<
    (BootStage, Poll<Result<(), InitError>>),
>)
    ensures
        end == init_ends(index, name, outcome),
{
    match outcome {
        Poll::Pending(access) => Some((BootStage::Drivers { next: index }, Poll::Pending(access))),
        Poll::Ready(Err(reason)) => {
            let error = InitError { index, driver: name, reason };
            Some((BootStage::Failed { error }, Poll::Ready(Err(error))))
        },
        Poll::Ready(Ok(_)) => None,
    }
}

/// Decides how a step of a bring-up ends after `post_device_driver_init` has
/// answered `answer`.
pub fn after_post_init(answer: Poll<()>) -> (end: (BootStage, Poll<Result<(), InitError>>))
    ensures
        end == post_init_ends(answer),
{
    match answer {
        Poll::Pending(access) => (BootStage::PostInit, Poll::Pending(access)),
        Poll::Ready(_) => (BootStage::Up, Poll::Ready(Ok(()))),
    }
}

/// What one step of a bring-up does: with `before` for the state it finds,
/// `manager` for the manager it finds and `reply` for what it is given, the
/// state `after` it, the manager `managed` that it leaves, and its answer
/// `out`.
///
/// A bring-up that is over, either way, makes no call and repeats its result.
/// Else the step asks the registry for its drivers, of which there are as
/// many as the manager says that it may hold, makes at least one call, and
/// adds its calls to the record; the calls are [`in_order`], the manager is
/// left as the last call left it, and the last call [`settles`] the step.
pub open spec fn stepped<M: DeviceManager>(
    before: BootState<M>,
    manager: M,
    reply: Option<u32>,
    after: BootState<M>,
    managed: M,
    out: Poll<Result<(), InitError>>,
) -> bool {
    match before.stage {
        BootStage::Up => {
            &&& after == before
            &&& managed == manager
            &&& out == Poll::<Result<(), InitError>>::Ready(Ok(()))
        },
        BootStage::Failed { error } => {
            &&& after == before
            &&& managed == manager
            &&& out == Poll::<Result<(), InitError>>::Ready(Err(error))
        },
        _ => {
            let calls = after.calls.skip(before.calls.len() as int);
            &&& manager.holds(after.registry.len())
            &&& after.calls.len() > before.calls.len()
            &&& after.calls.take(before.calls.len() as int) == before.calls
            &&& in_order(calls, before.stage.place(after.registry.len()), after.registry, manager, reply)
            &&& managed == calls.last().after()
            &&& settles(calls.last(), after.stage, out)
        },
    }
}

/// A call that is in its place after calls that are in order leaves them in
/// order: `earlier` and `now` are the record before and after the call, and
/// `record` is the part of both that older steps have made.
proof fn lemma_one_more_call<M: DeviceManager>(
    record: Seq<Call<M>>,
    earlier: Seq<Call<M>>,
    now: Seq<Call<M>>,
    first: nat,
    registry: Seq<&'static str>,
    manager: M,
    reply: Option<u32>,
)
    requires
        earlier.len() >= record.len(),
        earlier.take(record.len() as int) == record,
        now == earlier.push(now.last()),
        in_order(earlier.skip(record.len() as int), first, registry, manager, reply),
        earlier.len() > record.len() ==> earlier.last() matches Call::Init { outcome: Poll::Ready(Ok(_)), .. },
        ({
            let k = earlier.len() - record.len();
            &&& match now.last() {
                Call::Init { index, name, .. } => {
                    &&& first + k < registry.len()
                    &&& index == first + k
                    &&& name == registry[first + k]
                },
                Call::PostInit { .. } => first + k == registry.len(),
            }
            &&& now.last().handed() == if k == 0 {
                reply
            } else {
                None
            }
            &&& now.last().before() == if k == 0 {
                manager
            } else {
                earlier.last().after()
            }
            &&& now.last().went()
        }),
    ensures
        now.take(record.len() as int) == record,
        in_order(now.skip(record.len() as int), first, registry, manager, reply),
        now.skip(record.len() as int).last() == now.last(),
{
    let before = earlier.skip(record.len() as int);
    let after = now.skip(record.len() as int);
    assert(now.take(record.len() as int) =~= earlier.take(record.len() as int));
    assert(after =~= before.push(now.last()));
    assert forall|k: int| 0 <= k < after.len() implies #[trigger] in_place(
        after,
        k,
        first,
        registry,
        manager,
        reply,
    ) by {
        if k < before.len() {
            assert(in_place(before, k, first, registry, manager, reply));
            assert(after[k] == before[k]);
            assert(before.len() > 0 && before.last() == earlier.last());
            if k > 0 {
                assert(after[k - 1] == before[k - 1]);
            }
        } else if k > 0 {
            assert(after[k - 1] == before[k - 1]);
            assert(before[k - 1] == earlier.last());
        }
    }
}

impl<M: DeviceManager> KernelInit<M> {
    /// A bring-up that has not begun: the first driver is next, and no call
    /// has been made.
    pub fn new() -> (boot: Self)
        ensures
            boot@ == (BootState::<M> {
                stage: BootStage::Drivers { next: 0 },
                calls: Seq::empty(),
                registry: Seq::empty(),
            }),
    {
        KernelInit {
            stage: BootStage::Drivers { next: 0 },
            calls: Ghost(Seq::empty()),
            registry: Ghost(Seq::empty()),
        }
    }

    /// How far the board has come up.
    pub fn stage(&self) -> (stage: BootStage)
        ensures
            stage == self@.stage,
    {
        self.stage
    }
}

/// The names of the drivers of a registry, in order.
fn names_of<M: DeviceManager>(manager: &M) -> (names: Vec<&'static str>)
    ensures
        manager.holds(names@.len()),
{
    let drivers = manager.all_device_drivers();
    let mut names: Vec<&'static str> = Vec::new();
    let mut i: usize = 0;
    while i < drivers.len()
        invariant
            i <= drivers.len(),
            names@.len() == i,
        decreases drivers.len() - i,
    {
        names.push(drivers[i].compatible());
        i = i + 1;
    }
    names
}

/// Brings a board up, one bus access at a time: `None` for `reply` starts
/// the driver that is next, `Some` of what the last access returned resumes
/// it.
///
/// The drivers are brought up in the order of the registry. A driver that
/// comes up is followed, with the same call, by the next one. The first
/// driver that fails ends the bring-up: the answer names it and its reason,
/// no later driver is called, and neither is `post_device_driver_init`. Once
/// every driver is up, `post_device_driver_init` runs; when it is complete,
/// so is the bring-up.
#[verifier::loop_isolation(false)]
pub fn kernel_init<M: DeviceManager>(boot: &mut KernelInit<M>, manager: &mut M, reply: Option<u32>) -> (out: Poll<
    Result<(), InitError>,
>)
    ensures
        stepped(old(boot)@, *old(manager), reply, final(boot)@, *final(manager), out),
{
    let ghost record = boot.calls@;
    let ghost found = *manager;
    let mut handed: Option<u32> = reply;
    match boot.stage {
        BootStage::Up => {
            return Poll::Ready(Ok(()));
        },
        BootStage::Failed { error } => {
            return Poll::Ready(Err(error));
        },
        _ => {},
    }
    let names = names_of(manager);
    let ghost registry = names@;
    let ghost first = old(boot)@.stage.place(registry.len());
    proof {
        boot.registry@ = registry;
    }
    match boot.stage {
        BootStage::Drivers { next: from } => {
            let mut next: usize = from;
            while next < names.len()
                invariant
                    boot.registry@ == registry,
                    boot.calls@.len() >= record.len(),
                    boot.calls@.take(record.len() as int) == record,
                    in_order(boot.calls@.skip(record.len() as int), first, registry, found, reply),
                    boot.calls@.len() > record.len() ==> boot.calls@.last() matches Call::Init {
                        outcome: Poll::Ready(Ok(_)),
                        ..
                    },
                    (if next < registry.len() {
                        next as nat
                    } else {
                        registry.len()
                    }) == first + (boot.calls@.len() - record.len()),
                    handed == if boot.calls@.len() == record.len() {
                        reply
                    } else {
                        None
                    },
                    *manager == if boot.calls@.len() == record.len() {
                        found
                    } else {
                        boot.calls@.last().after()
                    },
                decreases names.len() - next,
            {
                let ghost so_far = boot.calls@;
                let ghost before = *manager;
                let name = names[next];
                let outcome = manager.init_device_driver(next, handed);
                proof {
                    boot.calls@ = so_far.push(
                        Call::Init { index: next, name, reply: handed, outcome, before, after: *manager },
                    );
                    lemma_one_more_call(record, so_far, boot.calls@, first, registry, found, reply);
                }
                match after_init(next, name, outcome) {
                    Some((stage, out)) => {
                        boot.stage = stage;
                        return out;
                    },
                    None => {
                        next = next + 1;
                        handed = None;
                    },
                }
            }
        },
        _ => {},
    }
    let ghost so_far = boot.calls@;
    let ghost before = *manager;
    let answer = manager.post_device_driver_init(handed);
    proof {
        boot.calls@ = so_far.push(Call::PostInit { reply: handed, answer, before, after: *manager });
        assert(so_far.take(record.len() as int) =~= record);
        lemma_one_more_call(record, so_far, boot.calls@, first, registry, found, reply);
    }
    let (stage, out) = after_post_init(answer);
    boot.stage = stage;
    out
}

impl<M: DeviceManager> BootState<M> {
    /// The furthest place in a registry of `count` drivers that the
    /// bring-up has come to: that of the failing driver once one has failed.
    pub open spec fn reach(self, count: nat) -> nat {
        match self.stage {
            BootStage::Failed { error } => error.index as nat,
            stage => stage.place(count),
        }
    }

    /// Whether the record shows a bring-up that has kept to the registry: no
    /// call is for a place beyond the one that the bring-up has come to, and
    /// a driver that has failed is one of the registry.
    pub open spec fn orderly(self, count: nat) -> bool {
        &&& forall|k: int| 0 <= k < self.calls.len() ==> (#[trigger] self.calls[k]).place(count) <= self.reach(count)
        &&& self.stage matches BootStage::Failed { error } ==> error.index < count
    }
}

/// A bring-up keeps to the registry: on a registry that keeps its size, a
/// step of an orderly bring-up leaves it orderly. So whatever has been
/// called so far lies at or before the place that the bring-up has come to.
pub proof fn lemma_bring_up_stays_orderly<M: DeviceManager>(
    before: BootState<M>,
    manager: M,
    reply: Option<u32>,
    after: BootState<M>,
    managed: M,
    out: Poll<Result<(), InitError>>,
)
    requires
        before.orderly(after.registry.len()),
        stepped(before, manager, reply, after, managed, out),
    ensures
        after.orderly(after.registry.len()),
        before.reach(after.registry.len()) <= after.reach(after.registry.len()),
{
    let count = after.registry.len();
    if !(before.stage is Up) && !(before.stage is Failed) {
        let kept = before.calls.len() as int;
        let calls = after.calls.skip(kept);
        let first = before.stage.place(count);
        let last = calls.len() - 1;
        assert(in_place(calls, last, first, after.registry, manager, reply));
        assert(calls.last() == calls[last]);
        assert forall|k: int| 0 <= k < after.calls.len() implies (#[trigger] after.calls[k]).place(count)
            <= after.reach(count) by {
            if k < kept {
                assert(after.calls[k] == after.calls.take(kept)[k]);
            } else {
                assert(in_place(calls, k - kept, first, after.registry, manager, reply));
                assert(after.calls[k] == calls[k - kept]);
            }
        }
    }
}

/// The first failure ends a bring-up. Where a step of an orderly bring-up
/// answers with an error, the record holds no call for a driver after the
/// failing one and none of `post_device_driver_init`; and every later step
/// makes no call at all, leaves the manager alone and repeats the error.
pub proof fn lemma_failure_ends_the_bring_up<M: DeviceManager>(
    before: BootState<M>,
    manager: M,
    reply: Option<u32>,
    after: BootState<M>,
    managed: M,
    out: Poll<Result<(), InitError>>,
    error: InitError,
)
    requires
        before.orderly(after.registry.len()),
        stepped(before, manager, reply, after, managed, out),
        out == Poll::<Result<(), InitError>>::Ready(Err(error)),
    ensures
        after.stage == (BootStage::Failed { error }),
        forall|k: int|
            0 <= k < after.calls.len() ==> (#[trigger] after.calls[k] matches Call::Init { index, .. } && index
                <= error.index),
        forall|again: Option<u32>, later: BootState<M>, left: M, answer: Poll<Result<(), InitError>>|
            stepped(after, managed, again, later, left, answer) ==> later == after && left == managed && answer
                == out,
{
    let count = after.registry.len();
    lemma_bring_up_stays_orderly(before, manager, reply, after, managed, out);
    if !(before.stage is Failed) {
        let calls = after.calls.skip(before.calls.len() as int);
        assert(settles(calls.last(), after.stage, out));
    }
    assert forall|k: int| 0 <= k < after.calls.len() implies (#[trigger] after.calls[k] matches Call::Init {
        index,
        ..
    } && index <= error.index) by {
        assert(after.calls[k].place(count) <= after.reach(count));
    }
}

} // verus!
