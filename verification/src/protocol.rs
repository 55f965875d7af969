//! The checkout and release protocol as a transition system.
//!
//! The pool itself only ever sees one caller at a time: it is handed a permit
//! and probes the slots. What makes that safe is an agreement between all
//! callers, the admission semaphore and the slot locks. This module writes
//! the agreement down as a state machine over plain values and proves what
//! the pool relies on:
//!
//! * a caller that holds a permit always finds a free slot, although its
//!   scan is interleaved with the scans and releases of other callers;
//! * no slot is ever claimed by two callers at once;
//! * never more callers are past the semaphore than the pool has slots, and
//!   waiting callers are served oldest first;
//! * a caller that gives up, while it waits or after it was let through,
//!   leaves neither a permit nor a lock behind;
//! * the guarantee that a scan succeeds is lost if a permit is given back
//!   before the lock it was paired with.
//!
//! The semaphore appears as a permit counter with a first-in-first-out queue
//! and each lock as a flag; how the two are implemented is not modelled.
//!
//! The pool contributes its part of the agreement in code: its semaphore is
//! created with one permit per slot, a checkout asks for exactly one permit,
//! the scan starts at the first slot and takes the first lock it gets, and a
//! handler gives its lock back before its permit.
use crate::counting::count;
use crate::pool::PoolView;
use vstd::prelude::*;

verus! {

/// Where one caller stands in the protocol.
pub enum Phase {
    /// Not taking part: has no permit, no lock and no request queued.
    Idle,
    /// Has asked for a permit and is suspended in the queue.
    Waiting,
    /// Holds a permit and is about to probe the slot at this position.
    Scanning(nat),
    /// Holds a permit and the lock of the slot at this position: a live
    /// handler.
    Holding(nat),
    /// Has given the lock back and still holds the permit.
    Releasing,
    /// Has given the permit back and still holds the lock of the slot at
    /// this position. Only an out-of-order release leads here.
    Lingering(nat),
}

/// The shared state: the locks, the semaphore and every caller's phase.
pub struct State {
    /// For each slot, whether its lock is taken.
    pub locked: Seq<bool>,
    /// Permits the semaphore has left.
    pub permits: nat,
    /// Callers suspended on the semaphore, oldest first.
    pub queue: Seq<nat>,
    /// The phase of each caller.
    pub phases: Seq<Phase>,
}

/// One atomic action of one party.
pub enum Step {
    /// This caller asks for a permit and joins the queue.
    Request(nat),
    /// This caller gives up waiting and leaves the queue.
    Cancel(nat),
    /// The semaphore hands a permit to the oldest waiting caller, which
    /// starts scanning at the first slot.
    Grant,
    /// This caller, let through by the semaphore, gives up before it has
    /// claimed a slot and gives its permit back: it dropped its request after
    /// the permit was assigned to it, or dropped the permit itself.
    Abandon(nat),
    /// This caller probes the slot under its cursor: it takes the lock if it
    /// is free and moves on to the next slot otherwise.
    Probe(nat),
    /// This caller gives back the lock it holds.
    Unlock(nat),
    /// This caller, having given back its lock, gives back its permit.
    Return(nat),
    /// Out of order: this caller gives back its permit while it still holds
    /// its lock.
    ReturnEarly(nat),
    /// Out of order: this caller gives back the lock it kept past its permit.
    UnlockLate(nat),
}

impl Step {
    /// Whether the step belongs to the protocol proper, in which a lock is
    /// always given back before its permit.
    pub open spec fn orderly(self) -> bool {
        !(self is ReturnEarly) && !(self is UnlockLate)
    }
}

/// The predicate that holds of a caller past the semaphore: one that has a
/// permit.
pub open spec fn admitted() -> spec_fn(Phase) -> bool {
    |phase: Phase| phase is Scanning || phase is Holding || phase is Releasing
}

/// The predicate that holds of a caller with a live handler.
pub open spec fn holding() -> spec_fn(Phase) -> bool {
    |phase: Phase| phase is Holding
}

/// The predicate that holds of a caller that occupies, or may still come to
/// occupy, a slot at position `from` or later: it holds the lock of such a
/// slot, or its scan has reached such a slot.
pub open spec fn engaged(from: nat) -> spec_fn(Phase) -> bool {
    |phase: Phase|
        match phase {
            Phase::Scanning(cursor) => cursor >= from,
            Phase::Holding(slot) => slot >= from,
            _ => false,
        }
}

/// Where `caller` stands in `queue`.
pub open spec fn position(queue: Seq<nat>, caller: nat) -> int {
    choose|i: int| 0 <= i < queue.len() && queue[i] == caller
}

impl State {
    /// Number of slots.
    pub open spec fn size(self) -> nat {
        self.locked.len()
    }

    /// Number of callers.
    pub open spec fn callers(self) -> nat {
        self.phases.len()
    }

    /// Number of live handlers.
    pub open spec fn live_handlers(self) -> nat {
        count(self.phases, holding())
    }

    /// The state of a fresh pool of `size` slots before any of `callers`
    /// callers has done anything: all locks free, all permits available.
    pub open spec fn init(size: nat, callers: nat) -> State {
        State {
            locked: Seq::new(size, |k: int| false),
            permits: size,
            queue: Seq::empty(),
            phases: Seq::new(callers, |c: int| Phase::Idle),
        }
    }

    /// The state in which `callers` callers meet a pool that was just built.
    pub open spec fn fresh(pool: PoolView, callers: nat) -> State {
        State::init(pool.slots.len(), callers)
    }

    /// Whether `step` can be taken in this state.
    pub open spec fn enabled(self, step: Step) -> bool {
        match step {
            Step::Request(c) => c < self.callers() && self.phases[c as int] is Idle,
            Step::Cancel(c) => c < self.callers() && self.phases[c as int] is Waiting,
            Step::Grant => self.permits > 0 && self.queue.len() > 0 && self.queue[0]
                < self.callers(),
            Step::Abandon(c) => c < self.callers() && self.phases[c as int] is Scanning,
            Step::Probe(c) => c < self.callers() && self.phases[c as int] is Scanning
                && self.phases[c as int]->Scanning_0 < self.size(),
            Step::Unlock(c) => c < self.callers() && self.phases[c as int] is Holding
                && self.phases[c as int]->Holding_0 < self.size(),
            Step::Return(c) => c < self.callers() && self.phases[c as int] is Releasing,
            Step::ReturnEarly(c) => c < self.callers() && self.phases[c as int] is Holding,
            Step::UnlockLate(c) => c < self.callers() && self.phases[c as int] is Lingering
                && self.phases[c as int]->Lingering_0 < self.size(),
        }
    }

    /// The state after `step`.
    pub open spec fn apply(self, step: Step) -> State {
        match step {
            Step::Request(c) => State {
                queue: self.queue.push(c),
                phases: self.phases.update(c as int, Phase::Waiting),
                ..self
            },
            Step::Cancel(c) => State {
                queue: self.queue.remove(position(self.queue, c)),
                phases: self.phases.update(c as int, Phase::Idle),
                ..self
            },
            Step::Grant => State {
                permits: (self.permits - 1) as nat,
                queue: self.queue.drop_first(),
                phases: self.phases.update(self.queue[0] as int, Phase::Scanning(0)),
                ..self
            },
            Step::Abandon(c) => State {
                permits: self.permits + 1,
                phases: self.phases.update(c as int, Phase::Idle),
                ..self
            },
            Step::Probe(c) => {
                let cursor = self.phases[c as int]->Scanning_0;
                if self.locked[cursor as int] {
                    State {
                        phases: self.phases.update(c as int, Phase::Scanning(cursor + 1)),
                        ..self
                    }
                } else {
                    State {
                        locked: self.locked.update(cursor as int, true),
                        phases: self.phases.update(c as int, Phase::Holding(cursor)),
                        ..self
                    }
                }
            },
            Step::Unlock(c) => State {
                locked: self.locked.update(self.phases[c as int]->Holding_0 as int, false),
                phases: self.phases.update(c as int, Phase::Releasing),
                ..self
            },
            Step::Return(c) => State {
                permits: self.permits + 1,
                phases: self.phases.update(c as int, Phase::Idle),
                ..self
            },
            Step::ReturnEarly(c) => State {
                permits: self.permits + 1,
                phases: self.phases.update(
                    c as int,
                    Phase::Lingering(self.phases[c as int]->Holding_0),
                ),
                ..self
            },
            Step::UnlockLate(c) => State {
                locked: self.locked.update(self.phases[c as int]->Lingering_0 as int, false),
                phases: self.phases.update(c as int, Phase::Idle),
                ..self
            },
        }
    }

    /// Every permit is either left in the semaphore or with exactly one
    /// caller past it, and nobody holds a lock without a permit.
    pub open spec fn permits_accounted(self) -> bool {
        &&& self.permits + count(self.phases, admitted()) == self.size()
        &&& forall|c: int| 0 <= c < self.phases.len() ==> !(#[trigger] self.phases[c] is Lingering)
    }

    /// A lock is taken exactly when some caller holds it, and no two callers
    /// hold the same one.
    pub open spec fn locks_paired(self) -> bool {
        &&& forall|c: int|
            0 <= c < self.phases.len() && #[trigger] self.phases[c] is Holding ==> {
                &&& self.phases[c]->Holding_0 < self.size()
                &&& self.locked[self.phases[c]->Holding_0 as int]
            }
        &&& forall|c: int, d: int|
            0 <= c < self.phases.len() && 0 <= d < self.phases.len() && c != d
                && #[trigger] self.phases[c] is Holding && #[trigger] self.phases[d] is Holding
                ==> self.phases[c]->Holding_0 != self.phases[d]->Holding_0
        &&& forall|k: int|
            0 <= k < self.locked.len() && #[trigger] self.locked[k] ==> exists|c: int|
                0 <= c < self.phases.len() && #[trigger] self.phases[c] == Phase::Holding(k as nat)
    }

    /// From every position on, the slots that are left suffice for the
    /// callers that hold one of them or whose scan has come that far.
    pub open spec fn slots_suffice(self) -> bool {
        forall|from: nat|
            from <= self.size() ==> #[trigger] count(self.phases, engaged(from)) + from
                <= self.size()
    }

    /// The queue holds exactly the waiting callers, each once.
    pub open spec fn queue_matches(self) -> bool {
        &&& forall|i: int|
            0 <= i < self.queue.len() ==> #[trigger] self.queue[i] < self.callers()
                && self.phases[self.queue[i] as int] is Waiting
        &&& forall|i: int, j: int|
            0 <= i < j < self.queue.len() ==> #[trigger] self.queue[i] != #[trigger] self.queue[j]
        &&& forall|c: int|
            0 <= c < self.phases.len() && #[trigger] self.phases[c] is Waiting ==> exists|i: int|
                0 <= i < self.queue.len() && #[trigger] self.queue[i] == c
    }

    /// What holds in every state the protocol can reach.
    pub open spec fn inv(self) -> bool {
        &&& self.permits_accounted()
        &&& self.locks_paired()
        &&& self.slots_suffice()
        &&& self.queue_matches()
    }

    /// The state after taking `steps` one after the other.
    pub open spec fn run(self, steps: Seq<Step>) -> State
        decreases steps.len(),
    {
        if steps.len() == 0 {
            self
        } else {
            self.run(steps.drop_last()).apply(steps.last())
        }
    }

    /// Whether `steps` can be taken one after the other, each being enabled
    /// in the state the earlier ones lead to.
    pub open spec fn runnable(self, steps: Seq<Step>) -> bool
        decreases steps.len(),
    {
        steps.len() == 0 || (self.runnable(steps.drop_last()) && self.run(
            steps.drop_last(),
        ).enabled(steps.last()))
    }
}

/// A run on a pool of one slot in which the first caller gives its permit
/// back while it still holds the lock, and a second caller is let through.
pub open spec fn early_return_run() -> Seq<Step> {
    seq![
        Step::Request(0),
        Step::Grant,
        Step::Probe(0),
        Step::ReturnEarly(0),
        Step::Request(1),
        Step::Grant,
        Step::Probe(1),
    ]
}

/// Whether every step of `steps` is orderly.
pub open spec fn all_orderly(steps: Seq<Step>) -> bool {
    forall|i: int| 0 <= i < steps.len() ==> (#[trigger] steps[i]).orderly()
}

} // verus!
