//! The invariant of the checkout and release protocol, and the proof that
//! every orderly step keeps it.
use crate::counting::{
    count, lemma_count_le, lemma_count_lt, lemma_count_none, lemma_count_update,
};
use crate::protocol::{admitted, all_orderly, engaged, position, Phase, State, Step};
use vstd::prelude::*;

verus! {

/// The state before anything has happened satisfies the invariant.
pub proof fn lemma_init_inv(size: nat, callers: nat)
    ensures
        State::init(size, callers).inv(),
{
    let s = State::init(size, callers);
    lemma_count_none(s.phases, admitted());
    assert forall|from: nat| from <= s.size() implies #[trigger] count(s.phases, engaged(from))
        + from <= s.size() by {
        lemma_count_none(s.phases, engaged(from));
    }
}

/// A step of a caller that neither held a lock before nor holds one after,
/// and that touches no lock, leaves locks and holders paired.
proof fn lemma_locks_untouched(s: State, t: State, c: int)
    requires
        s.locks_paired(),
        0 <= c < s.phases.len(),
        !(s.phases[c] is Holding),
        !(t.phases[c] is Holding),
        t.locked == s.locked,
        t.phases.len() == s.phases.len(),
        forall|d: int| 0 <= d < s.phases.len() && d != c ==> t.phases[d] == s.phases[d],
    ensures
        t.locks_paired(),
{
    assert forall|a: int| 0 <= a < t.phases.len() && #[trigger] t.phases[a] is Holding implies {
        &&& t.phases[a]->Holding_0 < t.size()
        &&& t.locked[t.phases[a]->Holding_0 as int]
    } by {
        assert(s.phases[a] is Holding);
    }
    assert forall|a: int, b: int|
        0 <= a < t.phases.len() && 0 <= b < t.phases.len() && a != b
            && #[trigger] t.phases[a] is Holding
            && #[trigger] t.phases[b] is Holding implies t.phases[a]->Holding_0
        != t.phases[b]->Holding_0 by {
        assert(s.phases[a] is Holding && s.phases[b] is Holding);
    }
    assert forall|k: int| 0 <= k < t.locked.len() && #[trigger] t.locked[k] implies exists|d: int|
        0 <= d < t.phases.len() && #[trigger] t.phases[d] == Phase::Holding(k as nat) by {
        let d = choose|d: int|
            0 <= d < s.phases.len() && #[trigger] s.phases[d] == Phase::Holding(k as nat);
        assert(t.phases[d] == Phase::Holding(k as nat));
    }
}

/// A step after which its caller is engaged with no slot it was not engaged
/// with before leaves enough slots for everybody.
proof fn lemma_slots_still_suffice(s: State, t: State, c: int)
    requires
        s.slots_suffice(),
        0 <= c < s.phases.len(),
        t.size() == s.size(),
        t.phases == s.phases.update(c, t.phases[c]),
        forall|from: nat| #[trigger] engaged(from)(t.phases[c]) ==> engaged(from)(s.phases[c]),
    ensures
        t.slots_suffice(),
{
    assert forall|from: nat| from <= t.size() implies #[trigger] count(t.phases, engaged(from))
        + from <= t.size() by {
        lemma_count_update(s.phases, c, t.phases[c], engaged(from));
        assert(engaged(from)(t.phases[c]) ==> engaged(from)(s.phases[c]));
        assert(count(s.phases, engaged(from)) + from <= s.size());
    }
}

/// A step of a caller that is not waiting, before or after, and that does
/// not touch the queue, leaves the queue matching the waiting callers.
proof fn lemma_queue_untouched(s: State, t: State, c: int)
    requires
        s.queue_matches(),
        0 <= c < s.phases.len(),
        !(s.phases[c] is Waiting),
        !(t.phases[c] is Waiting),
        t.queue == s.queue,
        t.phases.len() == s.phases.len(),
        forall|d: int| 0 <= d < s.phases.len() && d != c ==> t.phases[d] == s.phases[d],
    ensures
        t.queue_matches(),
{
    assert forall|i: int| 0 <= i < t.queue.len() implies #[trigger] t.queue[i] < t.callers()
        && t.phases[t.queue[i] as int] is Waiting by {
        assert(s.queue[i] < s.callers());
    }
    assert forall|d: int| 0 <= d < t.phases.len() && #[trigger] t.phases[d] is Waiting implies exists|
        i: int,
    |
        0 <= i < t.queue.len() && #[trigger] t.queue[i] == d by {
        assert(s.phases[d] is Waiting);
        let i = choose|i: int| 0 <= i < s.queue.len() && #[trigger] s.queue[i] == d;
        assert(t.queue[i] == d);
    }
}

/// A waiting caller is found in the queue, at its position.
pub proof fn lemma_position_found(s: State, c: nat)
    requires
        s.queue_matches(),
        c < s.callers(),
        s.phases[c as int] is Waiting,
    ensures
        0 <= position(s.queue, c) < s.queue.len(),
        s.queue[position(s.queue, c)] == c,
{
    let i = choose|i: int| 0 <= i < s.queue.len() && #[trigger] s.queue[i] == c as int;
    assert(0 <= i < s.queue.len() && s.queue[i] == c);
}

/// In a queue that holds each caller at most once, a caller's position is
/// the one index at which it is found.
pub proof fn lemma_position_unique(s: State, i: int)
    requires
        s.queue_matches(),
        0 <= i < s.queue.len(),
    ensures
        position(s.queue, s.queue[i]) == i,
{
    let found = position(s.queue, s.queue[i]);
    assert(0 <= found < s.queue.len() && s.queue[found] == s.queue[i]);
    if found < i {
        assert(s.queue[found] != s.queue[i]);
    } else if i < found {
        assert(s.queue[i] != s.queue[found]);
    }
}

/// Joining the queue keeps the invariant.
proof fn lemma_request_inv(s: State, c: nat)
    requires
        s.inv(),
        s.enabled(Step::Request(c)),
    ensures
        s.apply(Step::Request(c)).inv(),
{
    let t = s.apply(Step::Request(c));
    lemma_count_update(s.phases, c as int, Phase::Waiting, admitted());
    lemma_locks_untouched(s, t, c as int);
    lemma_slots_still_suffice(s, t, c as int);
    assert forall|i: int| 0 <= i < t.queue.len() implies #[trigger] t.queue[i] < t.callers()
        && t.phases[t.queue[i] as int] is Waiting by {
        if i < s.queue.len() {
            assert(s.queue[i] < s.callers());
        }
    }
    assert forall|i: int, j: int| 0 <= i < j < t.queue.len() implies #[trigger] t.queue[i]
        != #[trigger] t.queue[j] by {
        assert(s.queue[i] < s.callers());
        if j < s.queue.len() {
            assert(s.queue[i] != s.queue[j]);
        }
    }
    assert forall|d: int| 0 <= d < t.phases.len() && #[trigger] t.phases[d] is Waiting implies exists|
        i: int,
    |
        0 <= i < t.queue.len() && #[trigger] t.queue[i] == d by {
        if d == c {
            assert(t.queue[s.queue.len() as int] == d);
        } else {
            assert(s.phases[d] is Waiting);
            let i = choose|i: int| 0 <= i < s.queue.len() && #[trigger] s.queue[i] == d;
            assert(t.queue[i] == d);
        }
    }
}

/// Leaving the queue keeps the invariant.
proof fn lemma_cancel_inv(s: State, c: nat)
    requires
        s.inv(),
        s.enabled(Step::Cancel(c)),
    ensures
        s.apply(Step::Cancel(c)).inv(),
{
    let t = s.apply(Step::Cancel(c));
    let at = position(s.queue, c);
    lemma_position_found(s, c);
    lemma_count_update(s.phases, c as int, Phase::Idle, admitted());
    lemma_locks_untouched(s, t, c as int);
    lemma_slots_still_suffice(s, t, c as int);
    assert forall|i: int| 0 <= i < t.queue.len() implies #[trigger] t.queue[i] < t.callers()
        && t.phases[t.queue[i] as int] is Waiting by {
        let j = if i < at {
            i
        } else {
            i + 1
        };
        assert(s.queue[j] < s.callers());
        assert(s.queue[j] != s.queue[at]);
    }
    assert forall|i: int, j: int| 0 <= i < j < t.queue.len() implies #[trigger] t.queue[i]
        != #[trigger] t.queue[j] by {
        let i0 = if i < at {
            i
        } else {
            i + 1
        };
        let j0 = if j < at {
            j
        } else {
            j + 1
        };
        assert(s.queue[i0] != s.queue[j0]);
    }
    assert forall|d: int| 0 <= d < t.phases.len() && #[trigger] t.phases[d] is Waiting implies exists|
        i: int,
    |
        0 <= i < t.queue.len() && #[trigger] t.queue[i] == d by {
        assert(s.phases[d] is Waiting);
        let j = choose|j: int| 0 <= j < s.queue.len() && #[trigger] s.queue[j] == d;
        if j < at {
            assert(t.queue[j] == d);
        } else {
            assert(t.queue[j - 1] == d);
        }
    }
}

/// Handing a permit to the oldest waiting caller keeps the invariant.
proof fn lemma_grant_inv(s: State)
    requires
        s.inv(),
        s.enabled(Step::Grant),
    ensures
        s.apply(Step::Grant).inv(),
{
    let t = s.apply(Step::Grant);
    let c = s.queue[0] as int;
    assert(s.queue[0] < s.callers() && s.phases[c] is Waiting);
    lemma_count_update(s.phases, c, Phase::Scanning(0), admitted());
    lemma_locks_untouched(s, t, c);
    assert forall|from: nat| from <= t.size() implies #[trigger] count(t.phases, engaged(from))
        + from <= t.size() by {
        if from == 0 {
            lemma_count_le(t.phases, engaged(0), admitted());
        } else {
            lemma_count_update(s.phases, c, Phase::Scanning(0), engaged(from));
            assert(count(s.phases, engaged(from)) + from <= s.size());
        }
    }
    assert forall|i: int| 0 <= i < t.queue.len() implies #[trigger] t.queue[i] < t.callers()
        && t.phases[t.queue[i] as int] is Waiting by {
        assert(s.queue[i + 1] < s.callers());
        assert(s.queue[0] != s.queue[i + 1]);
    }
    assert forall|i: int, j: int| 0 <= i < j < t.queue.len() implies #[trigger] t.queue[i]
        != #[trigger] t.queue[j] by {
        assert(s.queue[i + 1] != s.queue[j + 1]);
    }
    assert forall|d: int| 0 <= d < t.phases.len() && #[trigger] t.phases[d] is Waiting implies exists|
        i: int,
    |
        0 <= i < t.queue.len() && #[trigger] t.queue[i] == d by {
        assert(s.phases[d] is Waiting);
        let i = choose|i: int| 0 <= i < s.queue.len() && #[trigger] s.queue[i] == d;
        assert(i > 0);
        assert(t.queue[i - 1] == d);
    }
}

/// Giving a permit back without having claimed a slot keeps the invariant.
proof fn lemma_abandon_inv(s: State, c: nat)
    requires
        s.inv(),
        s.enabled(Step::Abandon(c)),
    ensures
        s.apply(Step::Abandon(c)).inv(),
{
    let t = s.apply(Step::Abandon(c));
    lemma_queue_untouched(s, t, c as int);
    lemma_count_update(s.phases, c as int, Phase::Idle, admitted());
    lemma_locks_untouched(s, t, c as int);
    lemma_slots_still_suffice(s, t, c as int);
}

/// Probing a slot keeps the invariant, whether the lock is taken or not.
proof fn lemma_probe_inv(s: State, c: nat)
    requires
        s.inv(),
        s.enabled(Step::Probe(c)),
    ensures
        s.apply(Step::Probe(c)).inv(),
{
    let t = s.apply(Step::Probe(c));
    let cursor = s.phases[c as int]->Scanning_0;
    lemma_queue_untouched(s, t, c as int);
    lemma_count_update(s.phases, c as int, t.phases[c as int], admitted());
    if s.locked[cursor as int] {
        // The slot is taken, so somebody holds it. Both that caller and
        // this one are engaged from the slot on, but only this one is
        // engaged behind it: a place behind the slot is left for it.
        let holder = choose|d: int|
            0 <= d < s.phases.len() && #[trigger] s.phases[d] == Phase::Holding(cursor);
        lemma_locks_untouched(s, t, c as int);
        assert forall|from: nat| from <= t.size() implies #[trigger] count(
            t.phases,
            engaged(from),
        ) + from <= t.size() by {
            lemma_count_update(s.phases, c as int, t.phases[c as int], engaged(from));
            assert(count(s.phases, engaged(from)) + from <= s.size());
            if from == cursor + 1 {
                lemma_count_update(s.phases, c as int, t.phases[c as int], engaged(cursor));
                assert(count(s.phases, engaged(cursor)) + cursor <= s.size());
                assert(t.phases[holder] == Phase::Holding(cursor));
                lemma_count_lt(t.phases, engaged(from), engaged(cursor), holder);
            }
        }
    } else {
        // The slot is free, so nobody holds it and this caller is its only
        // holder from now on.
        lemma_slots_still_suffice(s, t, c as int);
        assert forall|a: int| 0 <= a < t.phases.len() && #[trigger] t.phases[a] is Holding implies {
            &&& t.phases[a]->Holding_0 < t.size()
            &&& t.locked[t.phases[a]->Holding_0 as int]
        } by {
            if a != c {
                assert(s.phases[a] is Holding);
            }
        }
        assert forall|a: int, b: int|
            0 <= a < t.phases.len() && 0 <= b < t.phases.len() && a != b
                && #[trigger] t.phases[a] is Holding
                && #[trigger] t.phases[b] is Holding implies t.phases[a]->Holding_0
            != t.phases[b]->Holding_0 by {
            if a == c {
                assert(s.phases[b] is Holding);
            } else if b == c {
                assert(s.phases[a] is Holding);
            } else {
                assert(s.phases[a] is Holding && s.phases[b] is Holding);
            }
        }
        assert forall|k: int| 0 <= k < t.locked.len() && #[trigger] t.locked[k] implies exists|
            e: int,
        |
            0 <= e < t.phases.len() && #[trigger] t.phases[e] == Phase::Holding(k as nat) by {
            if k == cursor {
                assert(t.phases[c as int] == Phase::Holding(k as nat));
            } else {
                assert(s.locked[k]);
                let e = choose|e: int|
                    0 <= e < s.phases.len() && #[trigger] s.phases[e] == Phase::Holding(k as nat);
                assert(t.phases[e] == Phase::Holding(k as nat));
            }
        }
    }
}

/// Giving a lock back keeps the invariant.
proof fn lemma_unlock_inv(s: State, c: nat)
    requires
        s.inv(),
        s.enabled(Step::Unlock(c)),
    ensures
        s.apply(Step::Unlock(c)).inv(),
{
    let t = s.apply(Step::Unlock(c));
    lemma_queue_untouched(s, t, c as int);
    lemma_count_update(s.phases, c as int, Phase::Releasing, admitted());
    lemma_slots_still_suffice(s, t, c as int);
    assert forall|a: int| 0 <= a < t.phases.len() && #[trigger] t.phases[a] is Holding implies {
        &&& t.phases[a]->Holding_0 < t.size()
        &&& t.locked[t.phases[a]->Holding_0 as int]
    } by {
        assert(s.phases[a] is Holding && s.phases[c as int] is Holding);
    }
    assert forall|a: int, b: int|
        0 <= a < t.phases.len() && 0 <= b < t.phases.len() && a != b
            && #[trigger] t.phases[a] is Holding
            && #[trigger] t.phases[b] is Holding implies t.phases[a]->Holding_0
        != t.phases[b]->Holding_0 by {
        assert(s.phases[a] is Holding && s.phases[b] is Holding);
    }
    assert forall|k: int| 0 <= k < t.locked.len() && #[trigger] t.locked[k] implies exists|e: int|
        0 <= e < t.phases.len() && #[trigger] t.phases[e] == Phase::Holding(k as nat) by {
        assert(s.locked[k]);
        let e = choose|e: int|
            0 <= e < s.phases.len() && #[trigger] s.phases[e] == Phase::Holding(k as nat);
        assert(t.phases[e] == Phase::Holding(k as nat));
    }
}

/// Giving a permit back after the lock keeps the invariant.
proof fn lemma_return_inv(s: State, c: nat)
    requires
        s.inv(),
        s.enabled(Step::Return(c)),
    ensures
        s.apply(Step::Return(c)).inv(),
{
    let t = s.apply(Step::Return(c));
    lemma_queue_untouched(s, t, c as int);
    lemma_count_update(s.phases, c as int, Phase::Idle, admitted());
    lemma_locks_untouched(s, t, c as int);
    lemma_slots_still_suffice(s, t, c as int);
}

/// Every orderly step that can be taken keeps the invariant: together with
/// [`lemma_init_inv`], the invariant holds in every state the protocol
/// reaches.
pub proof fn lemma_step_inv(s: State, step: Step)
    requires
        s.inv(),
        step.orderly(),
        s.enabled(step),
    ensures
        s.apply(step).inv(),
        s.apply(step).size() == s.size(),
        s.apply(step).callers() == s.callers(),
{
    match step {
        Step::Request(c) => lemma_request_inv(s, c),
        Step::Cancel(c) => lemma_cancel_inv(s, c),
        Step::Grant => lemma_grant_inv(s),
        Step::Abandon(c) => lemma_abandon_inv(s, c),
        Step::Probe(c) => lemma_probe_inv(s, c),
        Step::Unlock(c) => lemma_unlock_inv(s, c),
        Step::Return(c) => lemma_return_inv(s, c),
        Step::ReturnEarly(c) => {},
        Step::UnlockLate(c) => {},
    }
}

/// The invariant holds after any run of orderly steps from a state in which
/// it holds.
pub proof fn lemma_run_inv(s: State, steps: Seq<Step>)
    requires
        s.inv(),
        s.runnable(steps),
        all_orderly(steps),
    ensures
        s.run(steps).inv(),
        s.run(steps).size() == s.size(),
        s.run(steps).callers() == s.callers(),
    decreases steps.len(),
{
    if steps.len() > 0 {
        let earlier = steps.drop_last();
        assert forall|i: int| 0 <= i < earlier.len() implies (#[trigger] earlier[i]).orderly() by {
            assert(steps[i].orderly());
        }
        lemma_run_inv(s, earlier);
        assert(steps[steps.len() - 1].orderly());
        lemma_step_inv(s.run(earlier), steps.last());
    }
}

} // verus!
