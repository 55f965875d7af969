//! What the protocol guarantees, stated for every state it can reach.
//!
//! Each law assumes the invariant, which holds initially and after every
//! orderly step.
use crate::counting::{
    count, lemma_count_le, lemma_count_lt, lemma_count_positive, lemma_count_update,
};
use crate::pool::{HandlerView, PoolView};
use crate::protocol::{admitted, early_return_run, engaged, holding, position, Phase, State, Step};
use crate::safety::{lemma_init_inv, lemma_position_found, lemma_position_unique, lemma_step_inv};
use crate::trusted::{initial_permits, lock_source};
use vstd::prelude::*;

verus! {

/// A pool that was just built starts the protocol in a state that satisfies
/// the invariant, with as many permits as its semaphore was created with.
pub proof fn lemma_fresh_pool_inv(pool: PoolView, callers: nat)
    requires
        pool.well_formed(),
    ensures
        State::fresh(pool, callers).inv(),
        State::fresh(pool, callers).size() == pool.slots.len(),
        State::fresh(pool, callers).permits == initial_permits(pool.semaphore),
{
    lemma_init_inv(pool.slots.len(), callers);
}

/// The slots of a pool are different locks: two handlers of one pool that
/// name different slots hold different locks, so taking or releasing the one
/// leaves the other as it is.
pub proof fn law_slots_are_different_locks(a: HandlerView, b: HandlerView)
    requires
        a.pool.well_formed(),
        a.pool == b.pool,
        a.well_formed(),
        b.well_formed(),
        a.slot != b.slot,
    ensures
        lock_source(a.lock) != lock_source(b.lock),
{
    assert(a.pool.slots[a.slot as int] != a.pool.slots[b.slot as int]);
}

/// Never more callers are past the semaphore than the pool has slots, and so
/// never more handlers are live than that.
pub proof fn law_handlers_bounded(s: State)
    requires
        s.inv(),
    ensures
        s.live_handlers() <= count(s.phases, admitted()) <= s.size(),
{
    lemma_count_le(s.phases, holding(), admitted());
}

/// While every slot has a live handler, the semaphore has no permit left and
/// nobody is scanning: unless a handler is released or the caller itself
/// gives up, a waiting caller stays suspended and the handlers stay as they
/// are, whatever else happens.
pub proof fn law_full_pool_suspends(s: State, step: Step, waiting: nat)
    requires
        s.inv(),
        s.live_handlers() == s.size(),
        waiting < s.callers(),
        s.phases[waiting as int] is Waiting,
        step.orderly(),
        s.enabled(step),
        !(step is Unlock),
        step != Step::Cancel(waiting),
    ensures
        s.permits == 0,
        step is Request || step is Cancel,
        s.apply(step).phases[waiting as int] is Waiting,
        s.apply(step).live_handlers() == s.size(),
{
    lemma_count_le(s.phases, holding(), admitted());
    assert forall|c: int| 0 <= c < s.phases.len() implies !(#[trigger] s.phases[c] is Scanning)
        && !(s.phases[c] is Releasing) by {
        if s.phases[c] is Scanning || s.phases[c] is Releasing {
            lemma_count_lt(s.phases, holding(), admitted(), c);
        }
    }
    match step {
        Step::Request(c) => {
            lemma_count_update(s.phases, c as int, Phase::Waiting, holding());
        },
        Step::Cancel(c) => {
            lemma_count_update(s.phases, c as int, Phase::Idle, holding());
        },
        Step::Abandon(c) => {
            assert(s.phases[c as int] is Scanning);
        },
        Step::Probe(c) => {
            assert(s.phases[c as int] is Scanning);
        },
        Step::Return(c) => {
            assert(s.phases[c as int] is Releasing);
        },
        _ => {},
    }
}

/// A caller that waits and does not give up is only ever let through by the
/// semaphore, and only when it is the oldest in the queue: callers are served
/// in the order in which they asked.
pub proof fn law_served_in_order(s: State, step: Step, waiting: nat)
    requires
        s.inv(),
        waiting < s.callers(),
        s.phases[waiting as int] is Waiting,
        step.orderly(),
        s.enabled(step),
        step != Step::Cancel(waiting),
        !(s.apply(step).phases[waiting as int] is Waiting),
    ensures
        step is Grant,
        s.queue[0] == waiting,
        s.apply(step).phases[waiting as int] == Phase::Scanning(0),
{
}

/// A caller that gives up before it has claimed a slot keeps nothing. While
/// it waits it leaves the queue and the permits stay as they are; once it was
/// let through its permit goes back to the semaphore. Either way it ends up
/// idle, no lock is touched and the invariant holds on.
pub proof fn law_giving_up_keeps_nothing(s: State, c: nat)
    requires
        s.inv(),
        c < s.callers(),
        s.phases[c as int] is Waiting || s.phases[c as int] is Scanning,
    ensures
        ({
            let step = if s.phases[c as int] is Waiting {
                Step::Cancel(c)
            } else {
                Step::Abandon(c)
            };
            let t = s.apply(step);
            &&& s.enabled(step)
            &&& t.inv()
            &&& t.phases[c as int] is Idle
            &&& t.locked == s.locked
            &&& t.permits + count(t.phases, admitted()) == s.permits + count(s.phases, admitted())
            &&& t.permits == s.permits + if s.phases[c as int] is Scanning {
                1nat
            } else {
                0nat
            }
        }),
{
    if s.phases[c as int] is Waiting {
        lemma_step_inv(s, Step::Cancel(c));
    } else {
        lemma_step_inv(s, Step::Abandon(c));
    }
}

/// A caller that asks for a permit joins the queue behind everybody who is
/// already waiting.
pub proof fn law_request_joins_at_the_back(s: State, c: nat, earlier: nat)
    requires
        s.inv(),
        s.enabled(Step::Request(c)),
        earlier < s.callers(),
        s.phases[earlier as int] is Waiting,
    ensures
        position(s.apply(Step::Request(c)).queue, earlier) < position(
            s.apply(Step::Request(c)).queue,
            c,
        ),
{
    let t = s.apply(Step::Request(c));
    lemma_step_inv(s, Step::Request(c));
    let i = position(s.queue, earlier);
    lemma_position_found(s, earlier);
    assert(t.queue[i] == earlier);
    assert(t.queue[s.queue.len() as int] == c);
    lemma_position_unique(t, i);
    lemma_position_unique(t, s.queue.len() as int);
}

/// Nothing reorders the queue: of two callers that keep waiting, the one
/// that was ahead stays ahead.
pub proof fn law_queue_order_kept(s: State, step: Step, older: nat, younger: nat)
    requires
        s.inv(),
        step.orderly(),
        s.enabled(step),
        older < s.callers(),
        younger < s.callers(),
        s.phases[older as int] is Waiting,
        s.phases[younger as int] is Waiting,
        position(s.queue, older) < position(s.queue, younger),
        s.apply(step).phases[older as int] is Waiting,
        s.apply(step).phases[younger as int] is Waiting,
    ensures
        position(s.apply(step).queue, older) < position(s.apply(step).queue, younger),
{
    let t = s.apply(step);
    lemma_step_inv(s, step);
    let i = position(s.queue, older);
    let j = position(s.queue, younger);
    lemma_position_found(s, older);
    lemma_position_found(s, younger);
    match step {
        Step::Cancel(c) => {
            let at = position(s.queue, c);
            lemma_position_found(s, c);
            let i1 = if i < at {
                i
            } else {
                i - 1
            };
            let j1 = if j < at {
                j
            } else {
                j - 1
            };
            assert(t.queue[i1] == older && t.queue[j1] == younger);
            lemma_position_unique(t, i1);
            lemma_position_unique(t, j1);
        },
        Step::Grant => {
            assert(t.queue[i - 1] == older && t.queue[j - 1] == younger);
            lemma_position_unique(t, i - 1);
            lemma_position_unique(t, j - 1);
        },
        _ => {
            assert(t.queue[i] == older && t.queue[j] == younger);
            lemma_position_unique(t, i);
            lemma_position_unique(t, j);
        },
    }
}

/// When a handler's permit comes back to an empty semaphore, exactly one
/// waiting caller can be let through, and it is the oldest: after that the
/// semaphore is empty again and every other waiting caller still waits.
pub proof fn law_release_serves_one(s: State, c: nat, other: nat)
    requires
        s.inv(),
        s.permits == 0,
        s.enabled(Step::Return(c)),
        s.queue.len() > 0,
        other < s.callers(),
        other != s.queue[0],
        s.phases[other as int] is Waiting,
    ensures
        s.apply(Step::Return(c)).enabled(Step::Grant),
        s.apply(Step::Return(c)).apply(Step::Grant).phases[s.queue[0] as int] == Phase::Scanning(
            0,
        ),
        s.apply(Step::Return(c)).apply(Step::Grant).phases[other as int] is Waiting,
        !s.apply(Step::Return(c)).apply(Step::Grant).enabled(Step::Grant),
{
    assert(s.queue[0] < s.callers() && s.phases[s.queue[0] as int] is Waiting);
}

/// No slot is held by two callers at once.
pub proof fn law_slots_exclusive(s: State, c: nat, d: nat)
    requires
        s.inv(),
        c < s.callers(),
        d < s.callers(),
        c != d,
        s.phases[c as int] is Holding,
        s.phases[d as int] is Holding,
    ensures
        s.phases[c as int]->Holding_0 != s.phases[d as int]->Holding_0,
{
}

/// A caller that holds a permit never runs out of slots: wherever its scan
/// stands, there is a slot left to probe.
pub proof fn law_scan_finds_slot(s: State, c: nat)
    requires
        s.inv(),
        c < s.callers(),
        s.phases[c as int] is Scanning,
    ensures
        s.phases[c as int]->Scanning_0 < s.size(),
        s.enabled(Step::Probe(c)),
{
    if s.phases[c as int]->Scanning_0 >= s.size() {
        lemma_count_positive(s.phases, engaged(s.size()), c as int);
        assert(count(s.phases, engaged(s.size())) + s.size() <= s.size());
    }
}

/// If every slot from `from` on is locked, at least as many callers hold a
/// lock there.
proof fn lemma_locked_slots_have_holders(s: State, from: nat)
    requires
        s.inv(),
        from <= s.size(),
        forall|k: int| from <= k < s.locked.len() ==> s.locked[k],
    ensures
        count(s.phases, engaged(from)) + from >= s.size(),
    decreases s.size() - from,
{
    if from < s.size() {
        lemma_locked_slots_have_holders(s, from + 1);
        assert(s.locked[from as int]);
        let d = choose|d: int|
            0 <= d < s.phases.len() && #[trigger] s.phases[d] == Phase::Holding(from);
        lemma_count_lt(s.phases, engaged(from + 1), engaged(from), d);
    }
}

/// While the semaphore has a permit to give, some slot is free.
pub proof fn law_permit_means_free_slot(s: State)
    requires
        s.inv(),
        s.permits > 0,
    ensures
        exists|k: int| 0 <= k < s.locked.len() && !#[trigger] s.locked[k],
{
    if forall|k: int| 0 <= k < s.locked.len() ==> s.locked[k] {
        lemma_locked_slots_have_holders(s, 0);
        lemma_count_le(s.phases, engaged(0), admitted());
    }
}

/// Taking one more step after a run.
proof fn lemma_run_push(s: State, steps: Seq<Step>, step: Step)
    ensures
        s.run(steps.push(step)) == s.run(steps).apply(step),
        s.runnable(steps.push(step)) == (s.runnable(steps) && s.run(steps).enabled(step)),
{
    assert(steps.push(step).drop_last() =~= steps);
}

/// The order of release matters. If a permit is given back before the lock it
/// was paired with, a caller can be let through while no slot is free: on a
/// pool of one slot its scan then runs past the last slot and finds nothing.
pub proof fn law_early_return_strands_scan()
    ensures
        State::init(1, 2).runnable(early_return_run()),
        State::init(1, 2).run(early_return_run()).phases[1] == Phase::Scanning(1),
        State::init(1, 2).run(early_return_run()).size() == 1,
        !State::init(1, 2).run(early_return_run()).enabled(Step::Probe(1)),
{
    let s0 = State::init(1, 2);
    let r0 = Seq::<Step>::empty();
    let r1 = r0.push(Step::Request(0));
    let r2 = r1.push(Step::Grant);
    let r3 = r2.push(Step::Probe(0));
    let r4 = r3.push(Step::ReturnEarly(0));
    let r5 = r4.push(Step::Request(1));
    let r6 = r5.push(Step::Grant);
    let r7 = r6.push(Step::Probe(1));
    assert(r7 =~= early_return_run());
    assert(s0.runnable(r0) && s0.run(r0) == s0);
    lemma_run_push(s0, r0, Step::Request(0));
    let s1 = s0.run(r1);
    assert(s1.queue =~= seq![0nat]);
    assert(s1.phases =~= seq![Phase::Waiting, Phase::Idle]);
    lemma_run_push(s0, r1, Step::Grant);
    let s2 = s0.run(r2);
    assert(s2.queue =~= Seq::<nat>::empty());
    assert(s2.phases =~= seq![Phase::Scanning(0), Phase::Idle]);
    lemma_run_push(s0, r2, Step::Probe(0));
    let s3 = s0.run(r3);
    assert(s3.phases =~= seq![Phase::Holding(0), Phase::Idle]);
    assert(s3.locked =~= seq![true]);
    lemma_run_push(s0, r3, Step::ReturnEarly(0));
    let s4 = s0.run(r4);
    assert(s4.phases =~= seq![Phase::Lingering(0), Phase::Idle]);
    assert(s4.permits == 1);
    lemma_run_push(s0, r4, Step::Request(1));
    let s5 = s0.run(r5);
    assert(s5.queue =~= seq![1nat]);
    assert(s5.phases =~= seq![Phase::Lingering(0), Phase::Waiting]);
    lemma_run_push(s0, r5, Step::Grant);
    let s6 = s0.run(r6);
    assert(s6.phases =~= seq![Phase::Lingering(0), Phase::Scanning(0)]);
    assert(s6.locked =~= seq![true]);
    lemma_run_push(s0, r6, Step::Probe(1));
    let s7 = s0.run(r7);
    assert(s7.phases =~= seq![Phase::Lingering(0), Phase::Scanning(1)]);
}

} // verus!
