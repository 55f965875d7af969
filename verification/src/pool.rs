//! The pool and the handler it hands out.
use crate::error::valid_size;
use crate::trusted::{
    acquire_arc, acquisition, clone_request, deref_guard, guarded_client, initial_permits,
    lock_source, request_copy, share, try_lock_arc,
};
use async_std::sync::{Mutex, MutexGuardArc};
use async_weighted_semaphore::{AcquireFutureArc, Semaphore, SemaphoreGuardArc};
use std::sync::Arc;
use surf::{Client, Request};
use vstd::prelude::*;

verus! {

/// What a pool is made of, as contracts see it.
pub struct PoolView {
    /// The slots, in scan order: one mutex-protected client each.
    pub slots: Seq<Arc<Mutex<Client>>>,
    /// The admission semaphore.
    pub semaphore: Semaphore,
    /// The warm-up request the pool was configured with, if any.
    pub health_check: Option<Request>,
}

impl PoolView {
    /// The pool has a valid number of slots, no two slots are the same
    /// lock, and its semaphore was created with exactly one permit per slot.
    pub open spec fn well_formed(self) -> bool {
        &&& 0 < self.slots.len() <= crate::error::MAX_POOL_SIZE
        &&& self.slots.no_duplicates()
        &&& initial_permits(self.semaphore) == self.slots.len()
    }
}

/// A fixed set of clients shared by concurrent callers.
#[derive(Debug)]
pub struct SurfPool {
    pool: Vec<Arc<Mutex<Client>>>,
    semaphore: Arc<Semaphore>,
    health_check: Option<Request>,
}

/// What a handler holds, as contracts see it.
pub struct HandlerView {
    /// The pool the handler was checked out of.
    pub pool: PoolView,
    /// Position of the claimed slot in the pool.
    pub slot: nat,
    /// The exclusive lock on that slot.
    pub lock: MutexGuardArc<Client>,
    /// The admission permit the slot was claimed under.
    pub permit: SemaphoreGuardArc,
}

impl HandlerView {
    /// The handler names a slot of its pool and holds the lock of that very
    /// slot.
    pub open spec fn well_formed(self) -> bool {
        &&& self.slot < self.pool.slots.len()
        &&& lock_source(self.lock) == *self.pool.slots[self.slot as int]
    }
}

/// One checked-out client: an admission permit paired with the exclusive lock
/// of one slot. Dropping the handler gives both back.
///
/// A handler borrows the pool it was checked out of and so cannot outlive
/// it.
#[derive(Debug)]
pub struct Handler<'a> {
    // Fields are dropped in declaration order, so the lock is released
    // before the permit: nobody can be admitted while the slot still looks
    // taken.
    mg: MutexGuardArc<Client>,
    sg: SemaphoreGuardArc,
    slot: usize,
    pool: &'a SurfPool,
}

impl<'a> View for Handler<'a> {
    type V = HandlerView;

    closed spec fn view(&self) -> HandlerView {
        HandlerView { pool: self.pool@, slot: self.slot as nat, lock: self.mg, permit: self.sg }
    }
}

impl<'a> Handler<'a> {
    #[verifier::type_invariant]
    spec fn inv(self) -> bool {
        self@.well_formed()
    }

    /// The client of the claimed slot. The reference cannot outlive the
    /// handler, so the client is never used without the slot's lock.
    pub fn get_client(&self) -> (client: &Client)
        ensures
            *client == guarded_client(self@.lock),
    {
        deref_guard(&self.mg)
    }

    /// Position of the claimed slot in the pool.
    pub fn slot(&self) -> (slot: usize)
        ensures
            slot == self@.slot,
            self@.well_formed(),
    {
        proof {
            use_type_invariant(self);
        }
        self.slot
    }

    /// The pool the handler was checked out of.
    pub fn pool(&self) -> (pool: &'a SurfPool)
        ensures
            pool@ == self@.pool,
    {
        self.pool
    }
}

impl View for SurfPool {
    type V = PoolView;

    closed spec fn view(&self) -> PoolView {
        PoolView { slots: self.pool@, semaphore: *self.semaphore, health_check: self.health_check }
    }
}

impl Clone for SurfPool {
    /// Another handle on the same pool: the same slots and the same
    /// semaphore. The warm-up request is copied.
    fn clone(&self) -> (r: SurfPool)
        ensures
            r@.slots == self@.slots,
            r@.semaphore == self@.semaphore,
            r@.health_check == match self@.health_check {
                Some(request) => Some(request_copy(request)),
                None => None,
            },
    {
        proof {
            use_type_invariant(self);
        }
        let mut pool: Vec<Arc<Mutex<Client>>> = Vec::with_capacity(self.pool.len());
        let mut i: usize = 0;
        while i < self.pool.len()
            invariant
                i <= self.pool.len(),
                pool@ == self.pool@.take(i as int),
            decreases self.pool.len() - i,
        {
            pool.push(share(&self.pool[i]));
            proof {
                assert(self.pool@.take(i + 1) =~= self.pool@.take(i as int).push(
                    self.pool@[i as int],
                ));
            }
            i += 1;
        }
        proof {
            assert(self.pool@.take(self.pool@.len() as int) =~= self.pool@);
        }
        let health_check = match &self.health_check {
            Some(request) => Some(clone_request(request)),
            None => None,
        };
        SurfPool { pool, semaphore: share(&self.semaphore), health_check }
    }
}

impl SurfPool {
    #[verifier::type_invariant]
    spec fn inv(self) -> bool {
        self@.well_formed()
    }

    /// Puts a pool together from its parts.
    pub(crate) fn assemble(
        pool: Vec<Arc<Mutex<Client>>>,
        semaphore: Semaphore,
        health_check: Option<Request>,
    ) -> (r: SurfPool)
        requires
            valid_size(pool.len()),
            pool@.no_duplicates(),
            initial_permits(semaphore) == pool.len(),
        ensures
            r@ == (PoolView { slots: pool@, semaphore, health_check }),
    {
        SurfPool { pool, semaphore: Arc::new(semaphore), health_check }
    }

    /// Takes the lock of slot `slot` if it is free, without waiting.
    pub(crate) fn probe_slot(&self, slot: usize) -> (r: Option<MutexGuardArc<Client>>)
        requires
            slot < self@.slots.len(),
        ensures
            r matches Some(lock) ==> lock_source(lock) == *self@.slots[slot as int],
    {
        try_lock_arc(&self.pool[slot])
    }

    /// Number of slots, fixed when the pool was built.
    pub fn get_pool_size(&self) -> (size: usize)
        ensures
            size == self@.slots.len(),
            valid_size(size),
            self@.well_formed(),
    {
        proof {
            use_type_invariant(self);
        }
        self.pool.len()
    }

    /// The warm-up request the pool was configured with, if any.
    pub fn health_check(&self) -> (r: Option<&Request>)
        ensures
            r matches Some(request) ==> self@.health_check == Some(*request),
            r is None ==> self@.health_check is None,
    {
        self.health_check.as_ref()
    }

    /// Starts a checkout: a pending acquisition of exactly one permit on this
    /// pool's semaphore. The caller drives it to completion, which suspends
    /// while all permits are out, and passes the permit to
    /// [`SurfPool::get_handler`]. Dropping the request instead gives the
    /// checkout up and leaves nothing taken.
    pub fn permit_request(&self) -> (request: AcquireFutureArc)
        ensures
            acquisition(request) == (self@.semaphore, 1nat),
    {
        acquire_arc(&self.semaphore, 1)
    }

    /// Completes a checkout: scans the slots in order and claims the first
    /// one whose lock is free at the moment it is probed, never waiting for a
    /// lock.
    ///
    /// A handler that comes back borrows this pool and pairs `permit` with
    /// the lock of the slot it names. `None` means every slot was found
    /// locked; the permit is given back in that case. It cannot happen while
    /// every lock is taken under a permit of this pool's semaphore and
    /// released before that permit, as
    /// [`law_scan_finds_slot`](crate::laws::law_scan_finds_slot) shows for
    /// the protocol; a caller should treat it as a broken pool rather than
    /// try again.
    ///
    /// `permit` is meant to be what a [`SurfPool::permit_request`] of this
    /// pool yielded. A permit carries no trace of its semaphore that could be
    /// compared, so the contract does not ask for it.
    pub fn get_handler<'a>(&'a self, permit: SemaphoreGuardArc) -> (r: Option<Handler<'a>>)
        ensures
            r matches Some(h) ==> {
                &&& h@.pool == self@
                &&& h@.well_formed()
                &&& h@.permit == permit
            },
    {
        let probe = |i: usize| -> (r: Option<MutexGuardArc<Client>>)
            requires
                i < self@.slots.len(),
            ensures
                r matches Some(lock) ==> lock_source(lock) == *self@.slots[i as int],
            { self.probe_slot(i) };
        Handler::from_claim(crate::scan::first_claim(self.pool.len(), probe), permit, self)
    }
}

impl<'a> Handler<'a> {
    /// Makes a handler of what a scan of `pool` ended with: a claimed slot
    /// and its lock are paired with `permit`; without a claim there is no
    /// handler and the permit is given back.
    pub(crate) fn from_claim(
        claim: Option<(usize, MutexGuardArc<Client>)>,
        permit: SemaphoreGuardArc,
        pool: &'a SurfPool,
    ) -> (r: Option<Handler<'a>>)
        requires
            claim matches Some((slot, lock)) ==> {
                &&& slot < pool@.slots.len()
                &&& lock_source(lock) == *pool@.slots[slot as int]
            },
        ensures
            match (claim, r) {
                (Some((slot, lock)), Some(h)) => h@ == (HandlerView {
                    pool: pool@,
                    slot: slot as nat,
                    lock,
                    permit,
                }),
                (None, None) => true,
                _ => false,
            },
    {
        match claim {
            Some((slot, mg)) => Some(Handler { mg, sg: permit, slot, pool }),
            None => None,
        }
    }
}

} // verus!
