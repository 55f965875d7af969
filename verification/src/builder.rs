//! Configuring a pool and bringing it up.
//!
//! Building is split in two. [`SurfPoolBuilder::build`] allocates the slots
//! and the admission semaphore without touching the network and returns a
//! [`PoolSetup`]. The setup then hands out the warm-up calls one slot at a
//! time. A call keeps the rest of the setup to itself while its slot is
//! locked: the caller sends the request, ignores how that ends, and finishes
//! the call, which releases the lock and gives the setup back. The pool
//! itself is only handed out once no warm-up is left, and so never while a
//! warm-up still holds a lock.
use crate::error::{valid_size, SurfPoolError, MAX_POOL_SIZE};
use crate::pool::{PoolView, SurfPool};
use crate::trusted::{
    clone_request, deref_guard, guarded_client, lock_source, new_client, new_mutex,
    new_semaphore, request_copy,
};
use async_std::sync::{Mutex, MutexGuardArc};
use std::sync::Arc;
use surf::{Client, Request};
use vstd::prelude::*;

verus! {

/// What a builder has been told so far.
pub struct BuilderView {
    /// Number of slots the pool will have.
    pub size: usize,
    /// The warm-up request, if one was given.
    pub health_check: Option<Request>,
    /// Whether the slots are warmed up while the pool is built.
    pub pre_connect: bool,
}

impl BuilderView {
    /// Number of warm-up calls that building a pool from this configuration
    /// makes: one per slot if a warm-up request is set and pre-connecting is
    /// on, none otherwise.
    pub open spec fn warmups(self) -> nat {
        if self.health_check is Some && self.pre_connect {
            self.size as nat
        } else {
            0
        }
    }
}

/// Building warms every slot up exactly once if a warm-up request is set and
/// pre-connecting is on. With pre-connecting off nothing is warmed up,
/// whether a request is set or not, and likewise without a request.
pub proof fn law_warmups(config: BuilderView)
    ensures
        config.health_check is Some && config.pre_connect ==> config.warmups() == config.size,
        !config.pre_connect ==> config.warmups() == 0,
        config.health_check is None ==> config.warmups() == 0,
{
}

/// Collects the configuration of a pool.
#[derive(Debug)]
pub struct SurfPoolBuilder {
    size: usize,
    health_check: Option<Request>,
    pre_connect: bool,
}

impl View for SurfPoolBuilder {
    type V = BuilderView;

    closed spec fn view(&self) -> BuilderView {
        BuilderView {
            size: self.size,
            health_check: self.health_check,
            pre_connect: self.pre_connect,
        }
    }
}

impl SurfPoolBuilder {
    #[verifier::type_invariant]
    spec fn inv(self) -> bool {
        valid_size(self.size)
    }

    /// A builder for a pool of `size` slots, without warm-up request and with
    /// pre-connecting off. A size of zero or above [`MAX_POOL_SIZE`] is
    /// rejected.
    pub fn new(size: usize) -> (r: Result<SurfPoolBuilder, SurfPoolError>)
        ensures
            match r {
                Ok(builder) => valid_size(size) && builder@ == (BuilderView {
                    size,
                    health_check: None,
                    pre_connect: false,
                }),
                Err(e) => !valid_size(size) && e == SurfPoolError::SizeNotValid(size),
            },
    {
        if size == 0 || size > MAX_POOL_SIZE {
            return Err(SurfPoolError::SizeNotValid(size));
        }
        Ok(SurfPoolBuilder { size, health_check: None, pre_connect: false })
    }

    /// Sets the warm-up request, replacing any earlier one.
    pub fn health_check(self, health_check: Request) -> (r: SurfPoolBuilder)
        ensures
            r@ == (BuilderView { health_check: Some(health_check), ..self@ }),
            valid_size(r@.size),
    {
        proof {
            use_type_invariant(&self);
        }
        SurfPoolBuilder {
            size: self.size,
            health_check: Some(health_check),
            pre_connect: self.pre_connect,
        }
    }

    /// Chooses whether the slots are warmed up while the pool is built. The
    /// choice has no effect unless a warm-up request is set.
    pub fn pre_connect(self, pre_connect: bool) -> (r: SurfPoolBuilder)
        ensures
            r@ == (BuilderView { pre_connect, ..self@ }),
            valid_size(r@.size),
    {
        proof {
            use_type_invariant(&self);
        }
        SurfPoolBuilder { size: self.size, health_check: self.health_check, pre_connect }
    }

    /// Allocates the pool: one fresh client per slot, a semaphore with one
    /// permit per slot, and the warm-up request if one was set. No request is
    /// sent here; the returned setup says which warm-up calls are due.
    pub fn build(self) -> (setup: PoolSetup)
        ensures
            valid_size(self@.size),
            setup@.pool.well_formed(),
            setup@.pool.slots.len() == self@.size,
            setup@.pool.health_check == self@.health_check,
            setup@.pending == self@.warmups(),
    {
        proof {
            use_type_invariant(&self);
        }
        let mut pool: Vec<Arc<Mutex<Client>>> = Vec::with_capacity(self.size);
        let mut i: usize = 0;
        while i < self.size
            invariant
                i <= self.size,
                pool.len() == i,
                pool@.no_duplicates(),
            decreases self.size - i,
        {
            let mutex = new_mutex(new_client(), &pool);
            pool.push(Arc::new(mutex));
            i += 1;
        }
        let warm = self.pre_connect && self.health_check.is_some();
        let pool = SurfPool::assemble(pool, new_semaphore(self.size), self.health_check);
        PoolSetup { pool, warm, next: 0 }
    }
}

/// A pool of `size` slots that is built without any warm-up: the size is
/// accepted if and only if it is valid, and the pool has exactly that many
/// slots and as many permits.
pub fn cold_pool(size: usize) -> (r: Result<SurfPool, SurfPoolError>)
    ensures
        match r {
            Ok(pool) => {
                &&& valid_size(size)
                &&& pool@.slots.len() == size
                &&& pool@.well_formed()
                &&& pool@.health_check is None
            },
            Err(e) => !valid_size(size) && e == SurfPoolError::SizeNotValid(size),
        },
{
    match SurfPoolBuilder::new(size) {
        Ok(builder) => match builder.build().advance() {
            SetupStep::Ready(pool) => Ok(pool),
            // Nothing is pending without a warm-up request.
            SetupStep::Warm(_) | SetupStep::Busy(_, _) => vstd::pervasive::unreached(),
        },
        Err(e) => Err(e),
    }
}

/// A pool under construction, as contracts see it.
pub struct SetupView {
    /// The pool that is being brought up.
    pub pool: PoolView,
    /// Number of slots whose warm-up has not been handed out yet.
    pub pending: nat,
}

/// A pool whose slots are allocated and whose warm-up may still be due.
#[derive(Debug)]
pub struct PoolSetup {
    pool: SurfPool,
    warm: bool,
    next: usize,
}

impl View for PoolSetup {
    type V = SetupView;

    closed spec fn view(&self) -> SetupView {
        SetupView {
            pool: self.pool@,
            pending: if self.warm {
                (self.pool@.slots.len() - self.next) as nat
            } else {
                0
            },
        }
    }
}

/// What a warm-up call consists of.
pub struct WarmupView {
    /// Position of the slot to warm up.
    pub slot: nat,
    /// The exclusive lock on that slot.
    pub lock: MutexGuardArc<Client>,
    /// The setup that goes on once the call is finished.
    pub rest: SetupView,
}

impl WarmupView {
    /// The call is for a slot of the pool under construction, holds the lock
    /// of that very slot, has a request to send, and is followed by the
    /// warm-ups of the slots behind its own.
    pub open spec fn well_formed(self) -> bool {
        &&& self.rest.pool.well_formed()
        &&& self.rest.pool.health_check is Some
        &&& self.slot + 1 + self.rest.pending == self.rest.pool.slots.len()
        &&& lock_source(self.lock) == *self.rest.pool.slots[self.slot as int]
    }

    /// The request the call sends: a copy of the pool's warm-up request.
    pub open spec fn request(self) -> Request {
        request_copy(self.rest.pool.health_check->0)
    }
}

/// One warm-up call that is due: the locked client of one slot and the
/// request to send through it. The call owns the rest of the setup, so
/// nothing goes on before it is finished; finishing it releases the lock.
#[derive(Debug)]
pub struct WarmupCall {
    mg: MutexGuardArc<Client>,
    slot: usize,
    rest: PoolSetup,
}

impl View for WarmupCall {
    type V = WarmupView;

    closed spec fn view(&self) -> WarmupView {
        WarmupView { slot: self.slot as nat, lock: self.mg, rest: self.rest@ }
    }
}

impl WarmupCall {
    #[verifier::type_invariant]
    spec fn inv(self) -> bool {
        self@.well_formed()
    }

    /// Position of the slot this call warms up.
    pub fn slot(&self) -> (slot: usize)
        ensures
            slot == self@.slot,
            self@.well_formed(),
    {
        proof {
            use_type_invariant(self);
        }
        self.slot
    }

    /// The client to send the request through: the one behind the lock that
    /// the call holds.
    pub fn client(&self) -> (client: &Client)
        ensures
            *client == guarded_client(self@.lock),
    {
        deref_guard(&self.mg)
    }

    /// The request to send: a fresh copy of the pool's warm-up request.
    pub fn request(&self) -> (request: Request)
        ensures
            request == self@.request(),
    {
        proof {
            use_type_invariant(self);
        }
        match self.rest.pool.health_check() {
            Some(template) => clone_request(template),
            // A warm-up call is only made of a pool that has a request.
            None => vstd::pervasive::unreached(),
        }
    }

    /// Ends the call, however the request went: the slot's lock is released
    /// and the setup goes on behind this slot.
    pub fn finish(self) -> (rest: PoolSetup)
        ensures
            rest@ == self@.rest,
    {
        // The guard is dropped with what is left of the call, which releases
        // the lock.
        self.rest
    }
}

/// The next thing to do with a pool under construction.
#[derive(Debug)]
pub enum SetupStep {
    /// Send this warm-up call, ignore its outcome, finish the call and
    /// advance the setup that finishing gives back.
    Warm(WarmupCall),
    /// The slot at this position could not be locked without waiting, so no
    /// warm-up call was made for it. Nobody else can hold a lock of a pool
    /// that has not been handed out, so this is never a transient condition.
    /// The setup behind the slot comes along.
    Busy(usize, PoolSetup),
    /// No warm-up is left: the pool is ready for use.
    Ready(SurfPool),
}

impl SetupStep {
    /// The step that follows the probe of slot `slot`: with the lock, a
    /// warm-up call that holds it and keeps `rest`; without it, the report
    /// that the slot was busy.
    pub(crate) fn from_probe(
        probe: Option<MutexGuardArc<Client>>,
        slot: usize,
        rest: PoolSetup,
    ) -> (step: SetupStep)
        requires
            rest@.pool.health_check is Some,
            slot + 1 + rest@.pending == rest@.pool.slots.len(),
            probe matches Some(lock) ==> lock_source(lock) == *rest@.pool.slots[slot as int],
        ensures
            match (probe, step) {
                (Some(lock), SetupStep::Warm(call)) => call@ == (WarmupView {
                    slot: slot as nat,
                    lock,
                    rest: rest@,
                }),
                (None, SetupStep::Busy(busy, after)) => busy == slot && after@ == rest@,
                _ => false,
            },
    {
        proof {
            use_type_invariant(&rest);
        }
        match probe {
            Some(mg) => SetupStep::Warm(WarmupCall { mg, slot, rest }),
            None => SetupStep::Busy(slot, rest),
        }
    }
}

impl PoolSetup {
    #[verifier::type_invariant]
    spec fn inv(self) -> bool {
        &&& self.pool@.well_formed()
        &&& self.next <= self.pool@.slots.len()
        &&& self.warm ==> self.pool@.health_check is Some
    }

    /// Number of slots whose warm-up has not been handed out yet.
    pub fn pending(&self) -> (pending: usize)
        ensures
            pending == self@.pending,
            pending <= self@.pool.slots.len(),
            self@.pool.well_formed(),
    {
        proof {
            use_type_invariant(self);
        }
        if self.warm {
            self.pool.get_pool_size() - self.next
        } else {
            0
        }
    }

    /// Takes the next step of bringing the pool up.
    ///
    /// While warm-ups are pending, the step is for the lowest slot that has
    /// not had its turn: slots are warmed up in scan order, one per step, with
    /// a copy of the pool's warm-up request. Once none is pending the pool
    /// itself is handed out.
    pub fn advance(self) -> (step: SetupStep)
        ensures
            self@.pending <= self@.pool.slots.len(),
            match step {
                SetupStep::Warm(call) => {
                    &&& self@.pending > 0
                    &&& call@.well_formed()
                    &&& call@.slot == self@.pool.slots.len() - self@.pending
                    &&& call@.rest == (SetupView {
                        pool: self@.pool,
                        pending: (self@.pending - 1) as nat,
                    })
                },
                SetupStep::Busy(slot, rest) => {
                    &&& self@.pending > 0
                    &&& slot == self@.pool.slots.len() - self@.pending
                    &&& rest@ == (SetupView { pool: self@.pool, pending: (self@.pending - 1) as nat })
                },
                SetupStep::Ready(pool) => {
                    &&& self@.pending == 0
                    &&& pool@ == self@.pool
                },
            },
    {
        proof {
            use_type_invariant(&self);
        }
        if !self.warm || self.next >= self.pool.get_pool_size() {
            return SetupStep::Ready(self.pool);
        }
        let slot: usize = self.next;
        let probe = self.pool.probe_slot(slot);
        let rest = PoolSetup { pool: self.pool, warm: true, next: slot + 1 };
        SetupStep::from_probe(probe, slot, rest)
    }
}

} // verus!
