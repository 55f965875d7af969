//! The boundary to the crates the pool is built from.
//!
//! Everything in this module is believed, not proved: the declarations make
//! the outside types known, and each wrapper carries a contract that restates
//! what the wrapped function's source shows.
//!
//! A mutex or a semaphore has no contents that a contract could compare:
//! what it holds changes behind shared references. In contracts such an
//! object stands for itself, and two of them are equal when they are one and
//! the same object. A shared pointer is equal to what it points to, so two
//! pointers to one mutex are equal as well.
use async_std::sync::{Mutex, MutexGuardArc};
use async_weighted_semaphore::{AcquireFutureArc, PoisonError, Semaphore, SemaphoreGuardArc};
use std::sync::Arc;
use surf::{Client, Request};
use crate::error::MAX_POOL_SIZE;
use vstd::prelude::*;

verus! {

/// An HTTP client of `surf`.
#[verifier::external_type_specification]
#[verifier::external_body]
pub struct ExClient(Client);

/// An HTTP request of `surf`.
#[verifier::external_type_specification]
#[verifier::external_body]
pub struct ExRequest(Request);

/// The asynchronous mutex of `async_std`.
#[verifier::external_type_specification]
#[verifier::external_body]
#[verifier::reject_recursive_types(T)]
pub struct ExMutex<T: ?Sized>(Mutex<T>);

/// An owned guard of that mutex; dropping it releases the lock.
#[verifier::external_type_specification]
#[verifier::external_body]
#[verifier::reject_recursive_types(T)]
pub struct ExMutexGuardArc<T: ?Sized>(MutexGuardArc<T>);

/// The weighted semaphore of `async_weighted_semaphore`.
#[verifier::external_type_specification]
#[verifier::external_body]
pub struct ExSemaphore(Semaphore);

/// An owned guard of that semaphore; dropping it gives its permits back.
#[verifier::external_type_specification]
#[verifier::external_body]
pub struct ExSemaphoreGuardArc(SemaphoreGuardArc);

/// A pending acquisition on that semaphore: a future that yields a guard.
#[verifier::external_type_specification]
#[verifier::external_body]
pub struct ExAcquireFutureArc(AcquireFutureArc);

/// The error a pending acquisition ends with on a poisoned semaphore. The
/// type of a pending acquisition names it as part of what the future yields,
/// so it has to be known wherever that type is.
#[verifier::external_type_specification]
#[verifier::external_body]
pub struct ExPoisonError(PoisonError);

/// The number of permits a semaphore was created with.
pub uninterp spec fn initial_permits(semaphore: Semaphore) -> nat;

/// The semaphore a pending acquisition is queued on, and the number of
/// permits it asks for.
pub uninterp spec fn acquisition(request: AcquireFutureArc) -> (Semaphore, nat);

/// The mutex whose lock a guard holds.
pub uninterp spec fn lock_source(guard: MutexGuardArc<Client>) -> Mutex<Client>;

/// The client a guard gives access to.
pub uninterp spec fn guarded_client(guard: MutexGuardArc<Client>) -> Client;

/// The copy that cloning makes of a request.
pub uninterp spec fn request_copy(request: Request) -> Request;

/// `Arc::clone`: another pointer to the same allocation, which contracts do
/// not tell apart from the first.
#[verifier::external_body]
pub(crate) fn share<T>(pointer: &Arc<T>) -> (copy: Arc<T>)
    ensures
        copy == *pointer,
{
    Arc::clone(pointer)
}

/// `surf::Client::new`: a fresh client on the default backend. Nothing is
/// claimed of the client.
#[verifier::external_body]
pub(crate) fn new_client() -> (client: Client) {
    Client::new()
}

/// `async_std::sync::Mutex::new`: an unlocked mutex around `client`, with a
/// lock state of its own. The contract claims that the new mutex is none of
/// the mutexes in `existing`, all of which were made before it. The call
/// itself neither reads nor changes `existing`, which is only there for the
/// contract to speak of.
#[verifier::external_body]
pub(crate) fn new_mutex(client: Client, existing: &Vec<Arc<Mutex<Client>>>) -> (mutex: Mutex<
    Client,
>)
    ensures
        forall|i: int| 0 <= i < existing@.len() ==> *#[trigger] existing@[i] != mutex,
{
    Mutex::new(client)
}

/// `async_weighted_semaphore::Semaphore::new`: a semaphore whose counter
/// starts at `permits`. The semaphore stores a count above its own limit,
/// which is far above [`MAX_POOL_SIZE`], as poisoned; such counts are left
/// out.
#[verifier::external_body]
pub(crate) fn new_semaphore(permits: usize) -> (semaphore: Semaphore)
    requires
        permits <= MAX_POOL_SIZE,
    ensures
        initial_permits(semaphore) == permits,
{
    Semaphore::new(permits)
}

/// `Semaphore::acquire_arc`: a pending acquisition of `amount` permits on
/// `semaphore`. The call itself takes nothing from the semaphore; the
/// permits are taken when the returned future is driven to completion.
#[verifier::external_body]
pub(crate) fn acquire_arc(semaphore: &Arc<Semaphore>, amount: usize) -> (request:
    AcquireFutureArc)
    ensures
        acquisition(request) == (**semaphore, amount as nat),
{
    semaphore.acquire_arc(amount)
}

/// `Mutex::try_lock_arc`: takes the lock if it is free and never waits. A
/// guard that comes back holds the lock of `mutex`; whether one comes back
/// depends on who else holds the lock, so nothing is claimed about that.
#[verifier::external_body]
pub(crate) fn try_lock_arc(mutex: &Arc<Mutex<Client>>) -> (guard: Option<MutexGuardArc<Client>>)
    ensures
        guard matches Some(g) ==> lock_source(g) == **mutex,
{
    mutex.try_lock_arc()
}

/// `Deref::deref` of `MutexGuardArc`: the client behind the lock that
/// `guard` holds.
#[verifier::external_body]
pub(crate) fn deref_guard(guard: &MutexGuardArc<Client>) -> (client: &Client)
    ensures
        *client == guarded_client(*guard),
{
    &**guard
}

/// `Clone::clone` of `surf::Request`: a copy with the same method, address
/// and headers, and an empty body.
#[verifier::external_body]
pub(crate) fn clone_request(request: &Request) -> (copy: Request)
    ensures
        copy == request_copy(*request),
{
    request.clone()
}

} // verus!
