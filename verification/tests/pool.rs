use std::future::Future;
use std::pin::Pin;
use std::sync::atomic::{AtomicBool, AtomicUsize, Ordering};
use std::sync::Arc;
use std::sync::Mutex;
use std::task::{Context, Poll, Wake, Waker};

use async_weighted_semaphore::{AcquireFutureArc, SemaphoreGuardArc};
use surf_pool::{cold_pool, Handler, SurfPool};

/// A checkout that has been started and may be suspended.
struct Pending(Pin<Box<AcquireFutureArc>>);

impl Pending {
    fn start(pool: &SurfPool) -> Pending {
        Pending(Box::pin(pool.permit_request()))
    }

    /// Polls once; a permit comes back if the semaphore has let the caller
    /// through.
    fn poll(&mut self) -> Option<SemaphoreGuardArc> {
        let mut cx = Context::from_waker(Waker::noop());
        match self.0.as_mut().poll(&mut cx) {
            Poll::Ready(permit) => Some(permit.unwrap()),
            Poll::Pending => None,
        }
    }
}

/// A waker that writes down what the pool looks like at the moment it is
/// woken.
struct Witness {
    pool: SurfPool,
    seen: Mutex<Vec<String>>,
}

impl Wake for Witness {
    fn wake(self: Arc<Self>) {
        let picture = format!("{:?}", self.pool);
        self.seen.lock().unwrap().push(picture);
    }
}

/// Checks a handler out if that is possible without suspending.
fn checkout_now(pool: &SurfPool) -> Option<Handler<'_>> {
    let permit = Pending::start(pool).poll()?;
    Some(pool.get_handler(permit).expect("a permit holder finds a free slot"))
}

#[test]
fn sequential_checkouts_never_suspend() {
    let pool = cold_pool(3).unwrap();
    for _ in 0..3 {
        let handler = checkout_now(&pool).expect("the pool is idle");
        assert_eq!(handler.slot(), 0);
        drop(handler);
    }
}

#[test]
fn a_pool_of_one_suspends_the_second_checkout() {
    let pool = cold_pool(1).unwrap();
    let first = checkout_now(&pool).unwrap();
    assert_eq!(first.slot(), 0);
    let mut second = Pending::start(&pool);
    assert!(second.poll().is_none());
    assert!(second.poll().is_none());
    drop(first);
    let permit = second.poll().expect("the release lets the second caller through");
    let handler = pool.get_handler(permit).unwrap();
    assert_eq!(handler.slot(), 0);
}

#[test]
fn one_more_checkout_than_slots_leaves_one_suspended() {
    for size in [1usize, 2, 5] {
        let pool = cold_pool(size).unwrap();
        let mut live = Vec::new();
        for expected in 0..size {
            let handler = checkout_now(&pool).expect("a permit is left");
            assert_eq!(handler.slot(), expected);
            live.push(handler);
        }
        let mut extra = Pending::start(&pool);
        assert!(extra.poll().is_none());
        assert!(checkout_now(&pool).is_none());
        let released = live.remove(size / 2);
        let freed = released.slot();
        drop(released);
        let permit = extra.poll().expect("one release admits the suspended caller");
        let handler = pool.get_handler(permit).unwrap();
        assert_eq!(handler.slot(), freed);
        assert!(checkout_now(&pool).is_none());
    }
}

#[test]
fn waiting_callers_are_served_oldest_first() {
    let pool = cold_pool(1).unwrap();
    let first = checkout_now(&pool).unwrap();
    let mut older = Pending::start(&pool);
    let mut younger = Pending::start(&pool);
    assert!(older.poll().is_none());
    assert!(younger.poll().is_none());
    drop(first);
    assert!(younger.poll().is_none());
    let permit = older.poll().expect("the older caller is served first");
    let handler = pool.get_handler(permit).unwrap();
    assert!(younger.poll().is_none());
    drop(handler);
    let permit = younger.poll().expect("the younger caller is served next");
    assert!(pool.get_handler(permit).is_some());
}

#[test]
fn the_scan_takes_the_first_free_slot() {
    let pool = cold_pool(3).unwrap();
    let a = checkout_now(&pool).unwrap();
    let b = checkout_now(&pool).unwrap();
    let c = checkout_now(&pool).unwrap();
    assert_eq!((a.slot(), b.slot(), c.slot()), (0, 1, 2));
    drop(b);
    let d = checkout_now(&pool).unwrap();
    assert_eq!(d.slot(), 1);
    drop(a);
    drop(c);
    let e = checkout_now(&pool).unwrap();
    assert_eq!(e.slot(), 0);
    let f = checkout_now(&pool).unwrap();
    assert_eq!(f.slot(), 2);
}

#[test]
fn a_scan_that_finds_every_slot_locked_yields_nothing_and_returns_the_permit() {
    let pool = cold_pool(1).unwrap();
    let other = cold_pool(1).unwrap();
    let held = checkout_now(&pool).unwrap();
    let foreign = Pending::start(&other).poll().unwrap();
    assert!(Pending::start(&other).poll().is_none());
    assert!(pool.get_handler(foreign).is_none());
    assert!(Pending::start(&other).poll().is_some());
    drop(held);
}

#[test]
fn a_clone_shares_the_slots_and_the_semaphore() {
    let pool = cold_pool(2).unwrap();
    let twin = pool.clone();
    assert_eq!(twin.get_pool_size(), 2);
    let a = checkout_now(&pool).unwrap();
    let b = checkout_now(&twin).unwrap();
    assert_eq!((a.slot(), b.slot()), (0, 1));
    assert!(checkout_now(&pool).is_none());
    assert!(checkout_now(&twin).is_none());
    drop(a);
    assert_eq!(checkout_now(&twin).unwrap().slot(), 0);
}

#[test]
fn a_handler_knows_the_pool_it_came_from() {
    let pool = cold_pool(2).unwrap();
    let first = checkout_now(&pool).unwrap();
    let second = checkout_now(first.pool()).unwrap();
    assert_eq!((first.slot(), second.slot()), (0, 1));
    assert_eq!(second.pool().get_pool_size(), 2);
    assert!(checkout_now(second.pool()).is_none());
}

#[test]
fn a_permit_that_is_dropped_unused_goes_back() {
    let pool = cold_pool(1).unwrap();
    let permit = Pending::start(&pool).poll().unwrap();
    assert!(Pending::start(&pool).poll().is_none());
    drop(permit);
    assert_eq!(checkout_now(&pool).unwrap().slot(), 0);
}

#[test]
fn a_request_that_is_dropped_after_the_grant_gives_its_permit_back() {
    let pool = cold_pool(1).unwrap();
    let first = checkout_now(&pool).unwrap();
    let mut gone = Pending::start(&pool);
    let mut next = Pending::start(&pool);
    assert!(gone.poll().is_none());
    assert!(next.poll().is_none());
    drop(first);
    assert!(next.poll().is_none());
    drop(gone);
    let permit = next.poll().expect("the permit of the caller that gave up was passed on");
    assert_eq!(pool.get_handler(permit).unwrap().slot(), 0);
}

#[test]
fn a_request_that_is_dropped_while_it_waits_leaves_the_queue() {
    let pool = cold_pool(1).unwrap();
    let first = checkout_now(&pool).unwrap();
    let mut gone = Pending::start(&pool);
    let mut next = Pending::start(&pool);
    assert!(gone.poll().is_none());
    assert!(next.poll().is_none());
    drop(gone);
    drop(first);
    let permit = next.poll().expect("nobody is ahead of the caller any more");
    assert_eq!(pool.get_handler(permit).unwrap().slot(), 0);
}

#[test]
fn independent_pools_do_not_share_permits() {
    let one = cold_pool(1).unwrap();
    let two = cold_pool(1).unwrap();
    let a = checkout_now(&one).unwrap();
    let b = checkout_now(&two).unwrap();
    assert_eq!((a.slot(), b.slot()), (0, 0));
}

#[test]
fn the_handler_gives_access_to_a_client() {
    let pool = cold_pool(1).unwrap();
    let handler = checkout_now(&pool).unwrap();
    let request = handler
        .get_client()
        .get("https://pot.pizzamig.dev")
        .build();
    assert_eq!(request.url().as_str(), "https://pot.pizzamig.dev/");
    assert_eq!(request.method(), surf::http::Method::Get);
}

#[test]
fn a_checkout_awaited_on_the_runtime_resolves() {
    let pool = cold_pool(2).unwrap();
    let handler = async_std::task::block_on(async {
        let permit = pool.permit_request().await.unwrap();
        pool.get_handler(permit).unwrap()
    });
    assert_eq!(handler.slot(), 0);
}

#[test]
fn concurrent_callers_never_share_a_slot() {
    const SLOTS: usize = 3;
    const TASKS: usize = 16;
    const ROUNDS: usize = 40;
    let pool = cold_pool(SLOTS).unwrap();
    let in_use: Arc<Vec<AtomicBool>> = Arc::new((0..SLOTS).map(|_| AtomicBool::new(false)).collect());
    let counters: Arc<Vec<AtomicUsize>> =
        Arc::new((0..SLOTS).map(|_| AtomicUsize::new(0)).collect());
    let live = Arc::new(AtomicUsize::new(0));
    let mut tasks = Vec::new();
    for _ in 0..TASKS {
        let pool = pool.clone();
        let in_use = in_use.clone();
        let counters = counters.clone();
        let live = live.clone();
        tasks.push(async_std::task::spawn(async move {
            for _ in 0..ROUNDS {
                let permit = pool.permit_request().await.unwrap();
                let handler = pool
                    .get_handler(permit)
                    .expect("a permit holder finds a free slot");
                let slot = handler.slot();
                assert!(live.fetch_add(1, Ordering::SeqCst) < SLOTS);
                assert!(!in_use[slot].swap(true, Ordering::SeqCst));
                let seen = counters[slot].load(Ordering::SeqCst);
                async_std::task::yield_now().await;
                counters[slot].store(seen + 1, Ordering::SeqCst);
                in_use[slot].store(false, Ordering::SeqCst);
                live.fetch_sub(1, Ordering::SeqCst);
                drop(handler);
            }
        }));
    }
    async_std::task::block_on(async {
        for task in tasks {
            task.await;
        }
    });
    let total: usize = counters.iter().map(|c| c.load(Ordering::SeqCst)).sum();
    assert_eq!(total, TASKS * ROUNDS);
}

#[test]
fn the_lock_is_free_by_the_time_the_permit_wakes_a_waiter() {
    let pool = cold_pool(1).unwrap();
    let handler = checkout_now(&pool).unwrap();
    assert!(format!("{:?}", pool).contains("<locked>"));
    let witness = Arc::new(Witness {
        pool: pool.clone(),
        seen: Mutex::new(Vec::new()),
    });
    let waker = Waker::from(witness.clone());
    let mut cx = Context::from_waker(&waker);
    let mut waiting = Box::pin(pool.permit_request());
    assert!(waiting.as_mut().poll(&mut cx).is_pending());
    assert!(witness.seen.lock().unwrap().is_empty());
    drop(handler);
    {
        let seen = witness.seen.lock().unwrap();
        assert_eq!(seen.len(), 1);
        assert!(!seen[0].contains("<locked>"));
    }
    let permit = match waiting.as_mut().poll(&mut cx) {
        Poll::Ready(permit) => permit.unwrap(),
        Poll::Pending => panic!("the waiter was woken"),
    };
    assert_eq!(pool.get_handler(permit).unwrap().slot(), 0);
}
