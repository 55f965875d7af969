use surf_pool::{
    cold_pool, Handler, PoolSetup, SetupStep, SurfPool, SurfPoolBuilder, SurfPoolError,
};

const PROBE_URL: &str = "https://pot.pizzamig.dev/";

/// Drives a setup to the end without sending anything and reports the slots
/// whose warm-up call was handed out, in the order in which they came.
fn finish(setup: PoolSetup) -> (SurfPool, Vec<usize>) {
    let mut warmed = Vec::new();
    let mut setup = setup;
    loop {
        let pending = setup.pending();
        match setup.advance() {
            SetupStep::Warm(call) => {
                warmed.push(call.slot());
                let request = call.request();
                assert_eq!(request.url().as_str(), PROBE_URL);
                assert_eq!(request.method(), surf::http::Method::Get);
                let again = call.client().get(PROBE_URL).build();
                assert_eq!(again.url().as_str(), PROBE_URL);
                setup = call.finish();
                assert_eq!(setup.pending() + 1, pending);
            }
            SetupStep::Busy(slot, _) => panic!("slot {} was locked during setup", slot),
            SetupStep::Ready(pool) => {
                assert_eq!(pending, 0);
                return (pool, warmed);
            }
        }
    }
}

/// Checks a handler out, waiting for a permit if need be.
fn checkout(pool: &SurfPool) -> Handler<'_> {
    async_std::task::block_on(async {
        let permit = pool.permit_request().await.unwrap();
        pool.get_handler(permit).unwrap()
    })
}

#[test]
fn size_zero_is_rejected() {
    assert!(matches!(
        SurfPoolBuilder::new(0),
        Err(SurfPoolError::SizeNotValid(0))
    ));
    assert!(matches!(cold_pool(0), Err(SurfPoolError::SizeNotValid(0))));
}

#[test]
fn size_above_the_maximum_is_rejected() {
    assert!(matches!(
        SurfPoolBuilder::new(101),
        Err(SurfPoolError::SizeNotValid(101))
    ));
    assert!(matches!(
        SurfPoolBuilder::new(usize::MAX),
        Err(SurfPoolError::SizeNotValid(usize::MAX))
    ));
    assert!(matches!(
        cold_pool(101),
        Err(SurfPoolError::SizeNotValid(101))
    ));
}

#[test]
fn the_maximum_is_one_hundred() {
    assert_eq!(surf_pool::MAX_POOL_SIZE, 100);
    assert!(SurfPoolBuilder::new(100).is_ok());
    assert!(SurfPoolBuilder::new(1).is_ok());
}

#[test]
fn every_valid_size_gives_a_pool_of_that_size() {
    for size in [1usize, 2, 3, 50, 99, 100] {
        let setup = SurfPoolBuilder::new(size).unwrap().build();
        assert_eq!(setup.pending(), 0);
        let (pool, warmed) = finish(setup);
        assert_eq!(pool.get_pool_size(), size);
        assert!(warmed.is_empty());
        assert!(pool.health_check().is_none());
    }
}

#[test]
fn cold_pool_has_the_requested_size() {
    for size in 1usize..=100 {
        let pool = cold_pool(size).unwrap();
        assert_eq!(pool.get_pool_size(), size);
        assert!(pool.health_check().is_none());
    }
}

#[test]
fn with_pre_connected_pool() {
    let builder = SurfPoolBuilder::new(3)
        .unwrap()
        .health_check(surf::get("https://pot.pizzamig.dev").build())
        .pre_connect(true);
    let setup = builder.build();
    assert_eq!(setup.pending(), 3);
    let (uut, warmed) = finish(setup);
    assert_eq!(warmed, vec![0, 1, 2]);
    assert_eq!(uut.get_pool_size(), 3);
    assert_eq!(uut.health_check().unwrap().url().as_str(), PROBE_URL);
    let handler = checkout(&uut);
    let request = handler
        .get_client()
        .get("https://pot.pizzamig.dev")
        .build();
    assert_eq!(request.url().as_str(), PROBE_URL);
    let h2 = checkout(&uut);
    let request = h2.get_client().get("https://pot.pizzamig.dev").build();
    assert_eq!(request.url().as_str(), PROBE_URL);
    assert_eq!((handler.slot(), h2.slot()), (0, 1));
}

#[test]
fn not_pre_connected_pool() {
    let builder = SurfPoolBuilder::new(3)
        .unwrap()
        .health_check(surf::get("https://pot.pizzamig.dev").build())
        .pre_connect(false);
    let setup = builder.build();
    assert_eq!(setup.pending(), 0);
    let (uut, warmed) = finish(setup);
    assert!(warmed.is_empty());
    assert_eq!(uut.get_pool_size(), 3);
    assert_eq!(uut.health_check().unwrap().url().as_str(), PROBE_URL);
    let handler = checkout(&uut);
    let request = handler
        .get_client()
        .get("https://pot.pizzamig.dev")
        .build();
    assert_eq!(request.url().as_str(), PROBE_URL);
    assert_eq!(handler.slot(), 0);
    drop(handler);
    let h2 = checkout(&uut);
    let request = h2.get_client().get("https://pot.pizzamig.dev").build();
    assert_eq!(request.url().as_str(), PROBE_URL);
    assert_eq!(h2.slot(), 0);
}

#[test]
fn pre_connect_without_a_request_warms_nothing() {
    let setup = SurfPoolBuilder::new(4).unwrap().pre_connect(true).build();
    assert_eq!(setup.pending(), 0);
    let (pool, warmed) = finish(setup);
    assert!(warmed.is_empty());
    assert_eq!(pool.get_pool_size(), 4);
    assert!(pool.health_check().is_none());
}

#[test]
fn the_order_of_the_builder_calls_does_not_matter() {
    let setup = SurfPoolBuilder::new(2)
        .unwrap()
        .pre_connect(true)
        .health_check(surf::get(PROBE_URL).build())
        .build();
    assert_eq!(setup.pending(), 2);
    let (_, warmed) = finish(setup);
    assert_eq!(warmed, vec![0, 1]);
}

#[test]
fn the_last_request_and_the_last_flag_win() {
    let setup = SurfPoolBuilder::new(2)
        .unwrap()
        .health_check(surf::post("https://example.org/first").build())
        .health_check(surf::get(PROBE_URL).build())
        .pre_connect(false)
        .pre_connect(true)
        .build();
    assert_eq!(setup.pending(), 2);
    let template = {
        let (pool, warmed) = finish(setup);
        assert_eq!(warmed, vec![0, 1]);
        pool.health_check().unwrap().clone()
    };
    assert_eq!(template.url().as_str(), PROBE_URL);
    assert_eq!(template.method(), surf::http::Method::Get);
}

#[test]
fn a_warm_up_call_keeps_its_slot_locked_until_it_is_finished() {
    let setup = SurfPoolBuilder::new(2)
        .unwrap()
        .health_check(surf::get(PROBE_URL).build())
        .pre_connect(true)
        .build();
    assert!(!format!("{:?}", setup).contains("<locked>"));
    let call = match setup.advance() {
        SetupStep::Warm(call) => call,
        _ => panic!("two warm-ups are due"),
    };
    assert_eq!(call.slot(), 0);
    assert_eq!(format!("{:?}", call).matches("<locked>").count(), 1);
    let rest = call.finish();
    assert_eq!(rest.pending(), 1);
    assert!(!format!("{:?}", rest).contains("<locked>"));
    let call = match rest.advance() {
        SetupStep::Warm(call) => call,
        _ => panic!("one warm-up is due"),
    };
    assert_eq!(call.slot(), 1);
    assert_eq!(format!("{:?}", call).matches("<locked>").count(), 1);
    let rest = call.finish();
    assert_eq!(rest.pending(), 0);
    assert!(matches!(rest.advance(), SetupStep::Ready(_)));
}

#[test]
fn every_slot_is_free_once_a_warmed_up_pool_is_ready() {
    let setup = SurfPoolBuilder::new(4)
        .unwrap()
        .health_check(surf::get(PROBE_URL).build())
        .pre_connect(true)
        .build();
    let (pool, warmed) = finish(setup);
    assert_eq!(warmed, vec![0, 1, 2, 3]);
    assert!(!format!("{:?}", pool).contains("<locked>"));
    let live: Vec<Handler<'_>> = (0..4).map(|_| checkout(&pool)).collect();
    let slots: Vec<usize> = live.iter().map(|handler| handler.slot()).collect();
    assert_eq!(slots, vec![0, 1, 2, 3]);
    assert_eq!(format!("{:?}", pool).matches("<locked>").count(), 4);
}

#[test]
fn a_warm_up_call_carries_a_copy_of_the_request_without_its_body() {
    let template = surf::post(PROBE_URL)
        .header("x-probe", "yes")
        .body("ping")
        .build();
    assert_eq!(template.len(), Some(4));
    let setup = SurfPoolBuilder::new(1)
        .unwrap()
        .health_check(template)
        .pre_connect(true)
        .build();
    let call = match setup.advance() {
        SetupStep::Warm(call) => call,
        _ => panic!("one warm-up is due"),
    };
    for _ in 0..2 {
        let request = call.request();
        assert_eq!(request.url().as_str(), PROBE_URL);
        assert_eq!(request.method(), surf::http::Method::Post);
        assert_eq!(request.header("x-probe").unwrap().as_str(), "yes");
        assert_eq!(request.len(), Some(0));
    }
    let pool = match call.finish().advance() {
        SetupStep::Ready(pool) => pool,
        _ => panic!("nothing is pending after the only slot"),
    };
    assert_eq!(pool.health_check().unwrap().len(), Some(4));
    let twin = pool.clone();
    let copied = twin.health_check().unwrap();
    assert_eq!(copied.url().as_str(), PROBE_URL);
    assert_eq!(copied.len(), Some(0));
}
