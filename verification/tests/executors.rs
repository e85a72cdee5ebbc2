use robot_bus::errors::BusError;
use robot_bus::executors::{
    spin_some_poll_ms, timeout_to_ms, ExecutorHandle, MultiThreadedExecutor, RegistrationKind,
    SingleThreadedExecutor, DEFAULT_POLL_TIMEOUT_MS,
};
use robot_bus::qos::HighWaterMark;
use robot_bus::timers::{effective_poll_timeout_ms, ms_until_next_timer, tick_timers, Timer};

type Exec = SingleThreadedExecutor<&'static str, &'static str, ()>;

fn protocol(r: Result<impl std::fmt::Debug, BusError>) -> String {
    match r {
        Err(BusError::Protocol(m)) => m,
        other => panic!("expected a protocol error, got {other:?}"),
    }
}

#[test]
fn spin_needs_something_registered() {
    let mut ex: Exec = SingleThreadedExecutor::new();
    assert_eq!(
        protocol(ex.spin_once(None)),
        "nothing registered; connect_subscriber, register worker, or create_timer first"
    );
    ex.handle_mut().create_timer(10_000_000, 0, "tick", ()).unwrap();
    assert_eq!(ex.spin_once(None).unwrap(), DEFAULT_POLL_TIMEOUT_MS);
    assert_eq!(ex.spin_once(Some(0)).unwrap(), 0);
    assert_eq!(ex.spin_once(Some(40)).unwrap(), 40);
}

#[test]
fn timers_get_increasing_ids_and_cancel_checks_them() {
    let mut ex: Exec = SingleThreadedExecutor::new();
    let h = ex.handle_mut();
    assert_eq!(h.next_timer_id(), 1);
    let a = h.create_timer(1_000, 0, "a", ()).unwrap();
    let b = h.create_timer(2_000, 0, "b", ()).unwrap();
    assert_ne!(a, b);
    assert_eq!(h.next_timer_id(), 3);
    assert_eq!(
        protocol(h.create_timer(0, 0, "zero", ())),
        "timer period must be greater than zero"
    );
    h.cancel_timer(a).unwrap();
    assert!(h.timers_mut()[0].cancelled);
    assert!(!h.timers_mut()[1].cancelled);
}

#[test]
fn unknown_timer_is_reported_by_id() {
    let mut other: Exec = SingleThreadedExecutor::new();
    let foreign = other.handle_mut().create_timer(5, 0, "x", ()).unwrap();
    let mut ex: Exec = SingleThreadedExecutor::new();
    assert_eq!(protocol(ex.handle_mut().cancel_timer(foreign)), "unknown timer id 1");
}

#[test]
fn start_takes_over_and_blocks_other_steps() {
    let mut ex: Exec = SingleThreadedExecutor::new();
    ex.handle_mut().connect_subscriber("sub").unwrap();
    let (sockets, timers) = ex.start().unwrap().expect("a thread starts");
    assert_eq!(sockets, vec![(RegistrationKind::Sub, "sub")]);
    assert!(timers.is_empty());
    assert!(ex.start().unwrap().is_none());
    assert_eq!(protocol(ex.spin_once(None)), "spin_once() cannot run while start() is active");
    assert_eq!(protocol(ex.spin()), "spin() cannot run while start() is active");
    assert_eq!(protocol(ex.spin_some()), "spin_some() cannot run while start() is active");
    assert_eq!(
        protocol(ex.handle_mut().create_timer(1, 0, "t", ())),
        "create_timer() cannot run while start() is active"
    );
    let (join, _) = ex.stop().expect("first stop does the work");
    assert!(join);
    assert!(ex.stop().is_none());
    assert!(matches!(ex.spin(), Err(BusError::Closed)));
    assert!(!ex.wait());
}

#[test]
fn workers_join_polled_sockets_from_the_back() {
    let mut ex: ExecutorHandle<&'static str, (), ()> = ExecutorHandle::new();
    ex.register_service("svc").unwrap();
    ex.register_action("act").unwrap();
    ex.connect_action_client("client").unwrap();
    assert_eq!(
        protocol(ex.connect_action_client("again")),
        "action client already connected"
    );
    ex.check_send_goal().unwrap();
    ex.check_cancel_goal().unwrap();
    assert_eq!(
        ex.sockets_mut().clone(),
        vec![
            (RegistrationKind::Service, "svc"),
            (RegistrationKind::Action, "act"),
            (RegistrationKind::ActionClient, "client"),
        ]
    );
    assert_eq!(protocol(ex.check_subscribe()), "connect_subscriber() before subscribe()");
}

#[test]
fn goals_need_an_action_client() {
    let ex: ExecutorHandle<(), (), ()> = ExecutorHandle::new();
    assert_eq!(protocol(ex.check_send_goal()), "connect_action_client() before send_goal()");
    assert_eq!(protocol(ex.check_cancel_goal()), "connect_action_client() before cancel_goal()");
}

#[test]
fn marks_and_pool_sizes() {
    let mut ex: MultiThreadedExecutor<(), (), ()> = MultiThreadedExecutor::new(0);
    let pool = ex.handle().worker_pool().unwrap();
    assert_eq!(pool.workers, 1);
    assert_eq!(pool.admission_limit, 1024);
    assert_eq!(ex.handle().stream_hwm(), HighWaterMark::stream());
    ex.handle_mut().set_stream_hwm(HighWaterMark::new(3, 4)).unwrap();
    assert_eq!(ex.handle().stream_hwm(), HighWaterMark::new(3, 4));
    ex.handle_mut().set_rpc_hwm(HighWaterMark::new(5, 6)).unwrap();
    ex.handle_mut().set_action_hwm(HighWaterMark::new(7, 8)).unwrap();
    assert_eq!(ex.handle().rpc_hwm(), HighWaterMark::new(5, 6));
    assert_eq!(ex.handle().action_hwm(), HighWaterMark::new(7, 8));
    assert!(ex.stop().is_some());
    assert!(matches!(ex.handle_mut().set_stream_hwm(HighWaterMark::stream()), Err(BusError::Closed)));
    let single: Exec = SingleThreadedExecutor::new();
    assert!(single.handle().worker_pool().is_none());
    assert!(single.shutdown().is_ok());
    let token = single.shutdown_handle().unwrap();
    assert!(!token.is_running());
}

#[test]
fn spin_some_drains_then_stops() {
    assert_eq!(spin_some_poll_ms(true, Some(500)), Some(0));
    assert_eq!(spin_some_poll_ms(false, Some(0)), None);
    assert_eq!(spin_some_poll_ms(false, Some(120_000_000)), Some(120));
    // Less than a millisecond left still polls once, without waiting.
    assert_eq!(spin_some_poll_ms(false, Some(400_000)), Some(0));
    assert_eq!(spin_some_poll_ms(false, None), Some(DEFAULT_POLL_TIMEOUT_MS));
    assert_eq!(spin_some_poll_ms(false, Some(u128::MAX)), Some(i64::MAX));
    assert_eq!(timeout_to_ms(Some(u128::MAX)), i64::MAX);
    assert_eq!(timeout_to_ms(None), 250);
}

#[test]
fn due_timers_fire_once_and_reschedule() {
    let mut timers = vec![
        Timer::new(1, 1_000_000, 0, "a", ()),
        Timer::new(2, 5_000_000, 0, "b", ()),
        Timer::new(3, 1_000_000, 0, "c", ()),
    ];
    timers[2].cancelled = true;
    assert_eq!(ms_until_next_timer(&timers, 0), Some(1));
    assert_eq!(effective_poll_timeout_ms(&timers, 250, 0), 1);
    assert_eq!(effective_poll_timeout_ms(&timers, -5, 0), 0);
    let fired = tick_timers(&mut timers, 2_000_000);
    assert_eq!(fired, vec![0]);
    assert_eq!(timers[0].next_deadline_ns, 3_000_000);
    assert_eq!(timers[1].next_deadline_ns, 5_000_000);
    assert_eq!(ms_until_next_timer(&timers, 2_000_000), Some(1));
    let fired = tick_timers(&mut timers, 6_000_000);
    assert_eq!(fired, vec![0, 1]);
    assert_eq!(timers[1].next_deadline_ns, 11_000_000);
    let none: Vec<Timer<(), ()>> = Vec::new();
    assert_eq!(ms_until_next_timer(&none, 0), None);
    assert_eq!(effective_poll_timeout_ms(&none, 250, 0), 250);
}

#[test]
fn shutdown_handles_share_the_executor_flag() {
    let e: SingleThreadedExecutor<(), (), ()> = SingleThreadedExecutor::new();
    let h = e.shutdown_handle().unwrap();
    h.set_running();
    assert!(e.shutdown_handle().unwrap().is_running());
    e.shutdown().unwrap();
    assert!(!h.is_running());
    let copy = h.share();
    copy.set_running();
    assert!(h.is_running());
}
