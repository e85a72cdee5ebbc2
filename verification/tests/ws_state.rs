use robot_bus::errors::BusError;
use robot_bus::ws_state::WsState;

#[test]
fn first_subscription_opens_the_stream_and_depths_must_agree() {
    let mut s: WsState<u32, (), ()> = WsState::new();
    let (h1, start1) = s.subscribe("/imu", 1, 1, (), Some(10)).unwrap();
    assert!(start1);
    assert!(s.is_active("/imu"));
    assert_eq!(s.topic_depth("/imu"), 10);
    let (h2, start2) = s.subscribe("/imu", 2, 2, (), Some(10)).unwrap();
    assert!(!start2);
    assert_ne!(h1.id(), h2.id());
    match s.subscribe("/imu", 3, 3, (), None) {
        Err(BusError::Protocol(m)) => assert_eq!(m, "conflicting KeepLast depth for /imu"),
        _ => panic!("a different queue size must be refused"),
    }
    assert_eq!(s.topics().matching_callbacks("/imu").len(), 2);

    s.record_stream("/imu", 7);
    assert_eq!(s.destroy_subscription(h1).unwrap(), None);
    assert!(s.is_active("/imu"));
    assert_eq!(s.destroy_subscription(h2).unwrap(), Some(7));
    assert!(!s.is_active("/imu"));
    assert_eq!(s.topic_depth("/imu"), 0);
    match s.destroy_subscription(h2) {
        Err(BusError::Protocol(m)) => assert_eq!(m, format!("unknown subscription id {}", h2.id())),
        _ => panic!("a destroyed subscription is unknown"),
    }
}

#[test]
fn default_depths_share_one_queue_size() {
    let mut s: WsState<u32, (), ()> = WsState::new();
    let (_, start) = s.subscribe("/cam", 1, 1, (), None).unwrap();
    assert!(start);
    // 0 and the default both mean the gateway's default queue (64).
    assert!(s.subscribe("/cam", 2, 2, (), Some(0)).is_ok());
    assert!(s.subscribe("/cam", 3, 3, (), Some(64)).is_ok());
    // Depths above the largest queue are clamped to it.
    let (_, start) = s.subscribe("/big", 4, 4, (), Some(2_000_000)).unwrap();
    assert!(start);
    assert!(s.subscribe("/big", 5, 5, (), Some(3_000_000)).is_ok());
    assert!(s.subscribe("/big", 6, 6, (), Some(1000)).is_err());
}

#[test]
fn resubscribing_after_the_last_destroy_opens_a_new_stream() {
    let mut s: WsState<u32, (), ()> = WsState::new();
    let (h, _) = s.subscribe("/odom", 1, 1, (), Some(5)).unwrap();
    assert_eq!(s.destroy_subscription(h).unwrap(), None);
    let (_, start) = s.subscribe("/odom", 1, 1, (), Some(100)).unwrap();
    assert!(start);
    assert_eq!(s.topic_depth("/odom"), 100);
}

#[test]
fn ws_timers_cancel_by_handle() {
    let mut s: WsState<u32, (), ()> = WsState::new();
    let mut other: WsState<u32, (), ()> = WsState::new();
    let foreign = other.create_timer(5, 0, (), ());
    match s.cancel_timer(foreign) {
        Err(BusError::Protocol(m)) => assert_eq!(m, "unknown timer id 1"),
        _ => panic!("unknown timers are refused"),
    }
    let t = s.create_timer(1_000_000, 0, (), ());
    assert!(s.cancel_timer(t).is_ok());
    assert!(s.timers_mut()[0].cancelled);
}
