use robot_bus::errors::BusError;
use robot_bus::ws_streams::{
    control_trailer, fail_all, on_data, on_trailer, open_stream, ControlTrailer, DataStep, Heartbeat,
    PingTick, StreamTable, TrailerStep, WsStreamKind,
};

#[test]
fn unary_data_waits_for_its_trailer() {
    let mut t = StreamTable::new();
    open_stream(&mut t, 1, WsStreamKind::Unary, "call");
    assert!(matches!(on_data(&mut t, 1, b"first".to_vec()), DataStep::Stored));
    assert!(matches!(on_data(&mut t, 1, b"last".to_vec()), DataStep::Stored));
    match on_trailer(&mut t, 1, 0, "") {
        TrailerStep::Reply { handle, body } => assert_eq!((handle, body), ("call", b"last".to_vec())),
        _ => panic!("reply expected"),
    }
    assert!(!t.contains(1));
    assert!(matches!(on_trailer(&mut t, 1, 0, ""), TrailerStep::Ignore));
}

#[test]
fn unary_trailer_without_data_answers_empty() {
    let mut t = StreamTable::new();
    open_stream(&mut t, 4, WsStreamKind::Unary, ());
    match on_trailer(&mut t, 4, 0, "") {
        TrailerStep::Reply { body, .. } => assert!(body.is_empty()),
        _ => panic!("reply expected"),
    }
}

#[test]
fn data_of_unknown_streams_is_dropped_and_others_pass_on() {
    let mut t = StreamTable::new();
    assert!(matches!(on_data(&mut t, 9, b"x".to_vec()), DataStep::Ignore));
    open_stream(&mut t, 2, WsStreamKind::Subscribe, "sub");
    open_stream(&mut t, 3, WsStreamKind::Action, "goal");
    assert!(matches!(on_data(&mut t, 2, b"m".to_vec()), DataStep::Topic(p) if p == b"m"));
    assert!(matches!(on_data(&mut t, 3, b"e".to_vec()), DataStep::Action(p) if p == b"e"));
    assert!(matches!(on_trailer(&mut t, 2, 0, ""), TrailerStep::Done { handle: "sub" }));
    assert!(matches!(on_trailer(&mut t, 3, 0, ""), TrailerStep::Ended { handle: "goal" }));
    assert_eq!(t.len(), 0);
}

#[test]
fn a_failed_trailer_fails_its_stream() {
    let mut t = StreamTable::new();
    open_stream(&mut t, 5, WsStreamKind::Action, "goal");
    match on_trailer(&mut t, 5, 1, "cancelled") {
        TrailerStep::Fail { kind, handle, .. } => assert_eq!((kind, handle), (WsStreamKind::Action, "goal")),
        _ => panic!("failure expected"),
    }
}

#[test]
fn closing_fails_every_open_stream_once() {
    let mut t = StreamTable::new();
    for id in 1..=3u32 {
        open_stream(&mut t, id, WsStreamKind::Unary, id);
    }
    let mut failed = fail_all(&mut t, true, 0, "");
    assert_eq!(t.len(), 0);
    failed.sort_by_key(|f| f.stream_id);
    let ids: Vec<u32> = failed.iter().map(|f| f.handle).collect();
    assert_eq!(ids, vec![1, 2, 3]);
    for f in &failed {
        assert!(matches!(&f.error, BusError::Protocol(m) if m == "websocket closed"));
    }
    assert!(fail_all(&mut t, true, 0, "").is_empty());
}

#[test]
fn unsupported_overflow_opcode_fails_all_streams() {
    assert_eq!(control_trailer(12, "unknown opcode 5"), ControlTrailer::FailAll);
    assert_eq!(control_trailer(0, "unknown opcode 5"), ControlTrailer::HeartbeatOff);
    assert_eq!(control_trailer(12, "no ping here"), ControlTrailer::HeartbeatOff);
    let mut t = StreamTable::new();
    open_stream(&mut t, 7, WsStreamKind::Subscribe, ());
    open_stream(&mut t, 8, WsStreamKind::Subscribe, ());
    let failed = fail_all(&mut t, false, 12, "unknown opcode 5");
    assert_eq!(failed.len(), 2);
    assert_eq!(t.len(), 0);
}

#[test]
fn unanswered_pings_drop_the_connection() {
    let mut h = Heartbeat::new();
    assert_eq!(h.on_tick(3), PingTick::SendPing);
    assert_eq!(h.on_tick(3), PingTick::SendPing);
    assert_eq!(h.on_tick(3), PingTick::SendPing);
    assert_eq!(h.on_tick(3), PingTick::Disconnect);
    assert_eq!(h.misses, 3);
    h.on_pong();
    assert_eq!((h.awaiting_pong, h.misses), (false, 0));
    assert_eq!(h.on_tick(3), PingTick::SendPing);
    h.stop();
    assert!(!h.enabled && !h.awaiting_pong);
}
