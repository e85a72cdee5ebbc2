use std::sync::Arc;

use robot_bus::bridge::{Direction, TopicQos};
use robot_bus::observe::{idle_event, route_table, snapshot, snapshot_with, ConsoleRoute, RouteHealth};

#[test]
fn topic_row_log_line_and_idle_proto() {
    let health = Arc::new(RouteHealth::new());
    let row = ConsoleRoute::topic(
        "/cam",
        "/cam",
        Direction::Ros2ToBus,
        "SensorMsgsImageMapper",
        TopicQos::keep_last(10).best_effort(),
        TopicQos::keep_last(8).best_effort(),
        true,
        health,
    );
    let line = row.log_line();
    assert!(line.contains("topic"));
    assert!(line.contains("ros→bus"));
    assert!(line.contains("/cam"));
    assert!(line.contains("lazy"));
    let proto = row.to_proto(true, true);
    assert!(proto.idle);
    assert!(proto.lazy);
    assert_eq!(proto.kind, "topic");
}

#[test]
fn exact_log_line_and_idle_message() {
    let row = ConsoleRoute::rpc(
        "service",
        "/reset",
        "/bus_reset",
        Direction::BusToRos2,
        "",
        TopicQos::keep_last(10),
        TopicQos::keep_last(8).best_effort(),
    );
    assert_eq!(
        row.log_line(),
        "service bus→ros  /reset → /bus_reset  -  ros=keep_last(10)/reliable  bus=keep_last(8)/best_effort"
    );
    assert!(!row.to_proto(true, true).idle);
    assert_eq!(
        row.idle_message(),
        "no traffic on bus→ros /reset for 15s; possible wrong direction or ROS QoS mismatch"
    );
    let ev = idle_event("cam_bridge", 7, 1234, &row);
    assert_eq!(ev.id, "bridge-idle-7");
    assert_eq!(ev.source, "ros2_bridge/cam_bridge");
    assert_eq!(ev.level, "WARN");
    assert_eq!(ev.ts, 1234);
}

#[test]
fn busy_route_is_not_idle_and_table_lists_rows() {
    let mut h = RouteHealth::new();
    h.record_rx(99);
    h.record_tx();
    let row = ConsoleRoute::topic(
        "/a",
        "/b",
        Direction::Ros2ToBus,
        "T",
        TopicQos::keep_last(1),
        TopicQos::keep_last(1),
        false,
        Arc::new(h),
    );
    let p = row.to_proto(true, true);
    assert!(!p.idle);
    assert_eq!(p.rx, 1);
    assert_eq!(p.last_rx_ms, 99);
    let routes = vec![row];
    let table = route_table("br", &routes);
    assert_eq!(
        table,
        "ros2_bridge 'br' routes:\n  topic   ros→bus  /a → /b  T  ros=keep_last(1)/reliable  bus=keep_last(1)/reliable"
    );
    let snap = snapshot("id1", "br", &routes, &vec![false], true);
    assert_eq!(snap.routes.len(), 1);
    assert!(!snap.routes[0].enabled);
    assert_eq!(snap.bridge_id, "id1");
    let asked = std::cell::Cell::new(0);
    let snap = snapshot_with("id1", "br", &routes, |_| {
        asked.set(asked.get() + 1);
        true
    }, true);
    assert_eq!(asked.get(), 1);
    assert!(snap.routes[0].enabled);
}
