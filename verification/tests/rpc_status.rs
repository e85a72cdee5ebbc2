use robot_bus::errors::BusError;
use robot_bus::rpc_status::{
    cancelled_name, map_rpc_status, map_tonic_status, pb_action_kind, rpc_call_error, timeout_ms_u32,
    ws_action_kind, ActionKind, RpcCode,
};

#[test]
fn callback_errors_remain_typed_across_websocket() {
    assert!(
        matches!(map_rpc_status(1, "cancelled 'motion'"), BusError::Cancelled { name } if name == "motion")
    );
    assert!(
        matches!(map_rpc_status(13, "cancelled 'motion'"), BusError::Cancelled { name } if name == "motion")
    );
    assert!(matches!(
        map_rpc_status(9, "action rejected: invalid"),
        BusError::ActionRejected(_)
    ));
    assert!(matches!(
        map_rpc_status(10, "action aborted: stopped"),
        BusError::ActionAborted(_)
    ));
    assert!(matches!(
        map_rpc_status(13, "action aborted: stopped"),
        BusError::ActionAborted(_)
    ));
    assert!(matches!(
        map_rpc_status(13, "action rejected: invalid"),
        BusError::ActionRejected(_)
    ));

    assert!(
        matches!(map_rpc_status(8, "busy 'echo'"), BusError::Busy { name } if name == "echo")
    );
    assert!(
        matches!(map_rpc_status(13, "handler panicked for 'echo'"), BusError::HandlerPanicked { name } if name == "echo")
    );
}

#[test]
fn untyped_statuses_become_protocol_errors() {
    assert!(matches!(map_rpc_status(10, "plain abort"), BusError::Protocol(m) if m == "rpc 10: plain abort"));
    assert!(matches!(map_rpc_status(5, "no goal 'g1'"), BusError::NoGoal { goal_id } if goal_id == "g1"));
    assert!(matches!(map_rpc_status(5, "missing"), BusError::Protocol(m) if m == "rpc 5: missing"));
    assert!(matches!(map_rpc_status(14, "no worker for 'svc'"), BusError::NoWorker { name } if name == "svc"));
    assert!(matches!(map_rpc_status(14, "worker died for 'svc'"), BusError::WorkerDied { name } if name == "svc"));
    assert!(matches!(map_rpc_status(4, "late"), BusError::Timeout(m) if m == "late"));
    assert!(matches!(map_rpc_status(99, "odd"), BusError::Protocol(m) if m == "rpc 99: odd"));
    assert!(matches!(map_rpc_status(13, "boom"), BusError::Protocol(m) if m == "rpc 13: boom"));
    assert_eq!(cancelled_name("cancelled 'x'"), "x");
    assert_eq!(cancelled_name("'y'"), "y");
}

#[test]
fn action_kinds_decode() {
    assert_eq!(ws_action_kind(1).unwrap(), ActionKind::Goal);
    assert_eq!(ws_action_kind(3).unwrap(), ActionKind::Result);
    assert!(matches!(ws_action_kind(7), Err(BusError::Protocol(m)) if m == "unknown ws action kind: 7"));
    assert_eq!(pb_action_kind(2, "unknown gRPC action kind: ").unwrap(), ActionKind::Feedback);
    assert!(matches!(pb_action_kind(-3, "unknown gRPC action kind: "), Err(BusError::Protocol(m)) if m == "unknown gRPC action kind: -3"));
    assert!(matches!(pb_action_kind(0, "unknown ws action kind: "), Err(BusError::Protocol(m)) if m == "unknown ws action kind: 0"));
}

#[test]
fn grpc_status_and_timeouts() {
    assert!(matches!(map_tonic_status(RpcCode::NotFound, "no goal 'a'", "r"), BusError::NoGoal { goal_id } if goal_id == "a"));
    assert!(matches!(map_tonic_status(RpcCode::Internal, "x", "status: Internal"), BusError::Protocol(m) if m == "status: Internal"));
    assert_eq!(timeout_ms_u32(None), 0);
    assert_eq!(timeout_ms_u32(Some(1500)), 1500);
    assert_eq!(timeout_ms_u32(Some(u128::MAX)), u32::MAX);
    assert_eq!(RpcCode::from_u32(8), RpcCode::ResourceExhausted);
}

#[test]
fn ros_call_failures_keep_timeouts_typed() {
    assert!(matches!(
        rpc_call_error("timed out waiting for ROS service".into()),
        BusError::Timeout(m) if m == "timed out waiting for ROS service"
    ));
    assert!(matches!(
        rpc_call_error("ros service call: gone".into()),
        BusError::Protocol(m) if m == "ros service call: gone"
    ));
}
