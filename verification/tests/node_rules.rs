use robot_bus::action_goal::GoalEvent;
use robot_bus::errors::BusError;
use robot_bus::node::{check_attach_executor, check_executor_use, console_url, console_url_opt, link_ready, not_connected_err};
use robot_bus::node_options::NodeOptions;
use robot_bus::parameters::{Parameter, ParameterStore, ParameterValue};
use robot_bus::session::ConnectionState;
use robot_bus::ws_runtime::{trailer_outcome, ws_action_event, with_ws_rpc_path};

fn protocol<T: std::fmt::Debug>(r: Result<T, BusError>) -> String {
    match r {
        Err(BusError::Protocol(m)) => m,
        other => panic!("expected a protocol error, got {other:?}"),
    }
}

#[test]
fn executors_refuse_ws_nodes_and_second_attach() {
    assert_eq!(protocol(check_attach_executor(&NodeOptions::ws(), false)), "WebSocket RPC node cannot attach to a ZMQ executor");
    assert_eq!(protocol(check_attach_executor(&NodeOptions::tcp(), true)), "node is already added to an executor");
    assert!(check_attach_executor(&NodeOptions::ipc(), false).is_ok());
    assert!(check_executor_use(&NodeOptions::ws()).is_err());
    assert!(check_executor_use(&NodeOptions::inproc()).is_ok());
}

#[test]
fn link_readiness_and_not_connected_message() {
    assert!(link_ready(ConnectionState::Connected, &NodeOptions::tcp()));
    assert!(!link_ready(ConnectionState::Discovering, &NodeOptions::tcp()));
    assert!(link_ready(ConnectionState::Discovering, &NodeOptions::ipc()));
    assert!(!link_ready(ConnectionState::Connecting, &NodeOptions::ws()));
    match not_connected_err(ConnectionState::Reconnecting) {
        BusError::Protocol(m) => assert_eq!(
            m,
            "node not connected to broker (state=reconnecting); call wait_for_broker() or start robot-bus-broker"
        ),
        other => panic!("unexpected {other:?}"),
    }
}

#[test]
fn console_base_from_options() {
    let mut opts = NodeOptions::tcp();
    assert_eq!(console_url_opt(&opts), None);
    assert_eq!(console_url(&opts), "http://127.0.0.1:15570");
    opts.console_url = Some("  http://robot:15570/ ".to_string());
    assert_eq!(console_url_opt(&opts), Some("http://robot:15570/".to_string()));
    assert_eq!(console_url(&opts), "http://robot:15570");
    let ws = NodeOptions::ws_at("http://gw:15560");
    assert_eq!(console_url_opt(&ws), Some("http://gw:15560".to_string()));
}

#[test]
fn trailers_and_ws_action_data() {
    assert!(trailer_outcome(0, "").is_ok());
    assert!(matches!(trailer_outcome(8, "busy 'echo'"), Err(BusError::Busy { name }) if name == "echo"));
    assert!(matches!(
        ws_action_event("fib".into(), "g".into(), 3, b"r".to_vec()),
        GoalEvent::Forward { done: true, feedback: false, .. }
    ));
    match ws_action_event("fib".into(), "g".into(), 9, vec![]) {
        GoalEvent::Unexpected(BusError::Protocol(m)) => assert_eq!(m, "unknown ws action kind: 9"),
        _ => panic!("error expected"),
    }
    assert_eq!(with_ws_rpc_path("ws://h/ws-rpc"), "ws://h/ws-rpc");
    assert_eq!(with_ws_rpc_path("ws://h"), "ws://h/ws-rpc");
}

#[test]
fn set_many_stops_at_the_first_refusal() {
    let mut store = ParameterStore::new();
    store.declare("a".into(), ParameterValue::Integer(1)).unwrap();
    store.declare("b".into(), ParameterValue::Bool(false)).unwrap();
    let r = store.set_many(vec![
        Parameter::new("a", ParameterValue::Integer(2)),
        Parameter::new("b", ParameterValue::Integer(3)),
        Parameter::new("a", ParameterValue::Integer(4)),
    ]);
    assert!(matches!(r, Err(BusError::ParameterTypeMismatch { .. })));
    assert!(matches!(store.get("a").unwrap().value, ParameterValue::Integer(2)));
    assert!(store
        .set_many(vec![Parameter::new("b", ParameterValue::Bool(true))])
        .is_ok());
    assert!(store.get("b").unwrap().as_bool().unwrap());
}
