use robot_bus::control_plane::ControlPlaneLedger;
use robot_bus::errors::BusError;
use robot_bus::mappers::{VisualizationMsgsMeshFileMapper, VisualizationMsgsUvCoordinateMapper};
use robot_bus::registration::{register_topic_type, topology_frontend, FrontendTarget, TopologyEndpointGuard};
use robot_bus::ros_idl::{AddTwoInts_Request, Fibonacci_Goal};
use robot_bus::typed_rpc::{attach_builtin_action, attach_builtin_service, BuiltinAction, BuiltinService};
use robot_bus::ws_runtime::http_url_to_ws_rpc;

#[test]
fn builtin_backends_by_ros_type() {
    assert_eq!(attach_builtin_service("std_srvs/srv/Trigger").unwrap(), BuiltinService::Trigger);
    assert_eq!(attach_builtin_service("std_srvs/srv/SetBool").unwrap(), BuiltinService::SetBool);
    match attach_builtin_service("my/srv/Other") {
        Err(BusError::Protocol(m)) => assert_eq!(
            m,
            "no typed service backend for \"my/srv/Other\"; builtins: std_srvs/srv/Trigger, std_srvs/srv/SetBool; implement TypedServiceMapper (convert methods) or override ServiceMapper::attach"
        ),
        other => panic!("unexpected {other:?}"),
    }
    assert_eq!(
        attach_builtin_action("example_interfaces/action/Fibonacci").unwrap(),
        BuiltinAction::Fibonacci
    );
    match attach_builtin_action("x") {
        Err(BusError::Protocol(m)) => assert!(m.starts_with("no typed action backend for \"x\"; builtin: example_interfaces/action/Fibonacci")),
        other => panic!("unexpected {other:?}"),
    }
    assert_eq!(VisualizationMsgsMeshFileMapper.ros_type(), "visualization_msgs/msg/MeshFile");
    assert_eq!(VisualizationMsgsUvCoordinateMapper.ros_type(), "visualization_msgs/msg/UVCoordinate");
    assert_eq!(Fibonacci_Goal::default().order, 0);
    assert_eq!(AddTwoInts_Request { a: 1, b: 2 }.b, 2);
}

#[test]
fn ws_rpc_url_from_http_address() {
    assert_eq!(http_url_to_ws_rpc("http://127.0.0.1:15560"), "ws://127.0.0.1:15560/ws-rpc");
    assert_eq!(http_url_to_ws_rpc("https://bus.example/"), "wss://bus.example/ws-rpc");
    assert_eq!(http_url_to_ws_rpc("ws://host:1/ws-rpc"), "ws://host:1/ws-rpc");
    assert_eq!(http_url_to_ws_rpc("host:1//"), "ws://host:1/ws-rpc");
}

#[test]
fn registrations_go_to_the_right_frontend() {
    let r = register_topic_type(Some("  tcp://10.0.0.2:5555 "), "h", "tcp", "/cam", "sensor_msgs/msg/Image");
    assert!(matches!(r.target, FrontendTarget::Endpoint(ref e) if e == "tcp://10.0.0.2:5555"));
    assert_eq!((r.topic.as_str(), r.msg_type.as_str()), ("/cam", "sensor_msgs/msg/Image"));
    let r = register_topic_type(Some("   "), "h", "grpc", "/cam", "T");
    assert!(matches!(r.target, FrontendTarget::Default { ref host, ref transport } if host == "127.0.0.1" && transport == "tcp"));
    let t = topology_frontend(None, "robot", "ipc");
    assert!(matches!(t, FrontendTarget::Default { ref host, ref transport } if host == "robot" && transport == "ipc"));
    let t = topology_frontend(None, "robot", "ws");
    assert!(matches!(t, FrontendTarget::Default { ref host, .. } if host == "127.0.0.1"));
    let g = TopologyEndpointGuard::start("ep-1".into(), None);
    assert_eq!(g.endpoint_id(), "ep-1");
    assert!(g.unregister_target().is_none());
    let g = TopologyEndpointGuard::start("ep-2".into(), Some("tcp://x".into()));
    assert_eq!(g.unregister_target(), Some("tcp://x"));
}

#[test]
fn ledger_restores_every_remembered_topic_type() {
    let mut ledger = ControlPlaneLedger::new();
    ledger.update_endpoints(Some(" "), "robot", "grpc");
    assert!(ledger.remember_topic_type("/a", "A"));
    assert!(!ledger.remember_topic_type("/b", "B"));
    assert!(!ledger.remember_topic_type("/a", "A2"));
    let plan = ledger.restore_plan();
    assert_eq!(plan.len(), 2);
    assert_eq!((plan[0].topic.as_str(), plan[0].msg_type.as_str()), ("/a", "A2"));
    assert!(matches!(plan[1].target, FrontendTarget::Default { ref host, .. } if host == "127.0.0.1"));
}
