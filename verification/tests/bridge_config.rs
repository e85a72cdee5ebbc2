use robot_bus::bridge::{
    default_api_url, default_direction, default_host, default_service_direction,
    default_transport, parse_action_direction, parse_direction, parse_service_direction,
    Direction,
};
use robot_bus::bridge_config::{
    plan_bridge, BridgeConfig, BusTarget, DiscoverSection, RobotBusSection, RouteSection,
};
use robot_bus::errors::BusError;

fn route(ros: &str, bus: &str, ty: &str, dir: &str) -> RouteSection {
    RouteSection {
        ros_name: ros.into(),
        bus_name: bus.into(),
        msg_type: ty.into(),
        direction: dir.into(),
    }
}

#[test]
fn directions_parse_and_refuse_both() {
    assert_eq!(parse_direction("ros2_to_bus").unwrap(), Direction::Ros2ToBus);
    assert_eq!(parse_service_direction("bus_to_ros2").unwrap(), Direction::BusToRos2);
    assert!(matches!(parse_direction("both"), Err(BusError::Protocol(m)) if m == "topic direction must be ros2_to_bus | bus_to_ros2 (both is not supported)"));
    assert!(matches!(parse_action_direction("both"), Err(BusError::Protocol(m)) if m.starts_with("action direction")));
    assert!(matches!(parse_direction("up"), Err(BusError::Protocol(m)) if m == "direction must be ros2_to_bus | bus_to_ros2, got \"up\""));
    assert!(matches!(parse_service_direction("up"), Err(BusError::Protocol(m)) if m == "service direction must be ros2_to_bus | bus_to_ros2, got \"up\""));
    assert_eq!(default_transport(), "tcp");
    assert_eq!(default_host(), "localhost");
    assert_eq!(default_api_url(), "http://127.0.0.1:15560");
    assert_eq!(default_direction(), "ros2_to_bus");
    assert_eq!(default_service_direction(), "ros2_to_bus");
}

#[test]
fn parses_camera_h264_bridge_yaml() {
    let cfg = BridgeConfig {
        robot_bus: Some(RobotBusSection {
            transport: "tcp".into(),
            host: "localhost".into(),
            ipc_path: None,
            discover: None,
        }),
        routes: vec![
            route("/camera/image_raw", "/camera/image_raw", "sensor_msgs/msg/Image", "ros2_to_bus"),
            route("/camera/video", "/camera/video", "foxglove_msgs/msg/CompressedVideo", "bus_to_ros2"),
        ],
        services: vec![],
        actions: vec![],
    };
    let plan = plan_bridge(&cfg).expect("camera config should plan");
    assert_eq!(plan.name, "ros2_bridge");
    assert!(matches!(plan.target, BusTarget::Tcp { ref host } if host == "localhost"));
    assert_eq!(plan.routes.len(), 2);
    assert_eq!(plan.routes[1].direction, Direction::BusToRos2);
}

#[test]
fn rejects_empty_yaml() {
    let cfg = BridgeConfig {
        robot_bus: Some(RobotBusSection {
            transport: "tcp".into(),
            host: "localhost".into(),
            ipc_path: None,
            discover: None,
        }),
        routes: vec![],
        services: vec![],
        actions: vec![],
    };
    match plan_bridge(&cfg) {
        Err(BusError::Protocol(m)) => assert!(m.contains("at least one")),
        other => panic!("unexpected {other:?}"),
    }
}

#[test]
fn transport_and_direction_errors() {
    let cfg = BridgeConfig {
        robot_bus: Some(RobotBusSection {
            transport: "udp".into(),
            host: "h".into(),
            ipc_path: None,
            discover: None,
        }),
        routes: vec![route("/a", "/a", "t", "both")],
        services: vec![],
        actions: vec![],
    };
    assert!(matches!(plan_bridge(&cfg), Err(BusError::Protocol(m)) if m == "robot_bus.transport must be tcp | ipc | discover, got \"udp\""));
    let cfg = BridgeConfig {
        robot_bus: None,
        routes: vec![route("/a", "/a", "t", "ros2_to_bus")],
        services: vec![route("/s", "/s", "t", "sideways")],
        actions: vec![],
    };
    assert!(matches!(plan_bridge(&cfg), Err(BusError::Protocol(m)) if m.starts_with("service direction")));
    let cfg = BridgeConfig {
        robot_bus: Some(RobotBusSection {
            transport: "discover".into(),
            host: "h".into(),
            ipc_path: None,
            discover: Some(DiscoverSection { api_url: "http://b:1".into(), timeout_ms: 3000, broker_id: Some("x".into()) }),
        }),
        routes: vec![],
        services: vec![],
        actions: vec![route("/f", "/f", "example_interfaces/action/Fibonacci", "bus_to_ros2")],
    };
    let plan = plan_bridge(&cfg).unwrap();
    assert!(matches!(plan.target, BusTarget::Discover { ref api_url, timeout_ms: Some(3000), .. } if api_url == "http://b:1"));
    assert_eq!(plan.actions.len(), 1);
}
