use robot_bus::errors::BusError;
use robot_bus::node_options::{ws_mode_unsupported, NodeOptions};

fn override_endpoints() {
    let opts = NodeOptions {
        message_xpub: Some("tcp://127.0.0.1:9999".into()),
        ..NodeOptions::default()
    };
    assert_eq!(
        opts.message_xpub_endpoint().unwrap(),
        "tcp://127.0.0.1:9999"
    );
}

fn tcp_preset() {
    let opts = NodeOptions::tcp();
    assert_eq!(opts.transport, "tcp");
    assert!(opts.needs_endpoint_discover());
    assert!(opts.message_xsub_endpoint().is_err());
    let remote = NodeOptions::tcp_at("10.0.0.5");
    assert_eq!(remote.host, "10.0.0.5");
    assert!(remote.needs_endpoint_discover());
}

fn ipc_and_inproc() {
    let ipc = NodeOptions::ipc();
    assert_eq!(ipc.transport, "ipc");
    assert_eq!(
        ipc.message_xsub_endpoint().unwrap(),
        "ipc:///tmp/robot_bus/message_bus_xsub.ipc"
    );

    let ipc_custom = NodeOptions::ipc_at("/var/run/robot_bus");
    assert_eq!(
        ipc_custom.service_frontend_endpoint().unwrap(),
        "ipc:///var/run/robot_bus/service_bus_frontend.ipc"
    );

    let inproc = NodeOptions::inproc();
    assert!(!inproc.needs_endpoint_discover());
    assert_eq!(
        inproc.message_xpub_endpoint().unwrap(),
        "inproc://robot_bus/message_bus/xpub"
    );

    let inproc_custom = NodeOptions::inproc_at("my_app");
    assert_eq!(
        inproc_custom.action_frontend_endpoint().unwrap(),
        "inproc://my_app/action_bus/frontend"
    );
}

#[test]
fn node_options_override_endpoints() {
    override_endpoints();
}

#[test]
fn mod_options_override_endpoints() {
    override_endpoints();
}

#[test]
fn node_tcp_preset_leaves_endpoints_for_discover() {
    tcp_preset();
}

#[test]
fn mod_tcp_preset_leaves_endpoints_for_discover() {
    tcp_preset();
}

#[test]
fn node_ipc_and_inproc_presets() {
    ipc_and_inproc();
}

#[test]
fn mod_ipc_and_inproc_presets() {
    ipc_and_inproc();
}

#[test]
fn ws_options_refuse_zmq_endpoints() {
    let ws = NodeOptions::ws();
    assert!(ws.is_ws());
    assert!(!ws.needs_endpoint_discover());
    match ws.message_xpub_endpoint() {
        Err(BusError::Protocol(m)) => assert!(m.contains("WebSocket")),
        other => panic!("unexpected {other:?}"),
    }
    assert_eq!(ws.resolved_ws_url().unwrap(), "http://127.0.0.1:15560");
    let custom = NodeOptions::ws_at("http://10.0.0.1:15570");
    assert_eq!(custom.ws_url.as_deref(), Some("http://10.0.0.1:15570"));
    assert!(NodeOptions::tcp().resolved_ws_url().is_err());
    let mut no_url = NodeOptions::ws();
    no_url.ws_url = None;
    assert_eq!(no_url.resolved_ws_url().unwrap(), "http://127.0.0.1:15560");
}

#[test]
fn inproc_prefix_may_carry_scheme() {
    let a = NodeOptions::inproc_at("inproc://my_app");
    assert_eq!(
        a.service_backend_endpoint().unwrap(),
        "inproc://my_app/service_bus/backend"
    );
    let ipc = NodeOptions::ipc();
    assert_eq!(
        ipc.action_backend_endpoint().unwrap(),
        "ipc:///tmp/robot_bus/action_bus_backend.ipc"
    );
    match NodeOptions::tcp().service_backend_endpoint() {
        Err(BusError::Protocol(m)) => assert!(m.starts_with("service_backend unset")),
        other => panic!("unexpected {other:?}"),
    }
    match ws_mode_unsupported("create_service") {
        BusError::Protocol(m) => assert!(m.starts_with("create_service is not supported")),
        other => panic!("unexpected {other:?}"),
    }
}
