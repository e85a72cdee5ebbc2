use robot_bus::node_options::NodeOptions;
use robot_bus::session::{
    discover_api_url, next_backoff, requires_http_liveness, ConnectionState, SessionAction,
    SessionMachine,
};

#[test]
fn connection_state_display() {
    assert_eq!(ConnectionState::Connected.as_str(), "connected");
    assert_eq!(ConnectionState::Reconnecting.to_string(), "reconnecting");
}

#[test]
fn inproc_session_is_connected_without_http() {
    let mut m = SessionMachine::new(NodeOptions::inproc());
    let changes = m.start();
    assert_eq!(changes.len(), 2);
    assert_eq!(m.state(), ConnectionState::Connected);
    assert_eq!(m.next_action(), SessionAction::Liveness);
    assert!(!requires_http_liveness(&NodeOptions::inproc()));
}

#[test]
fn tcp_session_discovers_with_backoff() {
    let mut m = SessionMachine::new(NodeOptions::tcp());
    m.start();
    assert_eq!(m.state(), ConnectionState::Discovering);
    assert_eq!(m.next_action(), SessionAction::Discover);
    let (origin, _) = m.before_discover();
    let (_, wait, first) = m.after_discover(origin, None);
    assert_eq!(wait, Some(200));
    assert!(first);
    let (origin, _) = m.before_discover();
    let (_, wait, first) = m.after_discover(origin, None);
    assert_eq!(wait, Some(400));
    assert!(!first);
    let (origin, _) = m.before_discover();
    let (change, wait, _) = m.after_discover(origin, Some(NodeOptions::inproc()));
    assert_eq!(wait, None);
    assert_eq!(m.state(), ConnectionState::Connected);
    assert_eq!(m.backoff_ms(), 200);
    assert!(!change.unwrap().run_reconnect_hook);
}

#[test]
fn lost_liveness_reconnects_and_runs_hook() {
    let mut m = SessionMachine::new(NodeOptions::tcp());
    m.start();
    let (o, _) = m.before_discover();
    m.after_discover(o, Some(NodeOptions::tcp()));
    let c = m.after_liveness(None).unwrap();
    assert_eq!(c.next, ConnectionState::Reconnecting);
    let (o, c) = m.before_discover();
    assert_eq!(o, ConnectionState::Reconnecting);
    assert_eq!(c.unwrap().next, ConnectionState::Connecting);
    let (_, _, _) = m.after_discover(o, None);
    assert_eq!(m.state(), ConnectionState::Reconnecting);
    let c = m.set_state(ConnectionState::Connected, "test").unwrap();
    assert!(c.run_reconnect_hook);
    assert!(m.shutdown("stop").is_some());
    assert!(m.set_state(ConnectionState::Connected, "late").is_none());
    assert_eq!(m.state(), ConnectionState::Shutdown);
    assert_eq!(m.next_action(), SessionAction::Exit);
}

#[test]
fn backoff_and_discover_url() {
    assert_eq!(next_backoff(200), 400);
    assert_eq!(next_backoff(4000), 5000);
    assert_eq!(next_backoff(5000), 5000);
    let mut o = NodeOptions::tcp_at("10.0.0.5");
    assert_eq!(discover_api_url(&o), "http://10.0.0.5:15560");
    o.console_url = Some("http://c:1".into());
    assert_eq!(discover_api_url(&o), "http://c:1");
    o.console_url = Some(String::new());
    o.ws_url = Some("http://w:2".into());
    assert_eq!(discover_api_url(&o), "http://w:2");
}

#[test]
fn wait_for_broker_times_out_without_broker() {
    let mut opts = NodeOptions::tcp();
    opts.console_url = Some("http://127.0.0.1:1".into());
    let mut m = SessionMachine::new(opts);
    m.start();
    // Discovery against an address nobody serves keeps failing.
    for _ in 0..3 {
        let (origin, _) = m.before_discover();
        let (_, wait, _) = m.after_discover(origin, None);
        assert!(wait.is_some());
    }
    let state = m.state();
    assert!(
        matches!(
            state,
            ConnectionState::Created
                | ConnectionState::Discovering
                | ConnectionState::Connecting
                | ConnectionState::Reconnecting
        ),
        "unexpected state {}",
        state.as_str()
    );
    m.shutdown("node shutdown");
    assert_eq!(m.state(), ConnectionState::Shutdown);
}

#[test]
fn reported_changes_name_their_states_and_reasons() {
    let mut m = SessionMachine::new(NodeOptions::inproc());
    let changes = m.start();
    let seen: Vec<(ConnectionState, ConnectionState, &str)> = changes.iter().map(|c| (c.prev, c.next, c.reason)).collect();
    assert_eq!(
        seen,
        vec![
            (ConnectionState::Created, ConnectionState::Connecting, "endpoints known"),
            (ConnectionState::Connecting, ConnectionState::Connected, "local endpoints"),
        ]
    );
    assert!(m.connect_local().is_none());

    let mut t = SessionMachine::new(NodeOptions::tcp());
    let changes = t.start();
    assert_eq!(changes.len(), 1);
    assert_eq!((changes[0].next, changes[0].reason), (ConnectionState::Discovering, "start discover"));
    let (origin, c) = t.before_discover();
    assert!(c.is_none());
    let (failed, _, _) = t.after_discover(origin, None);
    assert!(failed.is_none());
    let (origin, _) = t.before_discover();
    let (ok, _, _) = t.after_discover(origin, Some(NodeOptions::tcp()));
    let ok = ok.unwrap();
    assert_eq!((ok.prev, ok.next, ok.reason, ok.run_reconnect_hook), (ConnectionState::Discovering, ConnectionState::Connected, "discover ok", false));
    let lost = t.after_liveness(None).unwrap();
    assert_eq!((lost.prev, lost.next, lost.reason), (ConnectionState::Connected, ConnectionState::Reconnecting, "liveness lost"));
    let (origin, c) = t.before_discover();
    assert_eq!(c.unwrap().reason, "retry");
    let (back, _, _) = t.after_discover(origin, Some(NodeOptions::tcp()));
    let back = back.unwrap();
    assert_eq!((back.prev, back.next, back.reason, back.run_reconnect_hook), (ConnectionState::Connecting, ConnectionState::Connected, "discover ok", false));
    let stop = t.shutdown("bye").unwrap();
    assert_eq!((stop.prev, stop.next, stop.reason), (ConnectionState::Connected, ConnectionState::Shutdown, "bye"));
}
