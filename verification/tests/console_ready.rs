use robot_bus::console_ready::{
    find_workers, is_ready, names_match, normalize_api_base, ready_wait_step,
    resolve_console_url, NamedWorkers, ReadyKind, WaitStep, DEFAULT_CONSOLE_URL,
};

#[test]
fn resolve_falls_back_to_default() {
    assert_eq!(
        resolve_console_url(None),
        normalize_api_base(DEFAULT_CONSOLE_URL)
    );
    assert_eq!(
        resolve_console_url(Some("  ")),
        normalize_api_base(DEFAULT_CONSOLE_URL)
    );
}

#[test]
fn names_match_strips_slash() {
    assert!(names_match("/echo", "echo"));
    assert!(names_match("echo", "/echo"));
    assert!(!names_match("a", "b"));
}

#[test]
fn resolve_trims_and_drops_trailing_slashes() {
    assert_eq!(resolve_console_url(Some(" http://h:1// ")), "http://h:1");
    assert_eq!(normalize_api_base("http://x/"), "http://x");
    assert_eq!(ReadyKind::Service.path(), "/api/v1/services");
    assert_eq!(ReadyKind::Action.list_key(), "actions");
}

#[test]
fn readiness_uses_first_matching_row() {
    let rows = vec![
        NamedWorkers { name: "/other".into(), workers: 3 },
        NamedWorkers { name: "/echo".into(), workers: 0 },
        NamedWorkers { name: "echo".into(), workers: 2 },
    ];
    assert_eq!(find_workers(&rows, "echo"), Some(0));
    assert!(!is_ready(Some(&rows), "echo"));
    assert!(is_ready(Some(&rows), "other"));
    assert!(!is_ready(Some(&rows), "missing"));
    assert!(!is_ready(None, "other"));
}

#[test]
fn wait_steps_respect_deadline() {
    assert_eq!(ready_wait_step(true, 0, Some(0)), WaitStep::Finish(true));
    assert_eq!(ready_wait_step(false, 100, Some(100)), WaitStep::Finish(false));
    assert_eq!(ready_wait_step(false, 100, Some(120)), WaitStep::Sleep(20));
    assert_eq!(ready_wait_step(false, 100, Some(1000)), WaitStep::Sleep(50));
    assert_eq!(ready_wait_step(false, 100, None), WaitStep::Sleep(50));
}
