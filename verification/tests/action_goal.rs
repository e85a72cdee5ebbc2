use robot_bus::action_goal::{
    classify_goal_message, goal_poll_ms, goal_thread_step, grpc_goal_event, grpc_stream_ended,
    CollectStep, GoalCommand, GoalEvent, GoalHandle, GoalThreadStep, NodeActionServer, NodeService,
    RawGoalHandle, WaitStep,
};
use robot_bus::action_goal::deliver_to_goal;
use robot_bus::goal_table::GoalTable;
use robot_bus::dispatch::ActionMessage;
use robot_bus::errors::BusError;
use robot_bus::rpc_status::ActionKind;

fn msg(kind: ActionKind, body: &[u8]) -> ActionMessage {
    ActionMessage { action_name: "fib".into(), goal_id: "g".into(), kind, body: body.to_vec() }
}

#[test]
fn result_is_kept_and_collected() {
    let mut h = RawGoalHandle::new("fib".into(), "g".into());
    assert_eq!((h.goal_id(), h.action_name()), ("g", "fib"));
    assert!(h.cached_result().is_none());
    assert!(h.collect().is_none());
    assert!(matches!(h.wait_result(Some(Ok(msg(ActionKind::Feedback, b"1")))), WaitStep::Pending));
    assert!(!h.is_completed());
    match h.wait_result(Some(Ok(msg(ActionKind::Result, b"done")))) {
        WaitStep::Done(m) => assert_eq!(m.body, b"done"),
        _ => panic!("result expected"),
    }
    assert!(h.is_completed());
    assert_eq!(h.cached_result().unwrap().body, b"done");
    assert_eq!(h.collect().unwrap().len(), 2);
    assert!(matches!(h.cancel(), GoalCommand::Cancel(b) if b.is_empty()));
    assert!(matches!(h.cancel_with_body(b"why"), GoalCommand::Cancel(b) if b == b"why"));
}

#[test]
fn closed_stream_and_errors_fail_the_wait() {
    let mut h = RawGoalHandle::new("fib".into(), "g".into());
    match h.wait_result(None) {
        WaitStep::Failed(BusError::Protocol(m)) => assert_eq!(m, "action 'fib' goal 'g' ended without RESULT"),
        _ => panic!("protocol error expected"),
    }
    assert!(matches!(h.wait_result(Some(Err(BusError::Closed))), WaitStep::Failed(BusError::Closed)));
    let mut typed: GoalHandle<()> = GoalHandle::from_raw(h);
    assert_eq!(typed.goal_id(), "g");
    assert_eq!(typed.action_name(), "fib");
    assert!(matches!(typed.wait_result(Some(Ok(msg(ActionKind::Result, b"")))), WaitStep::Done(_)));
    match typed.result_decode_error("bad wire type") {
        BusError::Protocol(m) => assert_eq!(m, "action 'fib' result decode failed: bad wire type"),
        _ => panic!("protocol error expected"),
    }
    assert!(matches!(typed.cancel(), GoalCommand::Cancel(_)));
}

#[test]
fn goal_thread_checks_each_message() {
    assert!(matches!(
        classify_goal_message("fib", "g", msg(ActionKind::Feedback, b"")),
        GoalEvent::Forward { feedback: true, done: false, .. }
    ));
    assert!(matches!(
        classify_goal_message("fib", "g", msg(ActionKind::Result, b"")),
        GoalEvent::Forward { feedback: false, done: true, .. }
    ));
    match classify_goal_message("fib", "other", msg(ActionKind::Result, b"")) {
        GoalEvent::Unexpected(BusError::Protocol(m)) => assert_eq!(m, "unexpected message for \"fib\"/\"g\""),
        _ => panic!("unexpected message expected"),
    }
    assert_eq!(goal_poll_ms(None), 20);
    assert_eq!(goal_poll_ms(Some(7)), 7);
    assert_eq!(goal_poll_ms(Some(700)), 20);
    assert!(matches!(
        grpc_goal_event("fib".into(), "g".into(), 2, vec![]),
        GoalEvent::Forward { feedback: true, .. }
    ));
    match grpc_goal_event("fib".into(), "g".into(), 0, vec![]) {
        GoalEvent::Unexpected(BusError::Protocol(m)) => assert_eq!(m, "unknown gRPC action kind: 0"),
        _ => panic!("error expected"),
    }
    match grpc_stream_ended("fib") {
        BusError::Protocol(m) => assert_eq!(m, "action 'fib' completed without RESULT"),
        _ => panic!("protocol error expected"),
    }
}

#[test]
fn server_handles_report_their_names() {
    let s = NodeService::new(3, "echo".into());
    assert_eq!((s.id(), s.service_name()), (3, "echo"));
    let a = NodeActionServer::new(4, "fib".into());
    assert_eq!((a.id(), a.action_name()), (4, "fib"));
}

fn other(kind: ActionKind) -> ActionMessage {
    ActionMessage { action_name: "fib".into(), goal_id: "x".into(), kind, body: vec![] }
}

#[test]
fn a_completed_goal_answers_its_cached_result() {
    let mut h = RawGoalHandle::new("fib".into(), "g".into());
    assert!(h.needs_event());
    assert!(matches!(h.wait_result(Some(Ok(msg(ActionKind::Result, b"first")))), WaitStep::Done(_)));
    assert!(!h.needs_event());
    // No event is consumed any more: whatever is handed in, the first result comes back.
    match h.wait_result(Some(Ok(msg(ActionKind::Feedback, b"late")))) {
        WaitStep::Done(m) => assert_eq!(m.body, b"first"),
        _ => panic!("cached result expected"),
    }
    match h.wait_result(None) {
        WaitStep::Done(m) => assert_eq!((m.kind, m.body), (ActionKind::Result, b"first".to_vec())),
        _ => panic!("cached result expected"),
    }
    let all = h.collect().unwrap();
    assert_eq!(all.len(), 1);
    assert_eq!(h.collect().unwrap().len(), 1);
}

#[test]
fn a_message_of_another_goal_fails_the_wait() {
    let mut h = RawGoalHandle::new("fib".into(), "g".into());
    match h.wait_result(Some(Ok(other(ActionKind::Result)))) {
        WaitStep::Failed(BusError::Protocol(m)) => assert_eq!(m, "unexpected message for \"fib\"/\"x\""),
        _ => panic!("protocol error expected"),
    }
    assert!(!h.is_completed());
    assert!(h.collect().is_none());
    assert!(matches!(h.wait_result(Some(Ok(msg(ActionKind::Result, b"r")))), WaitStep::Done(_)));
    let all = h.collect().unwrap();
    assert_eq!(all.len(), 1);
    assert_eq!(all[0].goal_id, "g");
}

#[test]
fn collect_ends_at_the_result_and_surfaces_errors() {
    let mut h = RawGoalHandle::new("fib".into(), "g".into());
    assert!(matches!(h.collect_step(Some(Ok(msg(ActionKind::Feedback, b"1")))), CollectStep::Pending));
    assert!(matches!(h.collect_step(Some(Err(BusError::Closed))), CollectStep::Failed(BusError::Closed)));
    match h.collect_step(Some(Ok(msg(ActionKind::Result, b"r")))) {
        CollectStep::Done(v) => {
            let kinds: Vec<ActionKind> = v.iter().map(|m| m.kind).collect();
            assert_eq!(kinds, vec![ActionKind::Feedback, ActionKind::Result]);
        }
        _ => panic!("messages expected"),
    }
    // Later events are not taken: the same messages come back.
    match h.collect_step(Some(Ok(msg(ActionKind::Feedback, b"2")))) {
        CollectStep::Done(v) => assert_eq!(v.len(), 2),
        _ => panic!("messages expected"),
    }
    let mut closed = RawGoalHandle::new("fib".into(), "g".into());
    match closed.collect_step(None) {
        CollectStep::Failed(BusError::Protocol(m)) => assert_eq!(m, "action 'fib' goal 'g' ended without RESULT"),
        _ => panic!("protocol error expected"),
    }
}

#[test]
fn typed_handle_keeps_its_names_on_errors() {
    let mut typed: GoalHandle<u8> = GoalHandle::from_raw(RawGoalHandle::new("fib".into(), "g".into()));
    assert!(matches!(typed.wait_result(Some(Err(BusError::Closed))), WaitStep::Failed(BusError::Closed)));
    assert!(matches!(typed.wait_result(Some(Ok(other(ActionKind::Result)))), WaitStep::Failed(_)));
    assert_eq!((typed.goal_id(), typed.action_name()), ("g", "fib"));
    assert!(matches!(typed.wait_result(Some(Ok(msg(ActionKind::Result, b"ok")))), WaitStep::Done(_)));
    assert_eq!((typed.goal_id(), typed.action_name()), ("g", "fib"));
}

#[test]
fn goal_thread_steps() {
    match goal_thread_step("fib", "g", Some(GoalCommand::Cancel(b"stop".to_vec())), Some(0), None) {
        GoalThreadStep::SendCancel(b) => assert_eq!(b, b"stop"),
        _ => panic!("cancel expected"),
    }
    assert!(matches!(goal_thread_step("fib", "g", None, Some(0), None), GoalThreadStep::TimedOut));
    assert!(matches!(goal_thread_step("fib", "g", None, None, None), GoalThreadStep::Poll(20)));
    assert!(matches!(goal_thread_step("fib", "g", None, Some(5), None), GoalThreadStep::Poll(5)));
    assert!(matches!(
        goal_thread_step("fib", "g", None, Some(500), Some(Err(BusError::Timeout("recv".into())))),
        GoalThreadStep::Poll(20)
    ));
    assert!(matches!(
        goal_thread_step("fib", "g", None, None, Some(Err(BusError::Closed))),
        GoalThreadStep::Fail(BusError::Closed)
    ));
    match goal_thread_step("fib", "g", None, None, Some(Ok(msg(ActionKind::Feedback, b"1")))) {
        GoalThreadStep::Deliver { message, feedback, done } => {
            assert_eq!(message.body, b"1");
            assert!(feedback && !done);
        }
        _ => panic!("delivery expected"),
    }
    assert!(matches!(
        goal_thread_step("fib", "g", None, None, Some(Ok(msg(ActionKind::Result, b"")))),
        GoalThreadStep::Deliver { feedback: false, done: true, .. }
    ));
    match goal_thread_step("fib", "g", None, None, Some(Ok(other(ActionKind::Feedback)))) {
        GoalThreadStep::Fail(BusError::Protocol(m)) => assert_eq!(m, "unexpected message for \"fib\"/\"x\""),
        _ => panic!("failure expected"),
    }
}

#[test]
fn an_error_before_the_result_leaves_the_handle_as_it_was() {
    let mut h = RawGoalHandle::new("fib".into(), "g".into());
    assert!(matches!(h.collect_step(Some(Ok(msg(ActionKind::Feedback, b"1")))), CollectStep::Pending));
    assert!(matches!(h.collect_step(Some(Err(BusError::Timeout("t".into())))), CollectStep::Failed(BusError::Timeout(_))));
    assert!(matches!(h.collect_step(Some(Ok(other(ActionKind::Result)))), CollectStep::Failed(BusError::Protocol(_))));
    assert!(!h.is_completed());
    assert!(h.collect().is_none());
    assert!(h.cached_result().is_none());
}

#[test]
fn clones_name_the_same_goal() {
    let mut h = RawGoalHandle::new("fib".into(), "g".into());
    assert!(matches!(h.wait_result(Some(Ok(msg(ActionKind::Feedback, b"1")))), WaitStep::Pending));
    let c = h.clone();
    assert_eq!((c.goal_id(), c.action_name()), (h.goal_id(), h.action_name()));
    assert_eq!(c.is_completed(), h.is_completed());
    let typed: GoalHandle<u8> = GoalHandle::from_raw(h);
    let t2 = typed.clone();
    assert_eq!(t2.goal_id(), typed.goal_id());
    assert!(matches!((typed.cancel(), t2.cancel()), (GoalCommand::Cancel(a), GoalCommand::Cancel(b)) if a.is_empty() && b.is_empty()));
}

#[test]
fn client_messages_reach_their_goal_until_its_result() {
    let mut goals: GoalTable<&str> = GoalTable::new();
    let _ = goals.insert("g".to_string(), "cb-g");
    let seen = std::cell::RefCell::new(Vec::new());
    assert!(deliver_to_goal(&mut goals, msg(ActionKind::Feedback, b"1"), |c, m| seen.borrow_mut().push((*c, m.kind))));
    assert!(goals.contains("g"));
    assert!(!deliver_to_goal(&mut goals, other(ActionKind::Feedback), |c, m| seen.borrow_mut().push((*c, m.kind))));
    assert!(deliver_to_goal(&mut goals, msg(ActionKind::Result, b"r"), |c, m| seen.borrow_mut().push((*c, m.kind))));
    assert!(!goals.contains("g"));
    assert_eq!(seen.into_inner(), vec![("cb-g", ActionKind::Feedback), ("cb-g", ActionKind::Result)]);
}
