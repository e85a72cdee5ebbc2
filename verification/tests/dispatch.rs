use robot_bus::dispatch::{
    action_feedback, action_kind_from_wire, action_reply_frames, action_result, cancel_frames,
    finishes_goal, goal_frames, heartbeat_due, parse_action_client_message, parse_action_message,
    parse_service_request, parse_sub_message, reply_target, service_reply, service_reply_frames,
    ActionDispatch,
};
use robot_bus::executors::RegistrationKind;
use robot_bus::queues::{ReplyMessage, ServiceReply};
use robot_bus::rpc_status::ActionKind;

fn frames(parts: &[&[u8]]) -> Vec<Vec<u8>> {
    parts.iter().map(|p| p.to_vec()).collect()
}

#[test]
fn service_requests_need_four_frames_and_the_right_name() {
    let req = parse_service_request(frames(&[b"c1", b"echo", b"r1", b"hi"]), "echo").unwrap();
    assert_eq!((req.client_id.as_slice(), req.request_id.as_slice(), req.body.as_slice()), (&b"c1"[..], &b"r1"[..], &b"hi"[..]));
    assert!(parse_service_request(frames(&[b"c1", b"other", b"r1", b"hi"]), "echo").is_none());
    assert!(parse_service_request(frames(&[b"c1", b"echo", b"r1"]), "echo").is_none());
    let reply = service_reply("echo".to_string(), req, b"ok".to_vec());
    let ReplyMessage::Service { service_name, reply } = reply else { panic!("service reply") };
    assert_eq!(service_name, "echo");
    assert_eq!(
        service_reply_frames(reply),
        frames(&[b"c1", b"echo", b"r1", b"ok"])
    );
}

#[test]
fn a_worker_reads_back_the_goal_a_client_sent() {
    let mut sent = goal_frames("fib", "g-1", b"order=5");
    assert_eq!(sent, frames(&[b"fib", b"g-1", b"GOAL", b"order=5"]));
    sent.insert(0, b"client-7".to_vec());
    match parse_action_message(sent, "fib") {
        ActionDispatch::Goal(goal) => {
            assert_eq!(goal.client_id, b"client-7");
            assert_eq!(goal.goal_key, "g-1");
            assert_eq!(goal.body, b"order=5");
            let fb = action_feedback("fib".to_string(), &goal, b"1".to_vec());
            let ReplyMessage::Action { reply, .. } = fb else { panic!("action reply") };
            assert_eq!(reply.kind, b"FEEDBACK");
            let res = action_result("fib".to_string(), &goal, b"done".to_vec());
            let ReplyMessage::Action { action_name, reply } = res else { panic!("action reply") };
            assert_eq!(reply.kind, b"RESULT");
            let out = action_reply_frames(&action_name, reply);
            assert_eq!(out, frames(&[b"client-7", b"fib", b"g-1", b"RESULT", b"done"]));
            // The broker strips the client address before the client reads it.
            let msg = parse_action_client_message(out[1..].to_vec()).unwrap();
            assert_eq!(msg.kind, ActionKind::Result);
            assert_eq!(msg.goal_id, "g-1");
            assert!(finishes_goal(msg.kind));
        }
        _ => panic!("expected a goal"),
    }
}

#[test]
fn cancels_and_unknown_messages() {
    let mut sent = cancel_frames("fib", "g-1", b"");
    sent.insert(0, b"c".to_vec());
    assert!(matches!(parse_action_message(sent, "fib"), ActionDispatch::Cancel { goal_id } if goal_id == "g-1"));
    assert!(matches!(
        parse_action_message(frames(&[b"c", b"fib", b"g", b"PING", b""]), "fib"),
        ActionDispatch::Ignored
    ));
    assert!(matches!(
        parse_action_message(frames(&[b"c", b"other", b"g", b"GOAL", b""]), "fib"),
        ActionDispatch::Ignored
    ));
    assert!(parse_action_client_message(frames(&[b"fib", b"g", b"BOGUS", b""])).is_none());
    assert_eq!(action_kind_from_wire("FEEDBACK"), Some(ActionKind::Feedback));
    assert_eq!(action_kind_from_wire("feedback"), None);
    assert!(!finishes_goal(ActionKind::Feedback));
}

#[test]
fn sub_messages_and_reply_routing() {
    assert!(parse_sub_message(frames(&[b"/cam"])).is_none());
    let (topic, payload) = parse_sub_message(frames(&[b"/cam", b"img", b"extra"])).unwrap();
    assert_eq!((topic.as_str(), payload.as_slice()), ("/cam", &b"img"[..]));
    let targets = vec![
        (RegistrationKind::Sub, String::new()),
        (RegistrationKind::Action, "echo".to_string()),
        (RegistrationKind::Service, "echo".to_string()),
        (RegistrationKind::Service, "echo".to_string()),
    ];
    let reply = ReplyMessage::Service {
        service_name: "echo".to_string(),
        reply: ServiceReply { client_id: vec![], service: vec![], request_id: vec![], body: vec![] },
    };
    assert_eq!(reply_target(&targets, &reply), Some(2));
    let missing = ReplyMessage::Service {
        service_name: "nope".to_string(),
        reply: ServiceReply { client_id: vec![], service: vec![], request_id: vec![], body: vec![] },
    };
    assert_eq!(reply_target(&targets, &missing), None);
    assert!(heartbeat_due(2500, 2500));
    assert!(!heartbeat_due(2499, 2500));
}

#[test]
fn invalid_utf8_topics_are_read_lossily() {
    let (topic, _) = parse_sub_message(frames(&[b"/c\xffm", b"x"])).unwrap();
    assert_eq!(topic, "/c\u{FFFD}m");
    let (topic, _) = parse_sub_message(frames(&["/caméra".as_bytes(), b""])).unwrap();
    assert_eq!(topic, "/caméra");
}
