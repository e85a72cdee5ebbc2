use robot_bus::action_worker::{finish_goal, worker_step, InflightGoals, WorkerStep};
use robot_bus::dispatch::{cancel_frames, goal_frames, parse_action_message};
use robot_bus::queues::ReplyMessage;

fn from_client(client: &[u8], mut frames: Vec<Vec<u8>>) -> Vec<Vec<u8>> {
    frames.insert(0, client.to_vec());
    frames
}

#[test]
fn a_goal_runs_can_be_cancelled_and_leaves_after_its_result() {
    let mut inflight = InflightGoals::new();
    let goal = parse_action_message(from_client(b"c1", goal_frames("fib", "g-1", b"5")), "fib");
    let WorkerStep::Run(goal) = worker_step(&mut inflight, goal, "run-1") else { panic!("goal expected") };
    assert_eq!((goal.goal_key.as_str(), goal.body.as_slice()), ("g-1", &b"5"[..]));
    assert_eq!(inflight.flag_of("g-1"), Some(&"run-1"));

    let cancel = parse_action_message(from_client(b"c1", cancel_frames("fib", "g-1", b"")), "fib");
    match worker_step(&mut inflight, cancel, "unused") {
        WorkerStep::Cancel { goal_id } => assert_eq!(goal_id, "g-1"),
        _ => panic!("cancel expected"),
    }
    assert_eq!(inflight.flag_of("g-1"), Some(&"run-1"));

    let reply = finish_goal(&mut inflight, "fib".to_string(), &goal, b"8".to_vec());
    let ReplyMessage::Action { action_name, reply } = reply else { panic!("action reply") };
    assert_eq!(action_name, "fib");
    assert_eq!((reply.client_id, reply.goal_id, reply.kind, reply.body), (b"c1".to_vec(), b"g-1".to_vec(), b"RESULT".to_vec(), b"8".to_vec()));
    assert_eq!(inflight.flag_of("g-1"), None);
    // A cancel after the result reaches nothing.
    let late = parse_action_message(from_client(b"c1", cancel_frames("fib", "g-1", b"")), "fib");
    assert!(matches!(worker_step(&mut inflight, late, "unused"), WorkerStep::Idle));
}

#[test]
fn a_second_run_under_one_id_gets_its_own_flag() {
    let mut inflight = InflightGoals::new();
    let first = parse_action_message(from_client(b"c1", goal_frames("fib", "g", b"")), "fib");
    assert!(matches!(worker_step(&mut inflight, first, 1u8), WorkerStep::Run(_)));
    let second = parse_action_message(from_client(b"c2", goal_frames("fib", "g", b"")), "fib");
    assert!(matches!(worker_step(&mut inflight, second, 2u8), WorkerStep::Run(_)));
    assert_eq!(inflight.flag_of("g"), Some(&2));
}

#[test]
fn cancels_of_unknown_goals_and_other_actions_change_nothing() {
    let mut inflight: InflightGoals<u8> = InflightGoals::new();
    let cancel = parse_action_message(from_client(b"c1", cancel_frames("fib", "nope", b"")), "fib");
    assert!(matches!(worker_step(&mut inflight, cancel, 0), WorkerStep::Idle));
    let foreign = parse_action_message(from_client(b"c1", goal_frames("other", "g", b"")), "fib");
    assert!(matches!(worker_step(&mut inflight, foreign, 0), WorkerStep::Idle));
    assert_eq!(inflight.flag_of("g"), None);
    inflight.start("g".to_string(), 7);
    assert_eq!(inflight.flag_of("g"), Some(&7));
    inflight.finish("g");
    assert_eq!(inflight.flag_of("g"), None);
}
