use robot_bus::errors::BusError;
use robot_bus::ros_goal::{
    check_action_status, ros_goal_outcome, BusGoalWait, RosGoalEnd, RosGoalStatus,
};

#[test]
fn a_decoded_result_succeeds() {
    let o = ros_goal_outcome(BusGoalWait::Result { decoded: Ok(()) });
    assert_eq!(o.end, RosGoalEnd::Succeeded);
    assert!(o.error.is_none() && !o.cancel_bus_goal);
}

#[test]
fn failures_abort_and_cancels_cancel() {
    let o = ros_goal_outcome(BusGoalWait::Result { decoded: Err(BusError::Protocol("bad".into())) });
    assert_eq!(o.end, RosGoalEnd::Aborted);
    assert!(matches!(o.error, Some(BusError::Protocol(m)) if m == "bad"));
    let o = ros_goal_outcome(BusGoalWait::Failed(BusError::Cancelled { name: "fib".into() }));
    assert_eq!(o.end, RosGoalEnd::Cancelled);
    let o = ros_goal_outcome(BusGoalWait::Failed(BusError::Timeout("t".into())));
    assert_eq!(o.end, RosGoalEnd::Aborted);
    let o = ros_goal_outcome(BusGoalWait::NotSent(BusError::Closed));
    assert_eq!(o.end, RosGoalEnd::Aborted);
    assert!(matches!(o.error, Some(BusError::Closed)));
    let o = ros_goal_outcome(BusGoalWait::Lost("gone".into()));
    assert!(matches!(o.error, Some(BusError::Protocol(m)) if m == "gone"));
    let o = ros_goal_outcome(BusGoalWait::CancelRequested);
    assert_eq!(o.end, RosGoalEnd::Cancelled);
    assert!(o.cancel_bus_goal);
    assert!(matches!(o.error, Some(BusError::Cancelled { name }) if name == "ROS goal"));
    let o = ros_goal_outcome(BusGoalWait::CancelledBeforeStart);
    assert_eq!(o.end, RosGoalEnd::Cancelled);
    assert!(!o.cancel_bus_goal);
}

#[test]
fn ros_action_status_is_read_back() {
    assert!(check_action_status(RosGoalStatus::Succeeded).is_ok());
    assert!(matches!(check_action_status(RosGoalStatus::Cancelled), Err(BusError::Cancelled { name }) if name == "ROS action"));
    assert!(matches!(check_action_status(RosGoalStatus::Aborted), Err(BusError::ActionAborted(m)) if m == "ROS action"));
    match check_action_status(RosGoalStatus::Executing) {
        Err(BusError::Protocol(m)) => assert_eq!(m, "unexpected ROS action status: Executing"),
        _ => panic!("protocol error expected"),
    }
}
