//! How the ROS 2 bridge ends a ROS action goal that it serves by sending a
//! bus goal, and how it reads the status a ROS action server reports.
use vstd::prelude::*;
use crate::errors::{BusError, ErrorView};
use crate::text::concat2;

verus! {

/// How a ROS goal served by the bridge ends.
#[derive(Debug, Clone, Copy, PartialEq, Eq, Structural)]
pub enum RosGoalEnd {
    Succeeded,
    Cancelled,
    Aborted,
}

/// What serving a ROS goal over the bus came to.
pub enum BusGoalWait {
    /// The ROS goal was cancelled before it began executing.
    CancelledBeforeStart,
    /// The goal could not be sent over the bus (encoding, deadline or send failed).
    NotSent(BusError),
    /// The bus goal's `RESULT` arrived; `decoded` tells whether its body
    /// decoded as the ROS result (the error says why not).
    Result { decoded: Result<(), BusError> },
    /// The bus goal failed with this error.
    Failed(BusError),
    /// The thread that waited for the bus goal went away, with this reason.
    Lost(String),
    /// The ROS client asked to cancel before the bus goal ended.
    CancelRequested,
}

/// The end of a ROS goal, the error the route's health records for it
/// (`None`: success), and whether the bus goal is to be cancelled.
pub struct RosGoalOutcome {
    pub end: RosGoalEnd,
    pub error: Option<BusError>,
    pub cancel_bus_goal: bool,
}

/// The error recorded for a ROS goal cancelled by its client.
pub open spec fn spec_ros_goal_cancelled() -> ErrorView {
    ErrorView::Cancelled { name: "ROS goal"@ }
}

/// Decide how a ROS goal ends: a result that decodes succeeds; a bus goal
/// that failed as cancelled is cancelled; a cancel from the ROS client
/// cancels the bus goal too; every other failure aborts. The route's health
/// records the failure's error.
pub fn ros_goal_outcome(wait: BusGoalWait) -> (o: RosGoalOutcome)
    ensures
        match wait {
            BusGoalWait::CancelledBeforeStart => o.end == RosGoalEnd::Cancelled && (o.error matches Some(e) && e@
                == spec_ros_goal_cancelled()) && !o.cancel_bus_goal,
            BusGoalWait::NotSent(e) => o.end == RosGoalEnd::Aborted && (o.error matches Some(x) && x@ == e@)
                && !o.cancel_bus_goal,
            BusGoalWait::Result { decoded } => match decoded {
                Ok(()) => o.end == RosGoalEnd::Succeeded && o.error is None && !o.cancel_bus_goal,
                Err(e) => o.end == RosGoalEnd::Aborted && (o.error matches Some(x) && x@ == e@) && !o.cancel_bus_goal,
            },
            BusGoalWait::Failed(e) => o.end == (if e@ is Cancelled {
                RosGoalEnd::Cancelled
            } else {
                RosGoalEnd::Aborted
            }) && (o.error matches Some(x) && x@ == e@) && !o.cancel_bus_goal,
            BusGoalWait::Lost(reason) => o.end == RosGoalEnd::Aborted && (o.error matches Some(x) && x@
                == ErrorView::Protocol(reason@)) && !o.cancel_bus_goal,
            BusGoalWait::CancelRequested => o.end == RosGoalEnd::Cancelled && (o.error matches Some(e) && e@
                == spec_ros_goal_cancelled()) && o.cancel_bus_goal,
        },
{
    match wait {
        BusGoalWait::CancelledBeforeStart => RosGoalOutcome {
            end: RosGoalEnd::Cancelled,
            error: Some(BusError::Cancelled { name: "ROS goal".to_owned() }),
            cancel_bus_goal: false,
        },
        BusGoalWait::NotSent(e) => RosGoalOutcome { end: RosGoalEnd::Aborted, error: Some(e), cancel_bus_goal: false },
        BusGoalWait::Result { decoded } => match decoded {
            Ok(()) => RosGoalOutcome { end: RosGoalEnd::Succeeded, error: None, cancel_bus_goal: false },
            Err(e) => RosGoalOutcome { end: RosGoalEnd::Aborted, error: Some(e), cancel_bus_goal: false },
        },
        BusGoalWait::Failed(e) => {
            let end = match &e {
                BusError::Cancelled { .. } => RosGoalEnd::Cancelled,
                _ => RosGoalEnd::Aborted,
            };
            RosGoalOutcome { end, error: Some(e), cancel_bus_goal: false }
        },
        BusGoalWait::Lost(reason) => RosGoalOutcome {
            end: RosGoalEnd::Aborted,
            error: Some(BusError::Protocol(reason)),
            cancel_bus_goal: false,
        },
        BusGoalWait::CancelRequested => RosGoalOutcome {
            end: RosGoalEnd::Cancelled,
            error: Some(BusError::Cancelled { name: "ROS goal".to_owned() }),
            cancel_bus_goal: true,
        },
    }
}

/// Status a ROS 2 action server reports for a goal.
#[derive(Debug, Clone, Copy, PartialEq, Eq, Structural)]
pub enum RosGoalStatus {
    Unknown,
    Accepted,
    Executing,
    Canceling,
    Succeeded,
    Cancelled,
    Aborted,
}

/// Name of a status as it prints.
pub open spec fn spec_status_name(s: RosGoalStatus) -> Seq<char> {
    match s {
        RosGoalStatus::Unknown => "Unknown"@,
        RosGoalStatus::Accepted => "Accepted"@,
        RosGoalStatus::Executing => "Executing"@,
        RosGoalStatus::Canceling => "Canceling"@,
        RosGoalStatus::Succeeded => "Succeeded"@,
        RosGoalStatus::Cancelled => "Cancelled"@,
        RosGoalStatus::Aborted => "Aborted"@,
    }
}

/// Name of a status as it prints.
pub fn status_name(s: RosGoalStatus) -> (r: &'static str)
    ensures
        r@ == spec_status_name(s),
{
    match s {
        RosGoalStatus::Unknown => "Unknown",
        RosGoalStatus::Accepted => "Accepted",
        RosGoalStatus::Executing => "Executing",
        RosGoalStatus::Canceling => "Canceling",
        RosGoalStatus::Succeeded => "Succeeded",
        RosGoalStatus::Cancelled => "Cancelled",
        RosGoalStatus::Aborted => "Aborted",
    }
}

/// Read the final status of a goal sent to a ROS action server: success
/// passes, a cancelled or aborted goal is that error, any other status is
/// a protocol error.
pub fn check_action_status(status: RosGoalStatus) -> (r: Result<(), BusError>)
    ensures
        status == RosGoalStatus::Succeeded ==> r is Ok,
        status == RosGoalStatus::Cancelled ==> (r matches Err(e) && e@ == ErrorView::Cancelled { name: "ROS action"@ }),
        status == RosGoalStatus::Aborted ==> (r matches Err(e) && e@ == ErrorView::ActionAborted("ROS action"@)),
        status != RosGoalStatus::Succeeded && status != RosGoalStatus::Cancelled && status != RosGoalStatus::Aborted
            ==> (r matches Err(e) && e@ == ErrorView::Protocol(
            "unexpected ROS action status: "@ + spec_status_name(status),
        )),
{
    match status {
        RosGoalStatus::Succeeded => Ok(()),
        RosGoalStatus::Cancelled => Err(BusError::Cancelled { name: "ROS action".to_owned() }),
        RosGoalStatus::Aborted => Err(BusError::ActionAborted("ROS action".to_owned())),
        other => {
            Err(BusError::Protocol(concat2("unexpected ROS action status: ", status_name(other))))
        },
    }
}

} // verus!
