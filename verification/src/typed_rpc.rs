//! Builtin ROS service / action backends, chosen by ROS type string.
use vstd::prelude::*;
use crate::bridge::{debug_str, str_debug};
use crate::errors::{BusError, ErrorView};
use crate::text::{concat3, str_eq};

verus! {

/// Builtin typed service backends.
#[derive(Debug, Clone, Copy, PartialEq, Eq, Structural)]
pub enum BuiltinService {
    /// `std_srvs/srv/Trigger`.
    Trigger,
    /// `std_srvs/srv/SetBool`.
    SetBool,
}

/// Builtin typed action backends.
#[derive(Debug, Clone, Copy, PartialEq, Eq, Structural)]
pub enum BuiltinAction {
    /// `example_interfaces/action/Fibonacci`.
    Fibonacci,
}

pub open spec fn no_service_backend(ros_type: Seq<char>) -> Seq<char> {
    "no typed service backend for "@ + str_debug(ros_type)
        + "; builtins: std_srvs/srv/Trigger, std_srvs/srv/SetBool; implement TypedServiceMapper (convert methods) or override ServiceMapper::attach"@
}

pub open spec fn no_action_backend(ros_type: Seq<char>) -> Seq<char> {
    "no typed action backend for "@ + str_debug(ros_type)
        + "; builtin: example_interfaces/action/Fibonacci; implement TypedActionMapper (convert methods) or override ActionMapper::attach"@
}

/// Choose the builtin service backend for a ROS type string.
pub fn attach_builtin_service(ros_type: &str) -> (r: Result<BuiltinService, BusError>)
    ensures
        ros_type@ == "std_srvs/srv/Trigger"@ ==> r == Ok::<BuiltinService, BusError>(BuiltinService::Trigger),
        ros_type@ == "std_srvs/srv/SetBool"@ ==> r == Ok::<BuiltinService, BusError>(BuiltinService::SetBool),
        ros_type@ != "std_srvs/srv/Trigger"@ && ros_type@ != "std_srvs/srv/SetBool"@ ==> (r matches Err(e)
            && e@ == ErrorView::Protocol(no_service_backend(ros_type@))),
{
    proof {
        reveal_strlit("std_srvs/srv/Trigger");
        reveal_strlit("std_srvs/srv/SetBool");
        assert("std_srvs/srv/Trigger"@[13] != "std_srvs/srv/SetBool"@[13]);
    }
    if str_eq(ros_type, "std_srvs/srv/Trigger") {
        Ok(BuiltinService::Trigger)
    } else if str_eq(ros_type, "std_srvs/srv/SetBool") {
        Ok(BuiltinService::SetBool)
    } else {
        Err(BusError::Protocol(concat3(
            "no typed service backend for ",
            debug_str(ros_type).as_str(),
            "; builtins: std_srvs/srv/Trigger, std_srvs/srv/SetBool; implement TypedServiceMapper (convert methods) or override ServiceMapper::attach",
        )))
    }
}

/// Choose the builtin action backend for a ROS type string.
pub fn attach_builtin_action(ros_type: &str) -> (r: Result<BuiltinAction, BusError>)
    ensures
        ros_type@ == "example_interfaces/action/Fibonacci"@ ==> r == Ok::<BuiltinAction, BusError>(
            BuiltinAction::Fibonacci,
        ),
        ros_type@ != "example_interfaces/action/Fibonacci"@ ==> (r matches Err(e) && e@ == ErrorView::Protocol(
            no_action_backend(ros_type@),
        )),
{
    if str_eq(ros_type, "example_interfaces/action/Fibonacci") {
        Ok(BuiltinAction::Fibonacci)
    } else {
        Err(BusError::Protocol(concat3(
            "no typed action backend for ",
            debug_str(ros_type).as_str(),
            "; builtin: example_interfaces/action/Fibonacci; implement TypedActionMapper (convert methods) or override ActionMapper::attach",
        )))
    }
}

} // verus!
