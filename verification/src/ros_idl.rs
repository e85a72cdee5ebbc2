//! Plain message types of the `example_interfaces` package used by the builtin backends.
#![allow(non_camel_case_types)]
use vstd::prelude::*;

verus! {

/// Goal of `example_interfaces/action/Fibonacci`.
#[derive(Clone, Debug, Default, PartialEq)]
pub struct Fibonacci_Goal {
    pub order: i32,
}

/// Feedback of `example_interfaces/action/Fibonacci`.
#[derive(Clone, Debug, Default, PartialEq)]
pub struct Fibonacci_Feedback {
    pub sequence: Vec<i32>,
}

/// Result of `example_interfaces/action/Fibonacci`.
#[derive(Clone, Debug, Default, PartialEq)]
pub struct Fibonacci_Result {
    pub sequence: Vec<i32>,
}

/// The `example_interfaces/action/Fibonacci` action.
pub struct Fibonacci;

/// Request of `example_interfaces/srv/AddTwoInts`.
#[derive(Clone, Debug, Default, PartialEq)]
pub struct AddTwoInts_Request {
    pub a: i64,
    pub b: i64,
}

/// Response of `example_interfaces/srv/AddTwoInts`.
#[derive(Clone, Debug, Default, PartialEq)]
pub struct AddTwoInts_Response {
    pub sum: i64,
}

/// The `example_interfaces/srv/AddTwoInts` service.
pub struct AddTwoInts;

} // verus!
