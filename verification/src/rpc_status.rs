//! RPC status codes and action kinds on the gRPC / WebSocket gateways, mapped onto
//! [`BusError`].
use vstd::prelude::*;
use crate::errors::{BusError, ErrorView};
use crate::text::{
    concat2, contains, decimal, has_infix, has_prefix, is_char, signed_decimal, starts_with, strip_all_prefix,
    strip_prefix, trim_by, trim_char, trim_start_str, u64_to_decimal, i64_to_decimal,
};

verus! {

/// gRPC status codes.
#[derive(Debug, Clone, Copy, PartialEq, Eq, Structural)]
pub enum RpcCode {
    Success,
    Cancelled,
    Unknown,
    InvalidArgument,
    DeadlineExceeded,
    NotFound,
    AlreadyExists,
    PermissionDenied,
    ResourceExhausted,
    FailedPrecondition,
    Aborted,
    OutOfRange,
    Unimplemented,
    Internal,
    Unavailable,
    DataLoss,
    Unauthenticated,
}

/// Code of a numeric status; numbers outside `0..=16` are `Unknown`.
pub open spec fn spec_code_from_u32(v: u32) -> RpcCode {
    if v == 0 {
        RpcCode::Success
    } else if v == 1 {
        RpcCode::Cancelled
    } else if v == 2 {
        RpcCode::Unknown
    } else if v == 3 {
        RpcCode::InvalidArgument
    } else if v == 4 {
        RpcCode::DeadlineExceeded
    } else if v == 5 {
        RpcCode::NotFound
    } else if v == 6 {
        RpcCode::AlreadyExists
    } else if v == 7 {
        RpcCode::PermissionDenied
    } else if v == 8 {
        RpcCode::ResourceExhausted
    } else if v == 9 {
        RpcCode::FailedPrecondition
    } else if v == 10 {
        RpcCode::Aborted
    } else if v == 11 {
        RpcCode::OutOfRange
    } else if v == 12 {
        RpcCode::Unimplemented
    } else if v == 13 {
        RpcCode::Internal
    } else if v == 14 {
        RpcCode::Unavailable
    } else if v == 15 {
        RpcCode::DataLoss
    } else if v == 16 {
        RpcCode::Unauthenticated
    } else {
        RpcCode::Unknown
    }
}

impl RpcCode {
    pub fn from_u32(v: u32) -> (c: RpcCode)
        ensures
            c == spec_code_from_u32(v),
    {
        match v {
            0 => RpcCode::Success,
            1 => RpcCode::Cancelled,
            2 => RpcCode::Unknown,
            3 => RpcCode::InvalidArgument,
            4 => RpcCode::DeadlineExceeded,
            5 => RpcCode::NotFound,
            6 => RpcCode::AlreadyExists,
            7 => RpcCode::PermissionDenied,
            8 => RpcCode::ResourceExhausted,
            9 => RpcCode::FailedPrecondition,
            10 => RpcCode::Aborted,
            11 => RpcCode::OutOfRange,
            12 => RpcCode::Unimplemented,
            13 => RpcCode::Internal,
            14 => RpcCode::Unavailable,
            15 => RpcCode::DataLoss,
            16 => RpcCode::Unauthenticated,
            _ => RpcCode::Unknown,
        }
    }
}

/// Kind of an action message.
#[derive(Debug, Clone, Copy, PartialEq, Eq, Structural)]
pub enum ActionKind {
    Goal,
    Feedback,
    Result,
    Cancel,
}

/// Wire byte of the action kind in WebSocket frames.
pub const ACTION_KIND_GOAL: u8 = 1;
pub const ACTION_KIND_FEEDBACK: u8 = 2;
pub const ACTION_KIND_RESULT: u8 = 3;
pub const ACTION_KIND_CANCEL: u8 = 4;

/// Kind named by a WebSocket action byte, if any.
pub open spec fn spec_ws_kind(kind: u8) -> Option<ActionKind> {
    if kind == ACTION_KIND_GOAL {
        Some(ActionKind::Goal)
    } else if kind == ACTION_KIND_FEEDBACK {
        Some(ActionKind::Feedback)
    } else if kind == ACTION_KIND_RESULT {
        Some(ActionKind::Result)
    } else if kind == ACTION_KIND_CANCEL {
        Some(ActionKind::Cancel)
    } else {
        None
    }
}

/// Decode a WebSocket action kind byte.
pub fn ws_action_kind(kind: u8) -> (r: Result<ActionKind, BusError>)
    ensures
        match spec_ws_kind(kind) {
            Some(k) => r == Ok::<ActionKind, BusError>(k),
            None => r matches Err(e) && e@ == ErrorView::Protocol(
                "unknown ws action kind: "@ + decimal(kind as nat),
            ),
        },
        r matches Ok(k) ==> kind == ws_kind_byte(k),
        forall|k: ActionKind| kind == #[trigger] ws_kind_byte(k) ==> r == Ok::<ActionKind, BusError>(k),
{
    if kind == ACTION_KIND_GOAL {
        Ok(ActionKind::Goal)
    } else if kind == ACTION_KIND_FEEDBACK {
        Ok(ActionKind::Feedback)
    } else if kind == ACTION_KIND_RESULT {
        Ok(ActionKind::Result)
    } else if kind == ACTION_KIND_CANCEL {
        Ok(ActionKind::Cancel)
    } else {
        Err(BusError::Protocol(concat2("unknown ws action kind: ", u64_to_decimal(kind as u64).as_str())))
    }
}

/// Kind named by a protobuf `ActionKind` number (0 is unspecified).
pub open spec fn spec_pb_kind(kind: i32) -> Option<ActionKind> {
    if kind == 1 {
        Some(ActionKind::Goal)
    } else if kind == 2 {
        Some(ActionKind::Feedback)
    } else if kind == 3 {
        Some(ActionKind::Result)
    } else if kind == 4 {
        Some(ActionKind::Cancel)
    } else {
        None
    }
}

/// Decode a protobuf action kind; unknown and unspecified kinds give a protocol error whose
/// message starts with `label` (`"unknown gRPC action kind: "` or `"unknown ws action kind: "`).
pub fn pb_action_kind(kind: i32, label: &str) -> (r: Result<ActionKind, BusError>)
    ensures
        match spec_pb_kind(kind) {
            Some(k) => r == Ok::<ActionKind, BusError>(k),
            None => r matches Err(e) && e@ == ErrorView::Protocol(
                label@ + signed_decimal(kind as int),
            ),
        },
        r matches Ok(k) ==> kind == pb_kind_number(k),
        forall|k: ActionKind| kind == #[trigger] pb_kind_number(k) ==> r == Ok::<ActionKind, BusError>(k),
{
    match kind {
        1 => Ok(ActionKind::Goal),
        2 => Ok(ActionKind::Feedback),
        3 => Ok(ActionKind::Result),
        4 => Ok(ActionKind::Cancel),
        _ => Err(BusError::Protocol(concat2(label, i64_to_decimal(kind as i64).as_str()))),
    }
}

/// `s` with a leading `prefix` removed when present.
pub open spec fn strip_or_keep(s: Seq<char>, prefix: Seq<char>) -> Seq<char> {
    if has_prefix(s, prefix) {
        s.subrange(prefix.len() as int, s.len() as int)
    } else {
        s
    }
}

/// `s` without surrounding single quotes.
pub open spec fn unquote(s: Seq<char>) -> Seq<char> {
    trim_by(s, is_char('\''))
}

/// Name of a cancelled call in a `cancelled 'name'` message.
pub open spec fn spec_cancelled_name(message: Seq<char>) -> Seq<char> {
    unquote(strip_or_keep(message, "cancelled "@))
}

/// Generic protocol error `rpc {status}: {message}`.
pub open spec fn rpc_protocol(status: u32, message: Seq<char>) -> ErrorView {
    ErrorView::Protocol("rpc "@ + decimal(status as nat) + ": "@ + message)
}

/// Mapping of an `Internal` status.
pub open spec fn spec_map_internal(status: u32, message: Seq<char>) -> ErrorView {
    if has_prefix(message, "handler panicked for "@) {
        ErrorView::HandlerPanicked {
            name: unquote(strip_all_prefix(message, "handler panicked for "@)),
        }
    } else if has_prefix(message, "cancelled "@) || has_prefix(message, "cancelled '"@) {
        ErrorView::Cancelled { name: spec_cancelled_name(message) }
    } else if has_prefix(message, "action aborted: "@) {
        ErrorView::ActionAborted(strip_or_keep(message, "action aborted: "@))
    } else if has_prefix(message, "action rejected: "@) {
        ErrorView::ActionRejected(strip_or_keep(message, "action rejected: "@))
    } else {
        rpc_protocol(status, message)
    }
}

/// Mapping of a WebSocket RPC trailer status onto an error.
pub open spec fn spec_map_rpc_status(status: u32, message: Seq<char>) -> ErrorView {
    let code = spec_code_from_u32(status);
    if code == RpcCode::ResourceExhausted {
        ErrorView::Busy { name: unquote(strip_or_keep(message, "busy "@)) }
    } else if code == RpcCode::DeadlineExceeded {
        ErrorView::Timeout(message)
    } else if code == RpcCode::Cancelled {
        ErrorView::Cancelled { name: spec_cancelled_name(message) }
    } else if code == RpcCode::Aborted && has_prefix(message, "action aborted: "@) {
        ErrorView::ActionAborted(strip_or_keep(message, "action aborted: "@))
    } else if code == RpcCode::FailedPrecondition && has_prefix(message, "action rejected: "@) {
        ErrorView::ActionRejected(strip_or_keep(message, "action rejected: "@))
    } else if code == RpcCode::Internal {
        spec_map_internal(status, message)
    } else if code == RpcCode::NotFound && has_prefix(message, "no goal "@) {
        ErrorView::NoGoal { goal_id: unquote(strip_or_keep(message, "no goal "@)) }
    } else if code == RpcCode::Unavailable && has_prefix(message, "no worker for "@) {
        ErrorView::NoWorker { name: unquote(strip_or_keep(message, "no worker for "@)) }
    } else if code == RpcCode::Unavailable && has_prefix(message, "worker died for "@) {
        ErrorView::WorkerDied { name: unquote(strip_or_keep(message, "worker died for "@)) }
    } else {
        rpc_protocol(status, message)
    }
}

fn strip_or_keep_str<'a>(s: &'a str, prefix: &str) -> (r: &'a str)
    ensures
        r@ == strip_or_keep(s@, prefix@),
{
    match strip_prefix(s, prefix) {
        Some(rest) => rest,
        None => s,
    }
}

fn unquote_owned(s: &str) -> (r: String)
    ensures
        r@ == unquote(s@),
{
    trim_char(s, '\'').to_owned()
}

fn rpc_protocol_error(status: u32, message: &str) -> (e: BusError)
    ensures
        e@ == rpc_protocol(status, message@),
{
    let mut m = String::from_str("rpc ");
    let d = u64_to_decimal(status as u64);
    m.append(d.as_str());
    m.append(": ");
    m.append(message);
    BusError::Protocol(m)
}

/// Name in a `cancelled 'name'` message (also accepts the bare name).
pub fn cancelled_name(message: &str) -> (r: String)
    ensures
        r@ == spec_cancelled_name(message@),
{
    unquote_owned(strip_or_keep_str(message, "cancelled "))
}

/// Map an `Internal` trailer onto the typed error its message names.
pub fn map_internal_rpc_status(status: u32, message: &str) -> (e: BusError)
    ensures
        e@ == spec_map_internal(status, message@),
{
    if starts_with(message, "handler panicked for ") {
        BusError::HandlerPanicked {
            name: unquote_owned(trim_start_str(message, "handler panicked for ")),
        }
    } else if starts_with(message, "cancelled ") || starts_with(message, "cancelled '") {
        BusError::Cancelled { name: cancelled_name(message) }
    } else if let Some(rest) = strip_prefix(message, "action aborted: ") {
        BusError::ActionAborted(rest.to_owned())
    } else if let Some(rest) = strip_prefix(message, "action rejected: ") {
        BusError::ActionRejected(rest.to_owned())
    } else {
        rpc_protocol_error(status, message)
    }
}

/// Map a WebSocket RPC trailer (status code and message) onto [`BusError`], keeping callback
/// errors typed across the gateway.
pub fn map_rpc_status(status: u32, message: &str) -> (e: BusError)
    ensures
        e@ == spec_map_rpc_status(status, message@),
{
    let code = RpcCode::from_u32(status);
    match code {
        RpcCode::ResourceExhausted => BusError::Busy {
            name: unquote_owned(strip_or_keep_str(message, "busy ")),
        },
        RpcCode::DeadlineExceeded => BusError::Timeout(message.to_owned()),
        RpcCode::Cancelled => BusError::Cancelled { name: cancelled_name(message) },
        RpcCode::Aborted if starts_with(message, "action aborted: ") => {
            BusError::ActionAborted(strip_or_keep_str(message, "action aborted: ").to_owned())
        },
        RpcCode::FailedPrecondition if starts_with(message, "action rejected: ") => {
            BusError::ActionRejected(strip_or_keep_str(message, "action rejected: ").to_owned())
        },
        RpcCode::Internal => map_internal_rpc_status(status, message),
        RpcCode::NotFound => {
            if let Some(rest) = strip_prefix(message, "no goal ") {
                BusError::NoGoal { goal_id: unquote_owned(rest) }
            } else {
                rpc_protocol_error(status, message)
            }
        },
        RpcCode::Unavailable => {
            if let Some(rest) = strip_prefix(message, "no worker for ") {
                BusError::NoWorker { name: unquote_owned(rest) }
            } else if let Some(rest) = strip_prefix(message, "worker died for ") {
                BusError::WorkerDied { name: unquote_owned(rest) }
            } else {
                rpc_protocol_error(status, message)
            }
        },
        _ => rpc_protocol_error(status, message),
    }
}

/// Mapping of a gRPC status (code, message and its rendered text) onto an error.
pub open spec fn spec_map_grpc_status(
    code: RpcCode,
    message: Seq<char>,
    rendered: Seq<char>,
) -> ErrorView {
    if code == RpcCode::DeadlineExceeded {
        ErrorView::Timeout(message)
    } else if code == RpcCode::NotFound && has_prefix(message, "no goal "@) {
        ErrorView::NoGoal { goal_id: unquote(strip_or_keep(message, "no goal "@)) }
    } else if code == RpcCode::Unavailable && has_prefix(message, "no worker for "@) {
        ErrorView::NoWorker { name: unquote(strip_or_keep(message, "no worker for "@)) }
    } else if code == RpcCode::Unavailable && has_prefix(message, "worker died for "@) {
        ErrorView::WorkerDied { name: unquote(strip_or_keep(message, "worker died for "@)) }
    } else {
        ErrorView::Protocol(rendered)
    }
}

/// Map a gRPC status onto [`BusError`]; `rendered` is the status's full display text, used
/// for codes without a typed error.
pub fn map_tonic_status(code: RpcCode, message: &str, rendered: &str) -> (e: BusError)
    ensures
        e@ == spec_map_grpc_status(code, message@, rendered@),
{
    match code {
        RpcCode::DeadlineExceeded => BusError::Timeout(message.to_owned()),
        RpcCode::NotFound => {
            if let Some(rest) = strip_prefix(message, "no goal ") {
                BusError::NoGoal { goal_id: unquote_owned(rest) }
            } else {
                BusError::Protocol(rendered.to_owned())
            }
        },
        RpcCode::Unavailable => {
            if let Some(rest) = strip_prefix(message, "no worker for ") {
                BusError::NoWorker { name: unquote_owned(rest) }
            } else if let Some(rest) = strip_prefix(message, "worker died for ") {
                BusError::WorkerDied { name: unquote_owned(rest) }
            } else {
                BusError::Protocol(rendered.to_owned())
            }
        },
        _ => BusError::Protocol(rendered.to_owned()),
    }
}

/// Request timeout in milliseconds for the gateway: `None` is 0 (no deadline), otherwise the
/// milliseconds saturated at `u32::MAX`.
pub fn timeout_ms_u32(timeout_ms: Option<u128>) -> (r: u32)
    ensures
        match timeout_ms {
            None => r == 0,
            Some(ms) => r == if ms > u32::MAX { u32::MAX as u128 } else { ms },
        },
{
    match timeout_ms {
        None => 0,
        Some(ms) => if ms > u32::MAX as u128 {
            u32::MAX
        } else {
            ms as u32
        },
    }
}

/// Error of a failed call into the ROS side of a bridge: a timeout when the
/// message says it timed out, otherwise a protocol error.
pub fn rpc_call_error(message: String) -> (e: BusError)
    ensures
        has_infix(message@, "timed out"@) ==> e@ == ErrorView::Timeout(message@),
        !has_infix(message@, "timed out"@) ==> e@ == ErrorView::Protocol(message@),
{
    if contains(message.as_str(), "timed out") {
        BusError::Timeout(message)
    } else {
        BusError::Protocol(message)
    }
}


/// Byte a sender writes for each action kind in WebSocket frames.
pub open spec fn ws_kind_byte(k: ActionKind) -> u8 {
    match k {
        ActionKind::Goal => 1,
        ActionKind::Feedback => 2,
        ActionKind::Result => 3,
        ActionKind::Cancel => 4,
    }
}

/// Number of each action kind in the protobuf `ActionKind` enum.
pub open spec fn pb_kind_number(k: ActionKind) -> i32 {
    match k {
        ActionKind::Goal => 1,
        ActionKind::Feedback => 2,
        ActionKind::Result => 3,
        ActionKind::Cancel => 4,
    }
}

/// Decoding an action kind inverts its encoding: the WebSocket byte (and the
/// protobuf number) written for a kind decodes to that kind, and no other
/// byte (number) decodes to it, so two different kinds never share one.
pub proof fn law_action_kind_round_trip(k: ActionKind, b: u8, n: i32)
    ensures
        spec_ws_kind(ws_kind_byte(k)) == Some(k),
        spec_ws_kind(b) == Some(k) ==> b == ws_kind_byte(k),
        spec_pb_kind(pb_kind_number(k)) == Some(k),
        spec_pb_kind(n) == Some(k) ==> n == pb_kind_number(k),
{
}

} // verus!
