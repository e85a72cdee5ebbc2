//! Address of the broker's WebSocket RPC gateway.
use vstd::prelude::*;
use crate::action_goal::GoalEvent;
use crate::dispatch::ActionMessage;
use crate::errors::{BusError, ErrorView};
use crate::rpc_status::{map_rpc_status, spec_map_rpc_status, spec_ws_kind, ws_action_kind, ActionKind};
use crate::text::{decimal, concat2, ends_with, has_prefix, has_suffix, is_char, starts_with, strip_prefix, trim_end_by, trim_end_char};

verus! {

/// Path of the WebSocket RPC gateway on the broker.
pub const WS_RPC_PATH: &'static str = "/ws-rpc";

/// `url` ending in the gateway path (appended unless already there).
pub open spec fn spec_with_ws_rpc_path(url: Seq<char>) -> Seq<char> {
    if has_suffix(url, "/ws-rpc"@) {
        url
    } else {
        url + "/ws-rpc"@
    }
}

/// `url` without trailing `/`, in a `ws://` / `wss://` scheme: kept when already
/// WebSocket, `https://` becomes `wss://`, `http://` becomes `ws://`, and a bare
/// address gets `ws://`.
pub open spec fn spec_ws_base(url: Seq<char>) -> Seq<char> {
    let t = trim_end_by(url, is_char('/'));
    if has_prefix(t, "ws://"@) || has_prefix(t, "wss://"@) {
        t
    } else if has_prefix(t, "https://"@) {
        "wss://"@ + t.subrange("https://"@.len() as int, t.len() as int)
    } else if has_prefix(t, "http://"@) {
        "ws://"@ + t.subrange("http://"@.len() as int, t.len() as int)
    } else {
        "ws://"@ + t
    }
}

/// Append the gateway path to a WebSocket URL unless it already ends with it.
pub fn with_ws_rpc_path(url: &str) -> (r: String)
    ensures
        r@ == spec_with_ws_rpc_path(url@),
{
    if ends_with(url, "/ws-rpc") {
        url.to_owned()
    } else {
        concat2(url, "/ws-rpc")
    }
}

/// WebSocket RPC gateway URL for a broker HTTP address
/// (`http://127.0.0.1:15560` → `ws://127.0.0.1:15560/ws-rpc`).
pub fn http_url_to_ws_rpc(url: &str) -> (r: String)
    ensures
        r@ == spec_with_ws_rpc_path(spec_ws_base(url@)),
{
    let trimmed = trim_end_char(url, '/');
    let as_ws = if starts_with(trimmed, "ws://") || starts_with(trimmed, "wss://") {
        trimmed.to_owned()
    } else {
        match strip_prefix(trimmed, "https://") {
            Some(rest) => concat2("wss://", rest),
            None => match strip_prefix(trimmed, "http://") {
                Some(rest) => concat2("ws://", rest),
                None => concat2("ws://", trimmed),
            },
        }
    };
    with_ws_rpc_path(as_ws.as_str())
}

/// Outcome of a stream's trailer: status 0 ends it normally, any other
/// status fails it with the mapped error.
pub fn trailer_outcome(status: u32, message: &str) -> (r: Result<(), BusError>)
    ensures
        status == 0 ==> r is Ok,
        status != 0 ==> (r matches Err(e) && e@ == spec_map_rpc_status(status, message@)),
{
    if status != 0 {
        Err(map_rpc_status(status, message))
    } else {
        Ok(())
    }
}

/// Turn the data of an action stream (kind byte and body) into the goal's
/// message; an unknown kind byte fails the goal.
pub fn ws_action_event(action_name: String, goal_id: String, kind: u8, body: Vec<u8>) -> (r: GoalEvent)
    ensures
        spec_ws_kind(kind) is None ==> (r matches GoalEvent::Unexpected(e) && e@ == ErrorView::Protocol(
            "unknown ws action kind: "@ + decimal(kind as nat),
        )),
        spec_ws_kind(kind) matches Some(k) ==> (r matches GoalEvent::Forward { message, feedback, done }
            && message.action_name@ == action_name@ && message.goal_id@ == goal_id@ && message.kind == k
            && message.body@ == body@ && feedback == (k == ActionKind::Feedback) && done == (k
            == ActionKind::Result)),
{
    match ws_action_kind(kind) {
        Err(e) => GoalEvent::Unexpected(e),
        Ok(k) => {
            let feedback = k == ActionKind::Feedback;
            let done = k == ActionKind::Result;
            GoalEvent::Forward { message: ActionMessage { action_name, goal_id, kind: k, body }, feedback, done }
        },
    }
}

} // verus!
