//! Rules a node applies before it uses its broker link or an executor.
use vstd::prelude::*;
use crate::console_ready::{resolve_console_url, spec_resolve_console_url};
use crate::errors::{BusError, ErrorView};
use crate::node_options::{spec_needs_endpoint_discover, NodeOptions, NodeOptionsView};
use crate::session::{spec_state_name, ConnectionState};
use crate::text::{concat3, trim, trim_ws};

verus! {

/// Whether a node may attach to an executor: a WebSocket node never does,
/// and a node joins at most one executor.
pub fn check_attach_executor(opts: &NodeOptions, already_attached: bool) -> (r: Result<(), BusError>)
    ensures
        opts@.transport == "ws"@ ==> (r matches Err(e) && e@ == ErrorView::Protocol(
            "WebSocket RPC node cannot attach to a ZMQ executor"@,
        )),
        opts@.transport != "ws"@ && already_attached ==> (r matches Err(e) && e@ == ErrorView::Protocol(
            "node is already added to an executor"@,
        )),
        r is Ok <==> (opts@.transport != "ws"@ && !already_attached),
{
    if opts.is_ws() {
        return Err(BusError::Protocol("WebSocket RPC node cannot attach to a ZMQ executor".to_owned()));
    }
    if already_attached {
        return Err(BusError::Protocol("node is already added to an executor".to_owned()));
    }
    Ok(())
}

/// Whether a node may use (or lazily create) its ZeroMQ executor.
pub fn check_executor_use(opts: &NodeOptions) -> (r: Result<(), BusError>)
    ensures
        opts@.transport == "ws"@ ==> (r matches Err(e) && e@ == ErrorView::Protocol(
            "WebSocket RPC node does not use a ZMQ executor; use spin() on the node directly"@,
        )),
        r is Ok <==> opts@.transport != "ws"@,
{
    if opts.is_ws() {
        return Err(BusError::Protocol(
            "WebSocket RPC node does not use a ZMQ executor; use spin() on the node directly".to_owned(),
        ));
    }
    Ok(())
}

/// A node can create endpoints now: it is connected, or its endpoints are
/// known without discovery (and it is not a WebSocket node).
pub open spec fn spec_link_ready(state: ConnectionState, opts: NodeOptionsView) -> bool {
    state == ConnectionState::Connected || (!spec_needs_endpoint_discover(opts) && opts.transport != "ws"@)
}

/// Whether a node can create endpoints now; otherwise it waits for the
/// broker once and asks again.
pub fn link_ready(state: ConnectionState, opts: &NodeOptions) -> (r: bool)
    ensures
        r == spec_link_ready(state, opts@),
{
    state == ConnectionState::Connected || (!opts.needs_endpoint_discover() && !opts.is_ws())
}

/// The error of a node that still has no broker after waiting.
pub fn not_connected_err(state: ConnectionState) -> (e: BusError)
    ensures
        e@ == ErrorView::Protocol(
            "node not connected to broker (state="@ + spec_state_name(state)
                + "); call wait_for_broker() or start robot-bus-broker"@,
        ),
{
    BusError::Protocol(concat3(
        "node not connected to broker (state=",
        state.as_str(),
        "); call wait_for_broker() or start robot-bus-broker",
    ))
}

/// The console base a node was given: its console URL (trimmed) when not
/// blank; for a WebSocket node, else its gateway URL when not blank.
pub open spec fn spec_console_url_opt(opts: NodeOptionsView) -> Option<Seq<char>> {
    if opts.console_url is Some && trim_ws(opts.console_url->0).len() > 0 {
        Some(trim_ws(opts.console_url->0))
    } else if opts.transport == "ws"@ && opts.ws_url is Some && trim_ws(opts.ws_url->0).len() > 0 {
        opts.ws_url
    } else {
        None
    }
}

/// The console base a node was given, if any.
pub fn console_url_opt(opts: &NodeOptions) -> (r: Option<String>)
    ensures
        match spec_console_url_opt(opts@) {
            Some(u) => (r matches Some(s) && s@ == u),
            None => r is None,
        },
{
    if let Some(u) = &opts.console_url {
        let t = trim(u.as_str());
        if t.unicode_len() > 0 {
            return Some(t.to_owned());
        }
    }
    if opts.is_ws() {
        if let Some(w) = &opts.ws_url {
            if trim(w.as_str()).unicode_len() > 0 {
                return Some(w.clone());
            }
        }
    }
    None
}

/// Console / API base used for readiness probes.
pub fn console_url(opts: &NodeOptions) -> (r: String)
    ensures
        r@ == spec_resolve_console_url(spec_console_url_opt(opts@)),
{
    match console_url_opt(opts) {
        Some(u) => resolve_console_url(Some(u.as_str())),
        None => resolve_console_url(None),
    }
}

} // verus!
