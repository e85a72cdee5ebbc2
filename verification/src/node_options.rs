//! Broker connection settings owned by a node.
//!
//! Defaults: `host = "localhost"`, `transport = "tcp"`. The presets `tcp` / `ipc` /
//! `inproc` / `ws` fill the endpoints a transport implies; explicit endpoint fields
//! override derived addresses.
use vstd::prelude::*;
use crate::errors::{protocol, protocol_str, BusError, ErrorView};
use crate::text::{concat2, str_eq};
use crate::transports::{
    inproc_endpoint_with_prefix, ipc_endpoint_in, spec_inproc_endpoint, spec_ipc_endpoint, Channel,
    INPROC_PREFIX, IPC_DIR,
};

verus! {

/// Base URL of the broker's WebSocket RPC gateway on the local host.
pub const DEFAULT_WS_URL: &'static str = "http://127.0.0.1:15560";

/// Message of the error every ZeroMQ endpoint accessor gives in WebSocket mode.
pub const ZMQ_IN_WS_MODE: &'static str =
    "ZMQ endpoints are not available in WebSocket RPC node mode";

/// Message of `resolved_ws_url` outside WebSocket mode.
pub const WS_URL_NOT_WS: &'static str = "ws_url is only valid when transport is \"ws\"";

pub const MISSING_XSUB: &'static str =
    "message_xsub unset; call wait_for_broker() / NodeOptions::discover() (GET http://127.0.0.1:15560/api/v1/discover) or set endpoints explicitly";

pub const MISSING_XPUB: &'static str =
    "message_xpub unset; call wait_for_broker() / NodeOptions::discover() or set endpoints explicitly";

pub const MISSING_SERVICE_FRONTEND: &'static str =
    "service_frontend unset; call wait_for_broker() / NodeOptions::discover() or set endpoints explicitly";

pub const MISSING_SERVICE_BACKEND: &'static str =
    "service_backend unset; call wait_for_broker() / NodeOptions::discover() or set endpoints explicitly";

pub const MISSING_ACTION_BACKEND: &'static str =
    "action_backend unset; call wait_for_broker() / NodeOptions::discover() or set endpoints explicitly";

pub const MISSING_ACTION_FRONTEND: &'static str =
    "action_frontend unset; call wait_for_broker() / NodeOptions::discover() or set endpoints explicitly";

/// Broker connection settings.
#[derive(Debug)]
pub struct NodeOptions {
    pub host: String,
    pub transport: String,
    /// WebSocket RPC gateway base URL when `transport == "ws"`.
    pub ws_url: Option<String>,
    /// Embedded console HTTP base URL.
    pub console_url: Option<String>,
    pub message_xsub: Option<String>,
    pub message_xpub: Option<String>,
    pub service_frontend: Option<String>,
    pub service_backend: Option<String>,
    pub action_backend: Option<String>,
    pub action_frontend: Option<String>,
}

/// Optional string as optional characters.
pub open spec fn opt_view(o: Option<String>) -> Option<Seq<char>> {
    match o {
        Some(s) => Some(s@),
        None => None,
    }
}

/// Mathematical view of [`NodeOptions`].
pub struct NodeOptionsView {
    pub host: Seq<char>,
    pub transport: Seq<char>,
    pub ws_url: Option<Seq<char>>,
    pub console_url: Option<Seq<char>>,
    pub message_xsub: Option<Seq<char>>,
    pub message_xpub: Option<Seq<char>>,
    pub service_frontend: Option<Seq<char>>,
    pub service_backend: Option<Seq<char>>,
    pub action_backend: Option<Seq<char>>,
    pub action_frontend: Option<Seq<char>>,
}

impl View for NodeOptions {
    type V = NodeOptionsView;

    open spec fn view(&self) -> NodeOptionsView {
        NodeOptionsView {
            host: self.host@,
            transport: self.transport@,
            ws_url: opt_view(self.ws_url),
            console_url: opt_view(self.console_url),
            message_xsub: opt_view(self.message_xsub),
            message_xpub: opt_view(self.message_xpub),
            service_frontend: opt_view(self.service_frontend),
            service_backend: opt_view(self.service_backend),
            action_backend: opt_view(self.action_backend),
            action_frontend: opt_view(self.action_frontend),
        }
    }
}

/// Options with the given host and transport and no URL or endpoint set.
pub open spec fn spec_empty_endpoints(host: Seq<char>, transport: Seq<char>) -> NodeOptionsView {
    NodeOptionsView {
        host,
        transport,
        ws_url: None,
        console_url: None,
        message_xsub: None,
        message_xpub: None,
        service_frontend: None,
        service_backend: None,
        action_backend: None,
        action_frontend: None,
    }
}

/// The ipc preset for directory `dir`.
pub open spec fn spec_ipc_at(dir: Seq<char>) -> NodeOptionsView {
    NodeOptionsView {
        host: "localhost"@,
        transport: "ipc"@,
        ws_url: None,
        console_url: None,
        message_xsub: Some(spec_ipc_endpoint(dir, Channel::MessageXsub)),
        message_xpub: Some(spec_ipc_endpoint(dir, Channel::MessageXpub)),
        service_frontend: Some(spec_ipc_endpoint(dir, Channel::ServiceFrontend)),
        service_backend: Some(spec_ipc_endpoint(dir, Channel::ServiceBackend)),
        action_backend: Some(spec_ipc_endpoint(dir, Channel::ActionBackend)),
        action_frontend: Some(spec_ipc_endpoint(dir, Channel::ActionFrontend)),
    }
}

/// The inproc preset for `prefix`.
pub open spec fn spec_inproc_at(prefix: Seq<char>) -> NodeOptionsView {
    NodeOptionsView {
        host: "localhost"@,
        transport: "inproc"@,
        ws_url: None,
        console_url: None,
        message_xsub: Some(spec_inproc_endpoint(prefix, Channel::MessageXsub)),
        message_xpub: Some(spec_inproc_endpoint(prefix, Channel::MessageXpub)),
        service_frontend: Some(spec_inproc_endpoint(prefix, Channel::ServiceFrontend)),
        service_backend: Some(spec_inproc_endpoint(prefix, Channel::ServiceBackend)),
        action_backend: Some(spec_inproc_endpoint(prefix, Channel::ActionBackend)),
        action_frontend: Some(spec_inproc_endpoint(prefix, Channel::ActionFrontend)),
    }
}

/// The WebSocket preset for gateway `url`.
pub open spec fn spec_ws_at(url: Seq<char>) -> NodeOptionsView {
    NodeOptionsView {
        host: "127.0.0.1"@,
        transport: "ws"@,
        ws_url: Some(url),
        console_url: None,
        message_xsub: None,
        message_xpub: None,
        service_frontend: None,
        service_backend: None,
        action_backend: None,
        action_frontend: None,
    }
}

/// What an endpoint accessor returns for a field: the WebSocket error in ws mode, the
/// endpoint when set, else the "unset" error with message `missing`.
pub open spec fn endpoint_result(
    v: NodeOptionsView,
    field: Option<Seq<char>>,
    missing: Seq<char>,
) -> Result<Seq<char>, ErrorView> {
    if v.transport == "ws"@ {
        Err(ErrorView::Protocol(ZMQ_IN_WS_MODE@))
    } else {
        match field {
            Some(ep) => Ok(ep),
            None => Err(ErrorView::Protocol(missing)),
        }
    }
}

/// A `Result<String, BusError>` as its view.
pub open spec fn result_view(r: Result<String, BusError>) -> Result<Seq<char>, ErrorView> {
    match r {
        Ok(s) => Ok(s@),
        Err(e) => Err(e@),
    }
}

/// True when no ZeroMQ endpoint is known and discovery must fill them.
pub open spec fn spec_needs_endpoint_discover(v: NodeOptionsView) -> bool {
    v.transport != "ws"@ && v.message_xsub is None && v.message_xpub is None
        && v.service_frontend is None && v.service_backend is None && v.action_frontend is None
        && v.action_backend is None && v.transport != "inproc"@
}

/// Copy of an optional string.
pub fn clone_opt(o: &Option<String>) -> (r: Option<String>)
    ensures
        opt_view(r) == opt_view(*o),
{
    match o {
        Some(s) => Some(s.clone()),
        None => None,
    }
}

impl Clone for NodeOptions {
    fn clone(&self) -> (o: Self)
        ensures
            o@ == self@,
    {
        NodeOptions {
            host: self.host.clone(),
            transport: self.transport.clone(),
            ws_url: clone_opt(&self.ws_url),
            console_url: clone_opt(&self.console_url),
            message_xsub: clone_opt(&self.message_xsub),
            message_xpub: clone_opt(&self.message_xpub),
            service_frontend: clone_opt(&self.service_frontend),
            service_backend: clone_opt(&self.service_backend),
            action_backend: clone_opt(&self.action_backend),
            action_frontend: clone_opt(&self.action_frontend),
        }
    }
}

impl Default for NodeOptions {
    fn default() -> (o: Self)
        ensures
            o@ == spec_empty_endpoints("localhost"@, "tcp"@),
    {
        NodeOptions::tcp()
    }
}

impl NodeOptions {
    fn empty_endpoints(host: &str, transport: &str) -> (o: Self)
        ensures
            o@ == spec_empty_endpoints(host@, transport@),
    {
        NodeOptions {
            host: host.to_owned(),
            transport: transport.to_owned(),
            ws_url: None,
            console_url: None,
            message_xsub: None,
            message_xpub: None,
            service_frontend: None,
            service_backend: None,
            action_backend: None,
            action_frontend: None,
        }
    }

    /// TCP to the local broker (`localhost`, endpoints left for discovery).
    pub fn tcp() -> (o: Self)
        ensures
            o@ == spec_empty_endpoints("localhost"@, "tcp"@),
    {
        NodeOptions::empty_endpoints("localhost", "tcp")
    }

    /// TCP to a broker at `host` (endpoints left for discovery).
    pub fn tcp_at(host: &str) -> (o: Self)
        ensures
            o@ == spec_empty_endpoints(host@, "tcp"@),
    {
        NodeOptions::empty_endpoints(host, "tcp")
    }

    /// IPC under the default directory `/tmp/robot_bus`.
    pub fn ipc() -> (o: Self)
        ensures
            o@ == spec_ipc_at(IPC_DIR@),
    {
        NodeOptions::ipc_at(IPC_DIR)
    }

    /// IPC under directory `dir` (must match the broker's ipc binds).
    pub fn ipc_at(dir: &str) -> (o: Self)
        ensures
            o@ == spec_ipc_at(dir@),
    {
        NodeOptions {
            host: "localhost".to_owned(),
            transport: "ipc".to_owned(),
            ws_url: None,
            console_url: None,
            message_xsub: Some(ipc_endpoint_in(dir, Channel::MessageXsub)),
            message_xpub: Some(ipc_endpoint_in(dir, Channel::MessageXpub)),
            service_frontend: Some(ipc_endpoint_in(dir, Channel::ServiceFrontend)),
            service_backend: Some(ipc_endpoint_in(dir, Channel::ServiceBackend)),
            action_backend: Some(ipc_endpoint_in(dir, Channel::ActionBackend)),
            action_frontend: Some(ipc_endpoint_in(dir, Channel::ActionFrontend)),
        }
    }

    /// Same-process endpoints under the default prefix `robot_bus`.
    pub fn inproc() -> (o: Self)
        ensures
            o@ == spec_inproc_at(INPROC_PREFIX@),
    {
        NodeOptions::inproc_at(INPROC_PREFIX)
    }

    /// Same-process endpoints under `prefix` (`my_app` or `inproc://my_app`).
    pub fn inproc_at(prefix: &str) -> (o: Self)
        ensures
            o@ == spec_inproc_at(prefix@),
    {
        NodeOptions {
            host: "localhost".to_owned(),
            transport: "inproc".to_owned(),
            ws_url: None,
            console_url: None,
            message_xsub: Some(inproc_endpoint_with_prefix(prefix, Channel::MessageXsub)),
            message_xpub: Some(inproc_endpoint_with_prefix(prefix, Channel::MessageXpub)),
            service_frontend: Some(inproc_endpoint_with_prefix(prefix, Channel::ServiceFrontend)),
            service_backend: Some(inproc_endpoint_with_prefix(prefix, Channel::ServiceBackend)),
            action_backend: Some(inproc_endpoint_with_prefix(prefix, Channel::ActionBackend)),
            action_frontend: Some(inproc_endpoint_with_prefix(prefix, Channel::ActionFrontend)),
        }
    }

    /// WebSocket RPC gateway on the local broker.
    pub fn ws() -> (o: Self)
        ensures
            o@ == spec_ws_at(DEFAULT_WS_URL@),
    {
        NodeOptions::ws_at(DEFAULT_WS_URL)
    }

    /// WebSocket RPC gateway at `url`.
    pub fn ws_at(url: &str) -> (o: Self)
        ensures
            o@ == spec_ws_at(url@),
    {
        NodeOptions {
            host: "127.0.0.1".to_owned(),
            transport: "ws".to_owned(),
            ws_url: Some(url.to_owned()),
            console_url: None,
            message_xsub: None,
            message_xpub: None,
            service_frontend: None,
            service_backend: None,
            action_backend: None,
            action_frontend: None,
        }
    }

    /// Transport is `ws`.
    pub fn is_ws(&self) -> (r: bool)
        ensures
            r == (self.transport@ == "ws"@),
    {
        str_eq(self.transport.as_str(), "ws")
    }

    fn endpoint(&self, field: &Option<String>, missing: &str) -> (r: Result<String, BusError>)
        ensures
            result_view(r) == endpoint_result(self@, opt_view(*field), missing@),
    {
        if let Err(e) = self.require_zmq() {
            return Err(e);
        }
        match field {
            Some(ep) => Ok(ep.clone()),
            None => Err(protocol_str(missing)),
        }
    }

    fn require_zmq(&self) -> (r: Result<(), BusError>)
        ensures
            self.transport@ == "ws"@ ==> (r matches Err(e) && e@ == ErrorView::Protocol(
                ZMQ_IN_WS_MODE@,
            )),
            self.transport@ != "ws"@ ==> r is Ok,
    {
        if self.is_ws() {
            Err(protocol_str(ZMQ_IN_WS_MODE))
        } else {
            Ok(())
        }
    }

    /// Gateway URL in ws mode (`ws_url`, or the local default when unset); an error otherwise.
    pub fn resolved_ws_url(&self) -> (r: Result<String, BusError>)
        ensures
            result_view(r) == if self.transport@ == "ws"@ {
                Ok(
                    match self.ws_url {
                        Some(u) => u@,
                        None => DEFAULT_WS_URL@,
                    },
                )
            } else {
                Err(ErrorView::Protocol(WS_URL_NOT_WS@))
            },
    {
        if !self.is_ws() {
            return Err(protocol_str(WS_URL_NOT_WS));
        }
        match &self.ws_url {
            Some(u) => Ok(u.clone()),
            None => Ok(DEFAULT_WS_URL.to_owned()),
        }
    }

    pub fn message_xsub_endpoint(&self) -> (r: Result<String, BusError>)
        ensures
            result_view(r) == endpoint_result(self@, self@.message_xsub, MISSING_XSUB@),
    {
        self.endpoint(&self.message_xsub, MISSING_XSUB)
    }

    pub fn message_xpub_endpoint(&self) -> (r: Result<String, BusError>)
        ensures
            result_view(r) == endpoint_result(self@, self@.message_xpub, MISSING_XPUB@),
    {
        self.endpoint(&self.message_xpub, MISSING_XPUB)
    }

    pub fn service_frontend_endpoint(&self) -> (r: Result<String, BusError>)
        ensures
            result_view(r) == endpoint_result(
                self@,
                self@.service_frontend,
                MISSING_SERVICE_FRONTEND@,
            ),
    {
        self.endpoint(&self.service_frontend, MISSING_SERVICE_FRONTEND)
    }

    pub fn service_backend_endpoint(&self) -> (r: Result<String, BusError>)
        ensures
            result_view(r) == endpoint_result(
                self@,
                self@.service_backend,
                MISSING_SERVICE_BACKEND@,
            ),
    {
        self.endpoint(&self.service_backend, MISSING_SERVICE_BACKEND)
    }

    pub fn action_backend_endpoint(&self) -> (r: Result<String, BusError>)
        ensures
            result_view(r) == endpoint_result(
                self@,
                self@.action_backend,
                MISSING_ACTION_BACKEND@,
            ),
    {
        self.endpoint(&self.action_backend, MISSING_ACTION_BACKEND)
    }

    pub fn action_frontend_endpoint(&self) -> (r: Result<String, BusError>)
        ensures
            result_view(r) == endpoint_result(
                self@,
                self@.action_frontend,
                MISSING_ACTION_FRONTEND@,
            ),
    {
        self.endpoint(&self.action_frontend, MISSING_ACTION_FRONTEND)
    }

    /// True when the ZeroMQ endpoint fields still need to be filled (e.g. via HTTP discover).
    pub fn needs_endpoint_discover(&self) -> (r: bool)
        ensures
            r == spec_needs_endpoint_discover(self@),
    {
        !self.is_ws() && self.message_xsub.is_none() && self.message_xpub.is_none()
            && self.service_frontend.is_none() && self.service_backend.is_none()
            && self.action_frontend.is_none() && self.action_backend.is_none() && !str_eq(
            self.transport.as_str(),
            "inproc",
        )
    }
}

/// Error for an operation that a WebSocket RPC node cannot perform.
pub open spec fn spec_ws_mode_unsupported(op: Seq<char>) -> ErrorView {
    ErrorView::Protocol(
        op
            + " is not supported in WebSocket RPC node mode (client: subscribe / publish / call service / call action; no servers)"@,
    )
}

pub fn ws_mode_unsupported(op: &str) -> (e: BusError)
    ensures
        e@ == spec_ws_mode_unsupported(op@),
{
    protocol(
        concat2(
            op,
            " is not supported in WebSocket RPC node mode (client: subscribe / publish / call service / call action; no servers)",
        ),
    )
}

} // verus!
