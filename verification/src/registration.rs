//! Where a node's best-effort control-plane registrations (topology
//! endpoints, topic types) are sent, and what they carry.
use vstd::prelude::*;
use crate::text::{str_eq, trim, trim_ws};

verus! {

/// Where a registration goes.
pub enum FrontendTarget {
    /// An explicitly configured service frontend endpoint.
    Endpoint(String),
    /// The broker's default service frontend for this host and transport.
    Default { host: String, transport: String },
}

/// Spec view of [`FrontendTarget`].
pub enum FrontendTargetView {
    Endpoint(Seq<char>),
    Default { host: Seq<char>, transport: Seq<char> },
}

impl View for FrontendTarget {
    type V = FrontendTargetView;

    open spec fn view(&self) -> FrontendTargetView {
        match self {
            FrontendTarget::Endpoint(e) => FrontendTargetView::Endpoint(e@),
            FrontendTarget::Default { host, transport } => FrontendTargetView::Default {
                host: host@,
                transport: transport@,
            },
        }
    }
}

/// The explicit endpoint, trimmed, when it is not blank; otherwise the
/// default frontend: for a node on `relay` (whose broker link is not ZeroMQ),
/// the local broker's TCP frontend, else the frontend of `host` on `transport`.
pub open spec fn spec_resolve_frontend(explicit: Option<Seq<char>>, host: Seq<char>, transport: Seq<char>, relay: Seq<char>) -> FrontendTargetView {
    if explicit is Some && trim_ws(explicit->0).len() > 0 {
        FrontendTargetView::Endpoint(trim_ws(explicit->0))
    } else if transport == relay {
        FrontendTargetView::Default { host: "127.0.0.1"@, transport: "tcp"@ }
    } else {
        FrontendTargetView::Default { host, transport }
    }
}

fn resolve_service_frontend(explicit: Option<&str>, host: &str, transport: &str, relay: &str) -> (r: FrontendTarget)
    ensures
        r@ == spec_resolve_frontend(
            match explicit {
                Some(e) => Some(e@),
                None => None,
            },
            host@,
            transport@,
            relay@,
        ),
{
    if let Some(ep) = explicit {
        let t = trim(ep);
        if t.unicode_len() > 0 {
            return FrontendTarget::Endpoint(t.to_owned());
        }
    }
    if str_eq(transport, relay) {
        return FrontendTarget::Default { host: "127.0.0.1".to_owned(), transport: "tcp".to_owned() };
    }
    FrontendTarget::Default { host: host.to_owned(), transport: transport.to_owned() }
}

/// A topic → message type registration to send to the broker.
pub struct TopicTypeRegistration {
    pub target: FrontendTarget,
    pub topic: String,
    pub msg_type: String,
}

/// Plan the registration of `topic`'s message type on the broker control
/// plane: where it goes (a gRPC node goes through the local broker) and what
/// it carries.
pub fn register_topic_type(service_frontend: Option<&str>, host: &str, transport: &str, topic: &str, msg_type: &str) -> (r: TopicTypeRegistration)
    ensures
        r.target@ == spec_resolve_frontend(
            match service_frontend {
                Some(e) => Some(e@),
                None => None,
            },
            host@,
            transport@,
            "grpc"@,
        ),
        r.topic@ == topic@,
        r.msg_type@ == msg_type@,
{
    TopicTypeRegistration {
        target: resolve_service_frontend(service_frontend, host, transport, "grpc"),
        topic: topic.to_owned(),
        msg_type: msg_type.to_owned(),
    }
}

/// Where a topology endpoint registers: a WebSocket node goes through the local broker.
pub fn topology_frontend(service_frontend: Option<&str>, host: &str, transport: &str) -> (r: FrontendTarget)
    ensures
        r@ == spec_resolve_frontend(
            match service_frontend {
                Some(e) => Some(e@),
                None => None,
            },
            host@,
            transport@,
            "ws"@,
        ),
{
    resolve_service_frontend(service_frontend, host, transport, "ws")
}

/// Keeps a topology endpoint registered until dropped (refresh, then unregister).
pub struct TopologyEndpointGuard {
    endpoint_id: String,
    service_frontend: String,
}

impl TopologyEndpointGuard {
    pub closed spec fn spec_endpoint_id(&self) -> Seq<char> {
        self.endpoint_id@
    }

    pub closed spec fn spec_service_frontend(&self) -> Seq<char> {
        self.service_frontend@
    }

    /// Guard of endpoint `endpoint_id`, registered at `frontend` when one
    /// could be resolved (empty otherwise).
    pub fn start(endpoint_id: String, frontend: Option<String>) -> (g: Self)
        ensures
            g.spec_endpoint_id() == endpoint_id@,
            g.spec_service_frontend() == (match frontend {
                Some(f) => f@,
                None => Seq::<char>::empty(),
            }),
    {
        let service_frontend = match frontend {
            Some(f) => f,
            None => String::new(),
        };
        TopologyEndpointGuard { endpoint_id, service_frontend }
    }

    pub fn endpoint_id(&self) -> (r: &str)
        ensures
            r@ == self.spec_endpoint_id(),
    {
        self.endpoint_id.as_str()
    }

    /// Where to unregister on drop, if the endpoint was registered at all.
    pub fn unregister_target(&self) -> (r: Option<&str>)
        ensures
            self.spec_service_frontend().len() == 0 ==> r is None,
            self.spec_service_frontend().len() > 0 ==> (r matches Some(f) && f@ == self.spec_service_frontend()),
    {
        if self.service_frontend.unicode_len() == 0 {
            None
        } else {
            Some(self.service_frontend.as_str())
        }
    }
}

} // verus!
