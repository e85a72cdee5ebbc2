//! Broker endpoint naming for the ipc and inproc transports.
use vstd::prelude::*;
use crate::text::{has_prefix, strip_prefix};

verus! {

/// Default directory of the broker's ipc sockets.
pub const IPC_DIR: &'static str = "/tmp/robot_bus";

/// Default inproc prefix of the embedded broker.
pub const INPROC_PREFIX: &'static str = "robot_bus";

/// Default broker HTTP API port.
pub const DEFAULT_API_PORT: u16 = 15560;

/// The six broker channels a node connects to.
#[derive(Debug, Clone, Copy, PartialEq, Eq, Structural)]
pub enum Channel {
    MessageXsub,
    MessageXpub,
    ServiceFrontend,
    ServiceBackend,
    ActionBackend,
    ActionFrontend,
}

/// File name of a channel's ipc socket.
pub open spec fn spec_ipc_file(ch: Channel) -> Seq<char> {
    match ch {
        Channel::MessageXsub => "message_bus_xsub.ipc"@,
        Channel::MessageXpub => "message_bus_xpub.ipc"@,
        Channel::ServiceFrontend => "service_bus_frontend.ipc"@,
        Channel::ServiceBackend => "service_bus_backend.ipc"@,
        Channel::ActionBackend => "action_bus_backend.ipc"@,
        Channel::ActionFrontend => "action_bus_frontend.ipc"@,
    }
}

/// Path of a channel below an inproc prefix.
pub open spec fn spec_inproc_path(ch: Channel) -> Seq<char> {
    match ch {
        Channel::MessageXsub => "message_bus/xsub"@,
        Channel::MessageXpub => "message_bus/xpub"@,
        Channel::ServiceFrontend => "service_bus/frontend"@,
        Channel::ServiceBackend => "service_bus/backend"@,
        Channel::ActionBackend => "action_bus/backend"@,
        Channel::ActionFrontend => "action_bus/frontend"@,
    }
}

/// `ipc://{dir}/{file}` for a channel.
pub open spec fn spec_ipc_endpoint(dir: Seq<char>, ch: Channel) -> Seq<char> {
    "ipc://"@ + dir + "/"@ + spec_ipc_file(ch)
}

/// The prefix with an optional leading `inproc://` removed.
pub open spec fn spec_inproc_base(prefix: Seq<char>) -> Seq<char> {
    if has_prefix(prefix, "inproc://"@) {
        prefix.subrange("inproc://"@.len() as int, prefix.len() as int)
    } else {
        prefix
    }
}

/// `inproc://{prefix}/{path}` for a channel.
pub open spec fn spec_inproc_endpoint(prefix: Seq<char>, ch: Channel) -> Seq<char> {
    "inproc://"@ + spec_inproc_base(prefix) + "/"@ + spec_inproc_path(ch)
}

fn ipc_file(ch: Channel) -> (r: &'static str)
    ensures
        r@ == spec_ipc_file(ch),
{
    match ch {
        Channel::MessageXsub => "message_bus_xsub.ipc",
        Channel::MessageXpub => "message_bus_xpub.ipc",
        Channel::ServiceFrontend => "service_bus_frontend.ipc",
        Channel::ServiceBackend => "service_bus_backend.ipc",
        Channel::ActionBackend => "action_bus_backend.ipc",
        Channel::ActionFrontend => "action_bus_frontend.ipc",
    }
}

fn inproc_path(ch: Channel) -> (r: &'static str)
    ensures
        r@ == spec_inproc_path(ch),
{
    match ch {
        Channel::MessageXsub => "message_bus/xsub",
        Channel::MessageXpub => "message_bus/xpub",
        Channel::ServiceFrontend => "service_bus/frontend",
        Channel::ServiceBackend => "service_bus/backend",
        Channel::ActionBackend => "action_bus/backend",
        Channel::ActionFrontend => "action_bus/frontend",
    }
}

/// ipc endpoint of `ch` in directory `dir`.
pub fn ipc_endpoint_in(dir: &str, ch: Channel) -> (r: String)
    ensures
        r@ == spec_ipc_endpoint(dir@, ch),
{
    let mut r = String::from_str("ipc://");
    r.append(dir);
    r.append("/");
    r.append(ipc_file(ch));
    r
}

/// inproc endpoint of `ch` under `prefix` (`my_app` or `inproc://my_app`).
pub fn inproc_endpoint_with_prefix(prefix: &str, ch: Channel) -> (r: String)
    ensures
        r@ == spec_inproc_endpoint(prefix@, ch),
{
    let base = match strip_prefix(prefix, "inproc://") {
        Some(rest) => rest,
        None => prefix,
    };
    let mut r = String::from_str("inproc://");
    r.append(base);
    r.append("/");
    r.append(inproc_path(ch));
    r
}

} // verus!
