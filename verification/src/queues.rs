//! Messages passed between user threads, the worker pool and the I/O thread.
use vstd::prelude::*;

verus! {

/// Work the I/O thread sends on the action client socket.
pub enum OutboundCommand<Cb> {
    SendGoal { action_name: String, goal_id: String, body: Vec<u8>, callback: Cb },
    CancelGoal { action_name: String, goal_id: String, body: Vec<u8> },
}

/// Reply of a service handler, addressed to the requesting client.
pub struct ServiceReply {
    pub client_id: Vec<u8>,
    pub service: Vec<u8>,
    pub request_id: Vec<u8>,
    pub body: Vec<u8>,
}

/// Feedback or result of an action goal, addressed to the requesting client.
pub struct ActionReply {
    pub client_id: Vec<u8>,
    pub goal_id: Vec<u8>,
    pub kind: Vec<u8>,
    pub body: Vec<u8>,
}

/// A reply on its way to the worker socket that answers it.
pub enum ReplyMessage {
    Service { service_name: String, reply: ServiceReply },
    Action { action_name: String, reply: ActionReply },
}

} // verus!
