//! Frame layouts of the executor's sockets: what each received multipart
//! message means, and the frames each outgoing message is made of.
//!
//! Service worker, receiving:   `[client, service, request_id, body]`
//! Service worker, replying:    `[client, service, request_id, body]`
//! Action worker, receiving:    `[client, action, goal_id, kind, body]`, kind `GOAL` or `CANCEL`
//! Action worker, replying:     `[client, action, goal_id, kind, body]`, kind `FEEDBACK` or `RESULT`
//! Action client, sending:      `[action, goal_id, kind, body]`, kind `GOAL` or `CANCEL`
//! Action client, receiving:    `[action, goal_id, kind, body]`
//! Subscriber, receiving:       `[topic, payload, ...]`
use vstd::prelude::*;
use vstd::utf8::{decode_utf8, encode_utf8, encode_utf8_decode_utf8, valid_utf8};
use crate::executors::RegistrationKind;
use crate::queues::{ActionReply, ReplyMessage, ServiceReply};
use crate::rpc_status::ActionKind;
use crate::text::str_eq;

verus! {

/// Name for what `String::from_utf8_lossy` makes of bytes that are not valid UTF-8.
pub uninterp spec fn lossy_of_invalid(bytes: Seq<u8>) -> Seq<char>;

/// Text read from some bytes: the decoded text when they are valid UTF-8.
pub open spec fn utf8_lossy(bytes: Seq<u8>) -> Seq<char> {
    if valid_utf8(bytes) {
        decode_utf8(bytes)
    } else {
        lossy_of_invalid(bytes)
    }
}

/// `String::from_utf8_lossy` (made owned): the text of `bytes`, each invalid
/// sequence replaced by U+FFFD. The contract states what std documents for
/// valid input, the decoded text itself; what the replacement makes of
/// invalid input is only named.
#[verifier::external_body]
fn lossy_text(bytes: &[u8]) -> (s: String)
    ensures
        valid_utf8(bytes@) ==> s@ == decode_utf8(bytes@),
        !valid_utf8(bytes@) ==> s@ == lossy_of_invalid(bytes@),
{
    String::from_utf8_lossy(bytes).into_owned()
}

/// Bytes of a frame list, frame by frame.
pub open spec fn frames_view(f: Seq<Vec<u8>>) -> Seq<Seq<u8>> {
    f.map_values(|x: Vec<u8>| x@)
}

/// UTF-8 bytes of a text.
pub open spec fn utf8(s: Seq<char>) -> Seq<u8> {
    encode_utf8(s)
}

/// Reading the UTF-8 bytes of a text gives back the text.
pub proof fn lemma_lossy_of_utf8(s: Seq<char>)
    ensures
        valid_utf8(utf8(s)),
        decode_utf8(utf8(s)) == s,
        utf8_lossy(utf8(s)) == s,
{
    broadcast use vstd::utf8::encode_utf8_valid_utf8;
    encode_utf8_decode_utf8(s);
}

fn text_bytes(s: &str) -> (b: Vec<u8>)
    ensures
        b@ == utf8(s@),
{
    s.as_bytes_vec()
}

/// A request taken off a service worker socket.
pub struct ServiceRequest {
    pub client_id: Vec<u8>,
    pub service: Vec<u8>,
    pub request_id: Vec<u8>,
    pub body: Vec<u8>,
}

/// A service message is a request for `service_name` when it has exactly four
/// frames and its second frame reads as that name.
pub open spec fn spec_is_service_request(frames: Seq<Seq<u8>>, service_name: Seq<char>) -> bool {
    frames.len() == 4 && utf8_lossy(frames[1]) == service_name
}

/// Take the four frames of a service request off a received message; `None`
/// for a message of another shape or for another service (it is dropped).
pub fn parse_service_request(frames: Vec<Vec<u8>>, service_name: &str) -> (r: Option<ServiceRequest>)
    ensures
        r is Some <==> spec_is_service_request(frames_view(frames@), service_name@),
        r matches Some(q) ==> q.client_id@ == frames@[0]@ && q.service@ == frames@[1]@
            && q.request_id@ == frames@[2]@ && q.body@ == frames@[3]@,
{
    if frames.len() != 4 {
        return None;
    }
    let name = lossy_text(frames[1].as_slice());
    if !str_eq(name.as_str(), service_name) {
        return None;
    }
    let mut frames = frames;
    let body = frames.pop().unwrap();
    let request_id = frames.pop().unwrap();
    let service = frames.pop().unwrap();
    let client_id = frames.pop().unwrap();
    Some(ServiceRequest { client_id, service, request_id, body })
}

/// The reply to `request` carrying `body`, for the worker of `service_name`.
pub fn service_reply(service_name: String, request: ServiceRequest, body: Vec<u8>) -> (m: ReplyMessage)
    ensures
        m matches ReplyMessage::Service { service_name: n, reply } && n@ == service_name@
            && reply.client_id@ == request.client_id@ && reply.service@ == request.service@
            && reply.request_id@ == request.request_id@ && reply.body@ == body@,
{
    ReplyMessage::Service {
        service_name,
        reply: ServiceReply {
            client_id: request.client_id,
            service: request.service,
            request_id: request.request_id,
            body,
        },
    }
}

/// Frames of a service reply: `[client, service, request_id, body]`.
pub fn service_reply_frames(reply: ServiceReply) -> (f: Vec<Vec<u8>>)
    ensures
        frames_view(f@) == seq![reply.client_id@, reply.service@, reply.request_id@, reply.body@],
{
    let mut f = Vec::new();
    f.push(reply.client_id);
    f.push(reply.service);
    f.push(reply.request_id);
    f.push(reply.body);
    assert(frames_view(f@) =~= seq![reply.client_id@, reply.service@, reply.request_id@, reply.body@]);
    f
}

/// A goal taken off an action worker socket.
pub struct ActionGoal {
    pub client_id: Vec<u8>,
    pub goal_id: Vec<u8>,
    /// `goal_id` read as text.
    pub goal_key: String,
    pub body: Vec<u8>,
}

/// Meaning of a message received by an action worker.
pub enum ActionDispatch {
    /// Wrong shape, another action, or an unknown kind: dropped.
    Ignored,
    /// Cancel the goal with this id, if it runs.
    Cancel { goal_id: String },
    /// Run a new goal.
    Goal(ActionGoal),
}

/// Spec view of [`ActionDispatch`].
pub enum ActionDispatchView {
    Ignored,
    Cancel { goal_id: Seq<char> },
    Goal { client_id: Seq<u8>, goal_id: Seq<u8>, goal_key: Seq<char>, body: Seq<u8> },
}

impl View for ActionDispatch {
    type V = ActionDispatchView;

    open spec fn view(&self) -> ActionDispatchView {
        match self {
            ActionDispatch::Ignored => ActionDispatchView::Ignored,
            ActionDispatch::Cancel { goal_id } => ActionDispatchView::Cancel { goal_id: goal_id@ },
            ActionDispatch::Goal(g) => ActionDispatchView::Goal {
                client_id: g.client_id@,
                goal_id: g.goal_id@,
                goal_key: g.goal_key@,
                body: g.body@,
            },
        }
    }
}

/// Meaning of `[client, action, goal_id, kind, body]` at the worker of `action_name`.
pub open spec fn spec_action_dispatch(frames: Seq<Seq<u8>>, action_name: Seq<char>) -> ActionDispatchView {
    if frames.len() != 5 || utf8_lossy(frames[1]) != action_name {
        ActionDispatchView::Ignored
    } else if utf8_lossy(frames[3]) == "CANCEL"@ {
        ActionDispatchView::Cancel { goal_id: utf8_lossy(frames[2]) }
    } else if utf8_lossy(frames[3]) == "GOAL"@ {
        ActionDispatchView::Goal {
            client_id: frames[0],
            goal_id: frames[2],
            goal_key: utf8_lossy(frames[2]),
            body: frames[4],
        }
    } else {
        ActionDispatchView::Ignored
    }
}

/// Classify a message received by the worker of `action_name`.
pub fn parse_action_message(frames: Vec<Vec<u8>>, action_name: &str) -> (r: ActionDispatch)
    ensures
        r@ == spec_action_dispatch(frames_view(frames@), action_name@),
{
    if frames.len() != 5 {
        return ActionDispatch::Ignored;
    }
    let action = lossy_text(frames[1].as_slice());
    if !str_eq(action.as_str(), action_name) {
        return ActionDispatch::Ignored;
    }
    let kind = lossy_text(frames[3].as_slice());
    let goal_key = lossy_text(frames[2].as_slice());
    if str_eq(kind.as_str(), "CANCEL") {
        return ActionDispatch::Cancel { goal_id: goal_key };
    }
    if !str_eq(kind.as_str(), "GOAL") {
        return ActionDispatch::Ignored;
    }
    let mut frames = frames;
    let body = frames.pop().unwrap();
    let _kind = frames.pop().unwrap();
    let goal_id = frames.pop().unwrap();
    let _action = frames.pop().unwrap();
    let client_id = frames.pop().unwrap();
    ActionDispatch::Goal(ActionGoal { client_id, goal_id, goal_key, body })
}

/// An action reply of `kind` for `goal`, carrying `body`.
fn action_reply(action_name: String, goal: &ActionGoal, kind: &str, body: Vec<u8>) -> (m: ReplyMessage)
    ensures
        m matches ReplyMessage::Action { action_name: n, reply } && n@ == action_name@
            && reply.client_id@ == goal.client_id@ && reply.goal_id@ == goal.goal_id@
            && reply.kind@ == utf8(kind@) && reply.body@ == body@,
{
    ReplyMessage::Action {
        action_name,
        reply: ActionReply {
            client_id: goal.client_id.clone(),
            goal_id: goal.goal_id.clone(),
            kind: text_bytes(kind),
            body,
        },
    }
}

/// A `FEEDBACK` reply for `goal`.
pub fn action_feedback(action_name: String, goal: &ActionGoal, chunk: Vec<u8>) -> (m: ReplyMessage)
    ensures
        m matches ReplyMessage::Action { action_name: n, reply } && n@ == action_name@
            && reply.client_id@ == goal.client_id@ && reply.goal_id@ == goal.goal_id@
            && reply.kind@ == utf8("FEEDBACK"@) && reply.body@ == chunk@,
{
    action_reply(action_name, goal, "FEEDBACK", chunk)
}

/// The `RESULT` reply for `goal`.
pub fn action_result(action_name: String, goal: &ActionGoal, result: Vec<u8>) -> (m: ReplyMessage)
    ensures
        m matches ReplyMessage::Action { action_name: n, reply } && n@ == action_name@
            && reply.client_id@ == goal.client_id@ && reply.goal_id@ == goal.goal_id@
            && reply.kind@ == utf8("RESULT"@) && reply.body@ == result@,
{
    action_reply(action_name, goal, "RESULT", result)
}

/// Frames of an action reply: `[client, action, goal_id, kind, body]`.
pub fn action_reply_frames(action_name: &str, reply: ActionReply) -> (f: Vec<Vec<u8>>)
    ensures
        frames_view(f@) == seq![reply.client_id@, utf8(action_name@), reply.goal_id@, reply.kind@, reply.body@],
{
    let mut f = Vec::new();
    f.push(reply.client_id);
    f.push(text_bytes(action_name));
    f.push(reply.goal_id);
    f.push(reply.kind);
    f.push(reply.body);
    assert(frames_view(f@) =~= seq![reply.client_id@, utf8(action_name@), reply.goal_id@, reply.kind@, reply.body@]);
    f
}

/// Frames the action client sends for `goal_id`: `[action, goal_id, kind, body]`.
fn client_frames(action_name: &str, goal_id: &str, kind: &str, body: &[u8]) -> (f: Vec<Vec<u8>>)
    ensures
        frames_view(f@) == seq![utf8(action_name@), utf8(goal_id@), utf8(kind@), body@],
{
    let mut f = Vec::new();
    f.push(text_bytes(action_name));
    f.push(text_bytes(goal_id));
    f.push(text_bytes(kind));
    f.push(vstd::slice::slice_to_vec(body));
    assert(frames_view(f@) =~= seq![utf8(action_name@), utf8(goal_id@), utf8(kind@), body@]);
    f
}

/// Frames that send a new goal.
pub fn goal_frames(action_name: &str, goal_id: &str, body: &[u8]) -> (f: Vec<Vec<u8>>)
    ensures
        frames_view(f@) == seq![utf8(action_name@), utf8(goal_id@), utf8("GOAL"@), body@],
{
    client_frames(action_name, goal_id, "GOAL", body)
}

/// Frames that cancel a goal.
pub fn cancel_frames(action_name: &str, goal_id: &str, body: &[u8]) -> (f: Vec<Vec<u8>>)
    ensures
        frames_view(f@) == seq![utf8(action_name@), utf8(goal_id@), utf8("CANCEL"@), body@],
{
    client_frames(action_name, goal_id, "CANCEL", body)
}

/// A message an action client received about one of its goals.
pub struct ActionMessage {
    pub action_name: String,
    pub goal_id: String,
    pub kind: ActionKind,
    pub body: Vec<u8>,
}

/// Spec view of an [`ActionMessage`].
pub struct ActionMessageView {
    pub action_name: Seq<char>,
    pub goal_id: Seq<char>,
    pub kind: ActionKind,
    pub body: Seq<u8>,
}

impl View for ActionMessage {
    type V = ActionMessageView;

    open spec fn view(&self) -> ActionMessageView {
        ActionMessageView {
            action_name: self.action_name@,
            goal_id: self.goal_id@,
            kind: self.kind,
            body: self.body@,
        }
    }
}

impl ActionMessage {
    /// A copy of the message.
    pub fn duplicate(&self) -> (r: ActionMessage)
        ensures
            r@ == self@,
    {
        let body = self.body.clone();
        assert(body@ =~= self.body@);
        ActionMessage {
            action_name: self.action_name.clone(),
            goal_id: self.goal_id.clone(),
            kind: self.kind,
            body,
        }
    }
}

/// Action kind named by its wire word.
pub open spec fn spec_kind_from_wire(s: Seq<char>) -> Option<ActionKind> {
    if s == "GOAL"@ {
        Some(ActionKind::Goal)
    } else if s == "FEEDBACK"@ {
        Some(ActionKind::Feedback)
    } else if s == "RESULT"@ {
        Some(ActionKind::Result)
    } else if s == "CANCEL"@ {
        Some(ActionKind::Cancel)
    } else {
        None
    }
}

/// Decode the wire word of an action kind.
pub fn action_kind_from_wire(s: &str) -> (r: Option<ActionKind>)
    ensures
        r == spec_kind_from_wire(s@),
{
    if str_eq(s, "GOAL") {
        Some(ActionKind::Goal)
    } else if str_eq(s, "FEEDBACK") {
        Some(ActionKind::Feedback)
    } else if str_eq(s, "RESULT") {
        Some(ActionKind::Result)
    } else if str_eq(s, "CANCEL") {
        Some(ActionKind::Cancel)
    } else {
        None
    }
}

/// Read `[action, goal_id, kind, body]` received by an action client; `None`
/// for another shape or an unknown kind (the message is dropped).
pub fn parse_action_client_message(frames: Vec<Vec<u8>>) -> (r: Option<ActionMessage>)
    ensures
        r is Some <==> (frames@.len() == 4 && spec_kind_from_wire(utf8_lossy(frames@[2]@)) is Some),
        r matches Some(m) ==> m.action_name@ == utf8_lossy(frames@[0]@) && m.goal_id@ == utf8_lossy(
            frames@[1]@,
        ) && Some(m.kind) == spec_kind_from_wire(utf8_lossy(frames@[2]@)) && m.body@ == frames@[3]@,
{
    if frames.len() != 4 {
        return None;
    }
    let action_name = lossy_text(frames[0].as_slice());
    let goal_id = lossy_text(frames[1].as_slice());
    let kind_text = lossy_text(frames[2].as_slice());
    let kind = match action_kind_from_wire(kind_text.as_str()) {
        Some(k) => k,
        None => {
            return None;
        },
    };
    let mut frames = frames;
    let body = frames.pop().unwrap();
    Some(ActionMessage { action_name, goal_id, kind, body })
}

/// A goal's callback is dropped once its `RESULT` arrived.
pub fn finishes_goal(kind: ActionKind) -> (r: bool)
    ensures
        r == (kind == ActionKind::Result),
{
    match kind {
        ActionKind::Result => true,
        _ => false,
    }
}

/// Topic and payload of a subscriber message: its first two frames, or `None`
/// with fewer than two.
pub fn parse_sub_message(frames: Vec<Vec<u8>>) -> (r: Option<(String, Vec<u8>)>)
    ensures
        r is Some <==> frames@.len() >= 2,
        r matches Some(p) ==> p.0@ == utf8_lossy(frames@[0]@) && p.1@ == frames@[1]@,
{
    if frames.len() < 2 {
        return None;
    }
    let topic = lossy_text(frames[0].as_slice());
    let payload = frames[1].clone();
    Some((topic, payload))
}

/// Index of the worker that sends `reply`: the first registration of the
/// matching kind (service or action) whose name is the reply's name.
pub open spec fn spec_reply_target(targets: Seq<(RegistrationKind, Seq<char>)>, kind: RegistrationKind, name: Seq<char>) -> Option<int>
    decreases targets.len(),
{
    if targets.len() == 0 {
        None
    } else {
        match spec_reply_target(targets.drop_last(), kind, name) {
            Some(i) => Some(i),
            None => if targets.last().0 == kind && targets.last().1 == name {
                Some(targets.len() - 1)
            } else {
                None
            },
        }
    }
}

/// Kind and name a reply is addressed to.
pub open spec fn reply_address(m: ReplyMessage) -> (RegistrationKind, Seq<char>) {
    match m {
        ReplyMessage::Service { service_name, .. } => (RegistrationKind::Service, service_name@),
        ReplyMessage::Action { action_name, .. } => (RegistrationKind::Action, action_name@),
    }
}

/// Route a reply to the registration that answers it, given each polled
/// registration's kind and service / action name; `None` when none does (the
/// reply is dropped).
pub fn reply_target(targets: &Vec<(RegistrationKind, String)>, reply: &ReplyMessage) -> (r: Option<usize>)
    ensures
        ({
            let t = targets@.map_values(|x: (RegistrationKind, String)| (x.0, x.1@));
            let a = reply_address(*reply);
            match spec_reply_target(t, a.0, a.1) {
                Some(i) => r == Some(i as usize),
                None => r is None,
            }
        }),
{
    let ghost t = targets@.map_values(|x: (RegistrationKind, String)| (x.0, x.1@));
    let (kind, name) = match reply {
        ReplyMessage::Service { service_name, .. } => (RegistrationKind::Service, service_name.as_str()),
        ReplyMessage::Action { action_name, .. } => (RegistrationKind::Action, action_name.as_str()),
    };
    let mut i: usize = 0;
    while i < targets.len()
        invariant
            i <= targets@.len(),
            t == targets@.map_values(|x: (RegistrationKind, String)| (x.0, x.1@)),
            spec_reply_target(t.subrange(0, i as int), kind, name@) is None,
            (kind, name@) == reply_address(*reply),
        decreases targets@.len() - i,
    {
        let ghost sub = t.subrange(0, i + 1);
        proof {
            assert(sub.drop_last() =~= t.subrange(0, i as int));
            assert(sub.last() == t[i as int]);
        }
        if targets[i].0 == kind && str_eq(targets[i].1.as_str(), name) {
            proof {
                lemma_reply_target_prefix(t, kind, name@, i as int + 1, i as int);
            }
            return Some(i);
        }
        i = i + 1;
    }
    proof {
        assert(t.subrange(0, t.len() as int) =~= t);
    }
    None
}

proof fn lemma_reply_target_prefix(t: Seq<(RegistrationKind, Seq<char>)>, kind: RegistrationKind, name: Seq<char>, k: int, j: int)
    requires
        0 <= k <= t.len(),
        spec_reply_target(t.subrange(0, k), kind, name) == Some(j),
    ensures
        spec_reply_target(t, kind, name) == Some(j),
    decreases t.len() - k,
{
    if k < t.len() {
        let s = t.subrange(0, k + 1);
        assert(s.drop_last() =~= t.subrange(0, k));
        assert(spec_reply_target(s, kind, name) == Some(j));
        lemma_reply_target_prefix(t, kind, name, k + 1, j);
    } else {
        assert(t.subrange(0, k) =~= t);
    }
}

/// A worker sends a heartbeat once a full interval passed since the last one.
pub fn heartbeat_due(elapsed_ms: u128, interval_ms: u128) -> (r: bool)
    ensures
        r == (elapsed_ms >= interval_ms),
{
    elapsed_ms >= interval_ms
}

/// What the worker of a service reads of a request a client sent: the
/// client's `[service, request_id, body]`, delivered with the client's
/// address in front, is a request for that service.
pub proof fn law_service_request_roundtrip(client: Seq<u8>, service: Seq<char>, request_id: Seq<u8>, body: Seq<u8>)
    ensures
        spec_is_service_request(seq![client, utf8(service), request_id, body], service),
{
    lemma_lossy_of_utf8(service);
    let f = seq![client, utf8(service), request_id, body];
    assert(f[1] == utf8(service));
}

/// What the worker of an action reads of the goal a client sent: a client's
/// `[action, goal_id, GOAL, body]`, delivered with the client's address in
/// front, is a new goal with that id and body, for that client.
pub proof fn law_goal_roundtrip(client: Seq<u8>, action: Seq<char>, goal_id: Seq<char>, body: Seq<u8>)
    ensures
        spec_action_dispatch(seq![client, utf8(action), utf8(goal_id), utf8("GOAL"@), body], action)
            == (ActionDispatchView::Goal { client_id: client, goal_id: utf8(goal_id), goal_key: goal_id, body }),
{
    reveal_strlit("GOAL");
    reveal_strlit("CANCEL");
    lemma_lossy_of_utf8(action);
    lemma_lossy_of_utf8(goal_id);
    lemma_lossy_of_utf8("GOAL"@);
    let f = seq![client, utf8(action), utf8(goal_id), utf8("GOAL"@), body];
    assert(f[1] == utf8(action) && f[2] == utf8(goal_id) && f[3] == utf8("GOAL"@));
    assert("GOAL"@ != "CANCEL"@) by {
        assert("GOAL"@.len() != "CANCEL"@.len());
    }
}

/// What the worker of an action reads of a cancel a client sent.
pub proof fn law_cancel_roundtrip(client: Seq<u8>, action: Seq<char>, goal_id: Seq<char>, body: Seq<u8>)
    ensures
        spec_action_dispatch(seq![client, utf8(action), utf8(goal_id), utf8("CANCEL"@), body], action)
            == (ActionDispatchView::Cancel { goal_id }),
{
    lemma_lossy_of_utf8(action);
    lemma_lossy_of_utf8(goal_id);
    lemma_lossy_of_utf8("CANCEL"@);
    let f = seq![client, utf8(action), utf8(goal_id), utf8("CANCEL"@), body];
    assert(f[1] == utf8(action) && f[2] == utf8(goal_id) && f[3] == utf8("CANCEL"@));
}

/// A worker never takes a message meant for another action.
pub proof fn law_other_action_ignored(frames: Seq<Seq<u8>>, action: Seq<char>)
    requires
        frames.len() == 5,
        utf8_lossy(frames[1]) != action,
    ensures
        spec_action_dispatch(frames, action) == ActionDispatchView::Ignored,
{
}

/// What a client reads of a worker's reply: the worker's
/// `[client, action, goal_id, kind, body]` reaches the client without its
/// address, and reads back as a message of that action, goal, kind and body.
pub proof fn law_reply_roundtrip(action: Seq<char>, goal_id: Seq<char>, kind: ActionKind, body: Seq<u8>)
    ensures
        ({
            let word = match kind {
                ActionKind::Goal => "GOAL"@,
                ActionKind::Feedback => "FEEDBACK"@,
                ActionKind::Result => "RESULT"@,
                ActionKind::Cancel => "CANCEL"@,
            };
            &&& utf8_lossy(utf8(action)) == action
            &&& utf8_lossy(utf8(goal_id)) == goal_id
            &&& spec_kind_from_wire(utf8_lossy(utf8(word))) == Some(kind)
        }),
{
    reveal_strlit("GOAL");
    reveal_strlit("FEEDBACK");
    reveal_strlit("RESULT");
    reveal_strlit("CANCEL");
    lemma_lossy_of_utf8(action);
    lemma_lossy_of_utf8(goal_id);
    lemma_lossy_of_utf8("GOAL"@);
    lemma_lossy_of_utf8("FEEDBACK"@);
    lemma_lossy_of_utf8("RESULT"@);
    lemma_lossy_of_utf8("CANCEL"@);
    assert("GOAL"@ != "FEEDBACK"@ && "GOAL"@ != "RESULT"@ && "GOAL"@ != "CANCEL"@);
    assert("FEEDBACK"@ != "RESULT"@ && "FEEDBACK"@ != "CANCEL"@);
    assert("RESULT"@ != "CANCEL"@) by {
        assert("RESULT"@[0] != "CANCEL"@[0]);
    }
}

} // verus!
