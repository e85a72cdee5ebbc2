//! Handles of a node's services, action servers and action goals.
//!
//! A goal handle keeps the messages seen for its goal; waiting for the result
//! is driven one received event at a time by the caller (who owns the
//! channel from the goal's socket thread).
use vstd::prelude::*;
use std::marker::PhantomData;
use crate::bridge::{debug_str, str_debug};
use crate::dispatch::{ActionMessage, ActionMessageView};
use crate::errors::{BusError, ErrorView};
use crate::goal_table::GoalTable;
use crate::rpc_status::{pb_action_kind, spec_pb_kind, ActionKind};
use crate::text::signed_decimal;
use crate::text::{concat2, str_eq};

verus! {

/// Service server handle returned by a node's `create_service`.
#[derive(Debug)]
pub struct NodeService {
    pub(crate) id: u64,
    pub(crate) service_name: String,
}

impl NodeService {
    pub closed spec fn spec_id(&self) -> u64 {
        self.id
    }

    pub closed spec fn spec_service_name(&self) -> Seq<char> {
        self.service_name@
    }

    /// Handle of service `service_name` registered under `id`.
    pub fn new(id: u64, service_name: String) -> (s: Self)
        ensures
            s.spec_id() == id,
            s.spec_service_name() == service_name@,
    {
        NodeService { id, service_name }
    }

    pub fn id(&self) -> (r: u64)
        ensures
            r == self.spec_id(),
    {
        self.id
    }

    pub fn service_name(&self) -> (r: &str)
        ensures
            r@ == self.spec_service_name(),
    {
        self.service_name.as_str()
    }
}

/// Action server handle returned by a node's `create_action_server`.
#[derive(Debug)]
pub struct NodeActionServer {
    pub(crate) id: u64,
    pub(crate) action_name: String,
}

impl NodeActionServer {
    pub closed spec fn spec_id(&self) -> u64 {
        self.id
    }

    pub closed spec fn spec_action_name(&self) -> Seq<char> {
        self.action_name@
    }

    /// Handle of action `action_name` registered under `id`.
    pub fn new(id: u64, action_name: String) -> (s: Self)
        ensures
            s.spec_id() == id,
            s.spec_action_name() == action_name@,
    {
        NodeActionServer { id, action_name }
    }

    pub fn id(&self) -> (r: u64)
        ensures
            r == self.spec_id(),
    {
        self.id
    }

    pub fn action_name(&self) -> (r: &str)
        ensures
            r@ == self.spec_action_name(),
    {
        self.action_name.as_str()
    }
}

/// Command to a goal's socket thread.
pub enum GoalCommand {
    /// Cancel the goal, with an opaque payload.
    Cancel(Vec<u8>),
}

/// Outcome of one step of waiting for a goal's result.
pub enum WaitStep {
    /// The result arrived.
    Done(ActionMessage),
    /// Another message arrived; keep waiting.
    Pending,
    /// Waiting failed.
    Failed(BusError),
}

/// Outcome of one step of collecting a goal's messages.
pub enum CollectStep {
    /// The result arrived: every message of the goal.
    Done(Vec<ActionMessage>),
    /// Keep waiting.
    Pending,
    /// Waiting failed.
    Failed(BusError),
}

/// Index of the first `RESULT` among `ms`, if any.
pub open spec fn first_result(ms: Seq<ActionMessageView>) -> Option<int>
    decreases ms.len(),
{
    if ms.len() == 0 {
        None
    } else {
        match first_result(ms.drop_last()) {
            Some(i) => Some(i),
            None => if ms.last().kind == ActionKind::Result {
                Some(ms.len() - 1)
            } else {
                None
            },
        }
    }
}

/// Message of a goal whose event stream ended before its result.
pub open spec fn ended_without_result(action_name: Seq<char>, goal_id: Seq<char>) -> Seq<char> {
    "action '"@ + action_name + "' goal '"@ + goal_id + "' ended without RESULT"@
}

/// Message of a goal handed a message of another action or goal.
pub open spec fn unexpected_message(m: ActionMessageView) -> Seq<char> {
    "unexpected message for "@ + str_debug(m.action_name) + "/"@ + str_debug(m.goal_id)
}

/// Live handle for one raw (opaque bytes) action goal.
pub struct RawGoalHandle {
    action_name: String,
    goal_id: String,
    messages: Vec<ActionMessage>,
    completed: bool,
}

/// Spec view of a goal handle.
pub struct RawGoalView {
    pub action_name: Seq<char>,
    pub goal_id: Seq<char>,
    pub messages: Seq<ActionMessageView>,
    pub completed: bool,
}

/// A goal handle's invariant: it holds only messages of its own goal, in
/// arrival order, none after the first `RESULT`, and it is completed exactly
/// when its last message is a `RESULT`.
pub open spec fn goal_view_wf(v: RawGoalView) -> bool {
    &&& forall|i: int| 0 <= i < v.messages.len() ==> (#[trigger] v.messages[i]).action_name == v.action_name
        && v.messages[i].goal_id == v.goal_id
    &&& forall|i: int| 0 <= i < v.messages.len() - 1 ==> (#[trigger] v.messages[i]).kind != ActionKind::Result
    &&& v.completed == (v.messages.len() > 0 && v.messages.last().kind == ActionKind::Result)
}

/// Under the invariant, the first `RESULT` is the last message of a completed goal.
pub proof fn lemma_goal_first_result(v: RawGoalView)
    requires
        goal_view_wf(v),
    ensures
        v.completed ==> first_result(v.messages) == Some(v.messages.len() - 1),
        !v.completed ==> first_result(v.messages) is None,
{
    lemma_no_result_before(v.messages, if v.completed { v.messages.len() - 1 } else { v.messages.len() as int });
    if v.completed {
        let ms = v.messages;
        assert(ms.subrange(0, ms.len() - 1) =~= ms.drop_last());
        assert(ms.drop_last().push(ms.last()) =~= ms);
        law_goal_result_is_first_result(ms.drop_last(), ms.last());
    } else {
        assert(v.messages.subrange(0, v.messages.len() as int) =~= v.messages);
    }
}

proof fn lemma_no_result_before(ms: Seq<ActionMessageView>, k: int)
    requires
        0 <= k <= ms.len(),
        forall|i: int| 0 <= i < k ==> (#[trigger] ms[i]).kind != ActionKind::Result,
    ensures
        first_result(ms.subrange(0, k)) is None,
    decreases k,
{
    if k > 0 {
        let s = ms.subrange(0, k);
        assert(s.drop_last() =~= ms.subrange(0, k - 1));
        lemma_no_result_before(ms, k - 1);
        assert(s.last() == ms[k - 1]);
    }
}

impl View for RawGoalHandle {
    type V = RawGoalView;

    closed spec fn view(&self) -> RawGoalView {
        RawGoalView {
            action_name: self.action_name@,
            goal_id: self.goal_id@,
            messages: self.messages@.map_values(|m: ActionMessage| m@),
            completed: self.completed,
        }
    }
}

impl RawGoalHandle {
    /// Handle of a goal just accepted under `goal_id`.
    pub fn new(action_name: String, goal_id: String) -> (h: Self)
        ensures
            h@ == (RawGoalView {
                action_name: action_name@,
                goal_id: goal_id@,
                messages: Seq::empty(),
                completed: false,
            }),
            goal_view_wf(h@),
    {
        let h = RawGoalHandle { action_name, goal_id, messages: Vec::new(), completed: false };
        assert(h@.messages =~= Seq::<ActionMessageView>::empty());
        h
    }

    pub fn goal_id(&self) -> (r: &str)
        ensures
            r@ == self@.goal_id,
    {
        self.goal_id.as_str()
    }

    pub fn action_name(&self) -> (r: &str)
        ensures
            r@ == self@.action_name,
    {
        self.action_name.as_str()
    }

    /// The first result already received, if any.
    pub fn cached_result(&self) -> (r: Option<ActionMessage>)
        ensures
            match first_result(self@.messages) {
                Some(i) => (r matches Some(m) && m@ == self@.messages[i]),
                None => r is None,
            },
    {
        let ghost ms = self@.messages;
        let mut i: usize = 0;
        while i < self.messages.len()
            invariant
                i <= self.messages@.len(),
                ms == self@.messages,
                ms.len() == self.messages@.len(),
                first_result(ms.subrange(0, i as int)) is None,
            decreases self.messages@.len() - i,
        {
            proof {
                let sub = ms.subrange(0, i + 1);
                assert(sub.drop_last() =~= ms.subrange(0, i as int));
                assert(sub.last() == self.messages@[i as int]@);
            }
            if self.messages[i].kind == ActionKind::Result {
                proof {
                    lemma_first_result_prefix(ms, i as int + 1, i as int);
                }
                return Some(self.messages[i].duplicate());
            }
            i = i + 1;
        }
        proof {
            assert(ms.subrange(0, ms.len() as int) =~= ms);
        }
        None
    }

    /// Whether waiting for the result still needs an event from the goal's
    /// channel (no `RESULT` yet).
    pub fn needs_event(&self) -> (r: bool)
        ensures
            r == !self@.completed,
    {
        !self.completed
    }

    /// One step of waiting for the result. A completed goal answers its
    /// cached `RESULT` and ignores `event` (none is to be taken from the
    /// channel). Otherwise `event` is what the goal's channel delivered
    /// (`None`: it closed): a message of this goal is kept and a `RESULT`
    /// completes the goal; a message of another goal, an error or a closed
    /// channel fails the wait and changes nothing.
    pub fn wait_result(&mut self, event: Option<Result<ActionMessage, BusError>>) -> (r: WaitStep)
        requires
            goal_view_wf(old(self)@),
        ensures
            goal_view_wf(final(self)@),
            final(self)@.action_name == old(self)@.action_name,
            final(self)@.goal_id == old(self)@.goal_id,
            old(self)@.completed ==> (r matches WaitStep::Done(x) && x@ == old(self)@.messages.last())
                && final(self)@ == old(self)@,
            !old(self)@.completed ==> match event {
                None => (r matches WaitStep::Failed(e) && e@ == ErrorView::Protocol(
                    ended_without_result(old(self)@.action_name, old(self)@.goal_id),
                )) && final(self)@ == old(self)@,
                Some(Err(e)) => (r matches WaitStep::Failed(x) && x@ == e@) && final(self)@ == old(self)@,
                Some(Ok(m)) => if m.action_name@ != old(self)@.action_name || m.goal_id@ != old(self)@.goal_id {
                    (r matches WaitStep::Failed(e) && e@ == ErrorView::Protocol(unexpected_message(m@)))
                        && final(self)@ == old(self)@
                } else {
                    &&& final(self)@.messages == old(self)@.messages.push(m@)
                    &&& final(self)@.completed == (m.kind == ActionKind::Result)
                    &&& m.kind == ActionKind::Result ==> (r matches WaitStep::Done(x) && x@ == m@)
                    &&& m.kind != ActionKind::Result ==> r is Pending
                },
            },
    {
        if self.completed {
            let n = self.messages.len();
            return WaitStep::Done(self.messages[n - 1].duplicate());
        }
        match event {
            None => {
                let mut text = concat2("action '", self.action_name.as_str());
                text.append("' goal '");
                text.append(self.goal_id.as_str());
                text.append("' ended without RESULT");
                WaitStep::Failed(BusError::Protocol(text))
            },
            Some(Err(e)) => WaitStep::Failed(e),
            Some(Ok(m)) => {
                if !str_eq(m.action_name.as_str(), self.action_name.as_str()) || !str_eq(
                    m.goal_id.as_str(),
                    self.goal_id.as_str(),
                ) {
                    let mut text = concat2("unexpected message for ", debug_str(m.action_name.as_str()).as_str());
                    text.append("/");
                    text.append(debug_str(m.goal_id.as_str()).as_str());
                    return WaitStep::Failed(BusError::Protocol(text));
                }
                let done = m.kind == ActionKind::Result;
                let copy = m.duplicate();
                let ghost before = self@;
                self.messages.push(m);
                if done {
                    self.completed = true;
                }
                proof {
                    assert(self@.messages =~= before.messages.push(copy@));
                    assert forall|i: int| 0 <= i < self@.messages.len() - 1 implies (#[trigger] self@.messages[i]).kind
                        != ActionKind::Result by {
                        assert(self@.messages[i] == before.messages[i]);
                        if i == before.messages.len() - 1 {
                            assert(!before.completed);
                        }
                    }
                }
                if done {
                    WaitStep::Done(copy)
                } else {
                    WaitStep::Pending
                }
            },
        }
    }

    /// Every message of the goal, once its result arrived: in arrival order,
    /// ending with the one `RESULT`; `None` before that.
    pub fn collect(&self) -> (r: Option<Vec<ActionMessage>>)
        requires
            goal_view_wf(self@),
        ensures
            !self@.completed ==> r is None,
            self@.completed ==> (r matches Some(v) && v@.map_values(|m: ActionMessage| m@) == self@.messages
                && v@.len() > 0 && v@.last().kind == ActionKind::Result
                && (forall|i: int| 0 <= i < v@.len() - 1 ==> (#[trigger] v@[i]).kind != ActionKind::Result)
                && (forall|i: int| 0 <= i < v@.len() ==> (#[trigger] v@[i]).goal_id@ == self@.goal_id
                    && v@[i].action_name@ == self@.action_name)),
    {
        if !self.completed {
            return None;
        }
        let mut out: Vec<ActionMessage> = Vec::new();
        let mut i: usize = 0;
        while i < self.messages.len()
            invariant
                i <= self.messages@.len(),
                out@.map_values(|m: ActionMessage| m@) == self@.messages.subrange(0, i as int),
            decreases self.messages@.len() - i,
        {
            let ghost before = out@;
            let d = self.messages[i].duplicate();
            out.push(d);
            proof {
                assert(self@.messages[i as int] == self.messages@[i as int]@);
                assert(out@.map_values(|m: ActionMessage| m@) =~= before.map_values(|m: ActionMessage| m@).push(d@));
                assert(out@.map_values(|m: ActionMessage| m@) =~= self@.messages.subrange(0, i + 1));
            }
            i = i + 1;
        }
        proof {
            let outv = out@.map_values(|m: ActionMessage| m@);
            assert(self@.messages.subrange(0, self@.messages.len() as int) =~= self@.messages);
            assert forall|k: int| 0 <= k < out@.len() implies (#[trigger] out@[k])@ == self@.messages[k] by {
                assert(outv[k] == out@[k]@);
            }
        }
        Some(out)
    }

    /// One step of collecting the goal's messages: the messages once the
    /// result is in, or how the wait for it went (see [`wait_result`](Self::wait_result)).
    pub fn collect_step(&mut self, event: Option<Result<ActionMessage, BusError>>) -> (r: CollectStep)
        requires
            goal_view_wf(old(self)@),
        ensures
            goal_view_wf(final(self)@),
            final(self)@.action_name == old(self)@.action_name,
            final(self)@.goal_id == old(self)@.goal_id,
            final(self)@.completed ==> (r matches CollectStep::Done(v) && v@.map_values(|m: ActionMessage| m@)
                == final(self)@.messages),
            old(self)@.completed ==> final(self)@ == old(self)@,
            !old(self)@.completed ==> match event {
                None => (r matches CollectStep::Failed(e) && e@ == ErrorView::Protocol(
                    ended_without_result(old(self)@.action_name, old(self)@.goal_id),
                )) && final(self)@ == old(self)@,
                Some(Err(e)) => (r matches CollectStep::Failed(x) && x@ == e@) && final(self)@ == old(self)@,
                Some(Ok(m)) => if m.action_name@ != old(self)@.action_name || m.goal_id@ != old(self)@.goal_id {
                    (r matches CollectStep::Failed(e) && e@ == ErrorView::Protocol(unexpected_message(m@)))
                        && final(self)@ == old(self)@
                } else {
                    &&& final(self)@.messages == old(self)@.messages.push(m@)
                    &&& final(self)@.completed == (m.kind == ActionKind::Result)
                    &&& m.kind != ActionKind::Result ==> r is Pending
                },
            },
    {
        match self.wait_result(event) {
            WaitStep::Done(_) => match self.collect() {
                Some(v) => CollectStep::Done(v),
                None => CollectStep::Pending,
            },
            WaitStep::Pending => CollectStep::Pending,
            WaitStep::Failed(e) => CollectStep::Failed(e),
        }
    }

    /// Best-effort cancellation (empty payload). This does not wait for server acknowledgement.
    pub fn cancel(&self) -> (c: GoalCommand)
        ensures
            c matches GoalCommand::Cancel(b) && b@ == Seq::<u8>::empty(),
    {
        GoalCommand::Cancel(Vec::new())
    }

    /// Best-effort cancellation with an opaque cancel payload.
    pub fn cancel_with_body(&self, body: &[u8]) -> (c: GoalCommand)
        ensures
            c matches GoalCommand::Cancel(b) && b@ == body@,
    {
        GoalCommand::Cancel(vstd::slice::slice_to_vec(body))
    }

    /// Whether the goal completed; a handle dropped before completion cancels its goal.
    pub fn is_completed(&self) -> (r: bool)
        ensures
            r == self@.completed,
    {
        self.completed
    }
}

impl Clone for RawGoalHandle {
    /// A handle on the same goal, with what this one received so far.
    fn clone(&self) -> (r: Self)
        ensures
            r@ == self@,
    {
        let mut messages: Vec<ActionMessage> = Vec::new();
        let mut i: usize = 0;
        while i < self.messages.len()
            invariant
                i <= self.messages@.len(),
                messages@.map_values(|m: ActionMessage| m@) == self@.messages.subrange(0, i as int),
            decreases self.messages@.len() - i,
        {
            let ghost before = messages@;
            let d = self.messages[i].duplicate();
            messages.push(d);
            proof {
                assert(self@.messages[i as int] == self.messages@[i as int]@);
                assert(messages@.map_values(|m: ActionMessage| m@) =~= before.map_values(|m: ActionMessage| m@).push(
                    d@,
                ));
                assert(messages@.map_values(|m: ActionMessage| m@) =~= self@.messages.subrange(0, i + 1));
            }
            i = i + 1;
        }
        assert(self@.messages.subrange(0, self@.messages.len() as int) =~= self@.messages);
        RawGoalHandle {
            action_name: self.action_name.clone(),
            goal_id: self.goal_id.clone(),
            messages,
            completed: self.completed,
        }
    }
}

proof fn lemma_first_result_prefix(ms: Seq<ActionMessageView>, k: int, j: int)
    requires
        0 <= k <= ms.len(),
        first_result(ms.subrange(0, k)) == Some(j),
    ensures
        first_result(ms) == Some(j),
    decreases ms.len() - k,
{
    if k < ms.len() {
        let s = ms.subrange(0, k + 1);
        assert(s.drop_last() =~= ms.subrange(0, k));
        assert(first_result(s) == Some(j));
        lemma_first_result_prefix(ms, k + 1, j);
    } else {
        assert(ms.subrange(0, k) =~= ms);
    }
}

/// Live handle for one typed action goal (results decoded by the caller).
pub struct GoalHandle<A> {
    inner: RawGoalHandle,
    marker: PhantomData<A>,
}

impl<A> GoalHandle<A> {
    /// A typed view of a raw goal handle.
    pub fn from_raw(inner: RawGoalHandle) -> (h: Self)
        ensures
            h.raw()@ == inner@,
    {
        GoalHandle { inner, marker: PhantomData }
    }

    pub closed spec fn raw(&self) -> RawGoalHandle {
        self.inner
    }

    pub fn goal_id(&self) -> (r: &str)
        ensures
            r@ == self.raw()@.goal_id,
    {
        self.inner.goal_id()
    }

    pub fn action_name(&self) -> (r: &str)
        ensures
            r@ == self.raw()@.action_name,
    {
        self.inner.action_name()
    }

    /// One step of waiting for the result; see [`RawGoalHandle::wait_result`].
    pub fn wait_result(&mut self, event: Option<Result<ActionMessage, BusError>>) -> (r: WaitStep)
        requires
            goal_view_wf(old(self).raw()@),
        ensures
            goal_view_wf(final(self).raw()@),
            final(self).raw()@.action_name == old(self).raw()@.action_name,
            final(self).raw()@.goal_id == old(self).raw()@.goal_id,
            old(self).raw()@.completed ==> (r matches WaitStep::Done(x) && x@ == old(self).raw()@.messages.last())
                && final(self).raw()@ == old(self).raw()@,
            !old(self).raw()@.completed ==> match event {
                None => (r matches WaitStep::Failed(e) && e@ == ErrorView::Protocol(
                    ended_without_result(old(self).raw()@.action_name, old(self).raw()@.goal_id),
                )) && final(self).raw()@ == old(self).raw()@,
                Some(Err(e)) => (r matches WaitStep::Failed(x) && x@ == e@) && final(self).raw()@ == old(
                    self,
                ).raw()@,
                Some(Ok(m)) => if m.action_name@ != old(self).raw()@.action_name || m.goal_id@ != old(
                    self,
                ).raw()@.goal_id {
                    (r matches WaitStep::Failed(e) && e@ == ErrorView::Protocol(unexpected_message(m@)))
                        && final(self).raw()@ == old(self).raw()@
                } else {
                    &&& final(self).raw()@.messages == old(self).raw()@.messages.push(m@)
                    &&& final(self).raw()@.completed == (m.kind == ActionKind::Result)
                    &&& m.kind == ActionKind::Result ==> (r matches WaitStep::Done(x) && x@ == m@)
                    &&& m.kind != ActionKind::Result ==> r is Pending
                },
            },
    {
        self.inner.wait_result(event)
    }

    /// The error for a result body that does not decode as the action's result type.
    pub fn result_decode_error(&self, reason: &str) -> (e: BusError)
        ensures
            e@ == ErrorView::Protocol(
                "action '"@ + self.raw()@.action_name + "' result decode failed: "@ + reason@,
            ),
    {
        let mut text = concat2("action '", self.inner.action_name());
        text.append("' result decode failed: ");
        text.append(reason);
        BusError::Protocol(text)
    }

    /// Best-effort cancellation.
    pub fn cancel(&self) -> (c: GoalCommand)
        ensures
            c matches GoalCommand::Cancel(b) && b@ == Seq::<u8>::empty(),
    {
        self.inner.cancel()
    }
}

impl<A> Clone for GoalHandle<A> {
    /// A handle on the same goal, with what this one received so far.
    fn clone(&self) -> (r: Self)
        ensures
            r.raw()@ == self.raw()@,
    {
        GoalHandle { inner: self.inner.clone(), marker: PhantomData }
    }
}

/// Hand a message received by a runtime's action client to the callback of
/// its goal (`f` gets that callback and the message); a `RESULT` then drops
/// the goal's callback. Whether a callback was there.
pub fn deliver_to_goal<C, H>(goals: &mut GoalTable<C>, message: ActionMessage, f: H) -> (delivered: bool)
    where
        H: Fn(&C, &ActionMessage),
    requires
        old(goals).wf(),
        forall|c: &C, m: &ActionMessage| f.requires((c, m)),
    ensures
        final(goals).wf(),
        delivered == old(goals).map().contains_key(message.goal_id@),
        delivered ==> f.ensures((&old(goals).map()[message.goal_id@], &message), ()),
        final(goals).map() == if message.kind == ActionKind::Result {
            old(goals).map().remove(message.goal_id@)
        } else {
            old(goals).map()
        },
{
    let delivered = match goals.get(message.goal_id.as_str()) {
        Some(callback) => {
            f(callback, &message);
            true
        },
        None => false,
    };
    if message.kind == ActionKind::Result {
        let _ = goals.remove(message.goal_id.as_str());
    }
    delivered
}

/// Longest wait of the goal thread's socket poll, in milliseconds.
pub const GOAL_POLL_MS: u128 = 20;

/// Poll wait of the goal thread for the time left before its deadline.
pub open spec fn spec_goal_poll_ms(remaining_ms: Option<u128>) -> u128 {
    match remaining_ms {
        Some(ms) => if ms < GOAL_POLL_MS { ms } else { GOAL_POLL_MS },
        None => GOAL_POLL_MS,
    }
}

/// Poll wait of the goal thread: 20 ms, or less when the deadline is closer.
pub fn goal_poll_ms(remaining_ms: Option<u128>) -> (r: u128)
    ensures
        r == spec_goal_poll_ms(remaining_ms),
{
    match remaining_ms {
        Some(ms) => if ms < GOAL_POLL_MS { ms } else { GOAL_POLL_MS },
        None => GOAL_POLL_MS,
    }
}

/// What the goal thread does with a message received on its socket.
pub enum GoalEvent {
    /// Pass it on; `feedback` also goes to the feedback callback, `done` ends the thread.
    Forward { message: ActionMessage, feedback: bool, done: bool },
    /// A message for another action or goal: fail the goal.
    Unexpected(BusError),
}

/// Classify a message received for the goal `goal_id` of `action_name`.
pub fn classify_goal_message(action_name: &str, goal_id: &str, message: ActionMessage) -> (r: GoalEvent)
    ensures
        (message.action_name@ != action_name@ || message.goal_id@ != goal_id@) ==> (r matches GoalEvent::Unexpected(e)
            && e@ == ErrorView::Protocol(
            "unexpected message for "@ + str_debug(message.action_name@) + "/"@ + str_debug(message.goal_id@),
        )),
        (message.action_name@ == action_name@ && message.goal_id@ == goal_id@) ==> (r matches GoalEvent::Forward {
            message: m,
            feedback,
            done,
        } && m@ == message@ && feedback == (message.kind == ActionKind::Feedback) && done == (message.kind
            == ActionKind::Result)),
{
    if !str_eq(message.action_name.as_str(), action_name) || !str_eq(message.goal_id.as_str(), goal_id) {
        let mut text = concat2("unexpected message for ", debug_str(message.action_name.as_str()).as_str());
        text.append("/");
        text.append(debug_str(message.goal_id.as_str()).as_str());
        return GoalEvent::Unexpected(BusError::Protocol(text));
    }
    let feedback = message.kind == ActionKind::Feedback;
    let done = message.kind == ActionKind::Result;
    GoalEvent::Forward { message, feedback, done }
}

/// What a goal's socket thread does next.
pub enum GoalThreadStep {
    /// Send a cancel of the goal with this payload.
    SendCancel(Vec<u8>),
    /// The deadline passed: send an empty cancel and fail the goal with a timeout.
    TimedOut,
    /// Wait up to this many milliseconds for a message.
    Poll(u128),
    /// Pass the message on; `feedback` also goes to the feedback callback, `done` ends the thread.
    Deliver { message: ActionMessage, feedback: bool, done: bool },
    /// Fail the goal with this error and end the thread.
    Fail(BusError),
}

/// One decision of the socket thread of goal `goal_id` of `action_name`, given
/// a command from the handle (taken first), the time left before the
/// deadline (`None`: no deadline), and what the last poll received (`None`:
/// nothing polled yet). A receive timeout polls again; any other receive
/// error, or a message of another action or goal, fails the goal.
pub fn goal_thread_step(
    action_name: &str,
    goal_id: &str,
    command: Option<GoalCommand>,
    remaining_ms: Option<u128>,
    received: Option<Result<ActionMessage, BusError>>,
) -> (s: GoalThreadStep)
    ensures
        command matches Some(GoalCommand::Cancel(b)) ==> (s matches GoalThreadStep::SendCancel(x) && x@ == b@),
        command is None && remaining_ms == Some(0u128) ==> s is TimedOut,
        command is None && remaining_ms != Some(0u128) ==> match received {
            None => s matches GoalThreadStep::Poll(ms) && ms == spec_goal_poll_ms(remaining_ms),
            Some(Ok(m)) => if m.action_name@ != action_name@ || m.goal_id@ != goal_id@ {
                s matches GoalThreadStep::Fail(e) && e@ == ErrorView::Protocol(
                    "unexpected message for "@ + str_debug(m.action_name@) + "/"@ + str_debug(m.goal_id@),
                )
            } else {
                s matches GoalThreadStep::Deliver { message, feedback, done } && message@ == m@ && feedback
                    == (m.kind == ActionKind::Feedback) && done == (m.kind == ActionKind::Result)
            },
            Some(Err(e)) => if e@ is Timeout {
                s matches GoalThreadStep::Poll(ms) && ms == spec_goal_poll_ms(remaining_ms)
            } else {
                s matches GoalThreadStep::Fail(x) && x@ == e@
            },
        },
{
    if let Some(GoalCommand::Cancel(b)) = command {
        return GoalThreadStep::SendCancel(b);
    }
    if let Some(0u128) = remaining_ms {
        return GoalThreadStep::TimedOut;
    }
    match received {
        None => GoalThreadStep::Poll(goal_poll_ms(remaining_ms)),
        Some(Ok(m)) => match classify_goal_message(action_name, goal_id, m) {
            GoalEvent::Unexpected(e) => GoalThreadStep::Fail(e),
            GoalEvent::Forward { message, feedback, done } => GoalThreadStep::Deliver { message, feedback, done },
        },
        Some(Err(e)) => match e {
            BusError::Timeout(_) => GoalThreadStep::Poll(goal_poll_ms(remaining_ms)),
            other => GoalThreadStep::Fail(other),
        },
    }
}

/// Turn one event of a gRPC goal stream into the goal's message; `Forward`
/// flags feedback and the final result, an unknown kind fails the goal.
pub fn grpc_goal_event(action_name: String, goal_id: String, kind: i32, body: Vec<u8>) -> (r: GoalEvent)
    ensures
        spec_pb_kind(kind) is None ==> (r matches GoalEvent::Unexpected(e) && e@ == ErrorView::Protocol(
            "unknown gRPC action kind: "@ + signed_decimal(kind as int),
        )),
        spec_pb_kind(kind) matches Some(k) ==> (r matches GoalEvent::Forward { message, feedback, done }
            && message.action_name@ == action_name@ && message.goal_id@ == goal_id@ && message.kind == k
            && message.body@ == body@ && feedback == (k == ActionKind::Feedback) && done == (k
            == ActionKind::Result)),
{
    match pb_action_kind(kind, "unknown gRPC action kind: ") {
        Err(e) => GoalEvent::Unexpected(e),
        Ok(k) => {
            let feedback = k == ActionKind::Feedback;
            let done = k == ActionKind::Result;
            GoalEvent::Forward { message: ActionMessage { action_name, goal_id, kind: k, body }, feedback, done }
        },
    }
}

/// The error of a gRPC goal stream that ended before its result.
pub fn grpc_stream_ended(action_name: &str) -> (e: BusError)
    ensures
        e@ == ErrorView::Protocol("action '"@ + action_name@ + "' completed without RESULT"@),
{
    let mut text = concat2("action '", action_name);
    text.append("' completed without RESULT");
    BusError::Protocol(text)
}

/// A goal's handle gives back, as its result, exactly the first `RESULT`
/// delivered for it, and every message delivered before it stays in order.
pub proof fn law_goal_result_is_first_result(before: Seq<ActionMessageView>, m: ActionMessageView)
    requires
        first_result(before) is None,
        m.kind == ActionKind::Result,
    ensures
        first_result(before.push(m)) == Some(before.len() as int),
        before.push(m).subrange(0, before.len() as int) == before,
{
    assert(before.push(m).drop_last() =~= before);
    assert(before.push(m).subrange(0, before.len() as int) =~= before);
}

} // verus!
