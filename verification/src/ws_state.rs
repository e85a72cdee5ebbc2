//! Subscriptions and timers of a node in WebSocket RPC mode.
//!
//! One gateway stream serves each subscribed topic; several callbacks may
//! share it. This module keeps the table of callbacks, the topics with an
//! open stream (and the KeepLast depth they were opened with), the stream ids
//! to cancel, and the timers. The caller opens and cancels the streams.
use vstd::prelude::*;
use crate::callback_group::SubscriptionCallback;
use crate::errors::{BusError, ErrorView};
use crate::goal_table::lemma_index_of;
use crate::ordering::SortedEntries;
use crate::qos::{spec_ws_subscribe_queue_capacity, ws_subscribe_queue_capacity};
use crate::text::{concat2, decimal, u64_to_decimal};
use crate::timers::{cancel_timer_by_id, first_timer_with_id, timer_known, SubscriptionHandle, Timer, TimerHandle};
use crate::topic_callbacks::{
    lemma_entry_with_id, lemma_pattern_index, lemma_pattern_with_id, pattern_index, pattern_with_id, patterns_distinct,
    spec_add, spec_remove_subscription, entry_with_id, TopicCallbacks, TopicTable,
};

verus! {

/// Mathematical state of a WebSocket node's subscriptions and timers.
pub struct WsStateView<F, G, C> {
    /// Callbacks by topic.
    pub topics: TopicTable<F, G>,
    /// Topics with a stream, and the KeepLast depth it was requested with.
    pub active: Map<Seq<char>, i32>,
    /// Latest gateway stream id of each topic.
    pub stream_ids: Map<Seq<char>, u32>,
    pub timers: Seq<Timer<C, G>>,
    pub next_timer_id: u64,
    pub next_subscription_id: u64,
}

/// `topic` is a pattern of the table.
pub open spec fn has_pattern<F, G>(t: TopicTable<F, G>, topic: Seq<char>) -> bool {
    exists|i: int| 0 <= i < t.len() && t[i].0 == topic
}

/// The state's invariant: each topic appears once and never without
/// callbacks, a topic has a stream exactly when it has callbacks, and every
/// subscription id is below the next one to hand out.
pub open spec fn ws_state_inv<F, G, C>(s: WsStateView<F, G, C>) -> bool {
    &&& patterns_distinct(s.topics)
    &&& forall|i: int, j: int|
        0 <= i < s.topics.len() && 0 <= j < s.topics[i].1.len() ==> (#[trigger] s.topics[i].1[j]).id < s.next_subscription_id
    &&& forall|i: int| 0 <= i < s.topics.len() ==> (#[trigger] s.topics[i]).1.len() > 0
    &&& forall|k: Seq<char>|
        #![trigger s.active.contains_key(k)]
        #![trigger has_pattern(s.topics, k)]
        s.active.contains_key(k) <==> has_pattern(s.topics, k)
}

/// KeepLast depth of a subscription request (`None`: the server default, 0).
pub open spec fn requested_depth(depth: Option<i32>) -> i32 {
    match depth {
        Some(d) => d,
        None => 0,
    }
}

/// A new subscription asks for another queue size than the stream already
/// open on its topic.
pub open spec fn depth_conflict<F, G, C>(s: WsStateView<F, G, C>, topic: Seq<char>, depth: Option<i32>) -> bool {
    s.active.contains_key(topic) && spec_ws_subscribe_queue_capacity(s.active[topic] as int)
        != spec_ws_subscribe_queue_capacity(requested_depth(depth) as int)
}

/// Subscriptions and timers of a WebSocket RPC node.
pub struct WsState<F, G, C> {
    topics: TopicCallbacks<F, G>,
    active: SortedEntries<i32>,
    stream_ids: SortedEntries<u32>,
    timers: Vec<Timer<C, G>>,
    next_timer_id: u64,
    next_subscription_id: u64,
}

impl<F, G, C> View for WsState<F, G, C> {
    type V = WsStateView<F, G, C>;

    closed spec fn view(&self) -> WsStateView<F, G, C> {
        WsStateView {
            topics: self.topics@,
            active: self.active.map(),
            stream_ids: self.stream_ids.map(),
            timers: self.timers@,
            next_timer_id: self.next_timer_id,
            next_subscription_id: self.next_subscription_id,
        }
    }
}

proof fn lemma_has_pattern<F, G>(t: TopicTable<F, G>, topic: Seq<char>)
    ensures
        has_pattern(t, topic) <==> pattern_index(t, topic) is Some,
{
    lemma_pattern_index(t, topic);
    if let Some(i) = pattern_index(t, topic) {
        assert(t[i].0 == topic);
    }
}

impl<F, G, C> WsState<F, G, C> {
    /// The table invariants.
    pub closed spec fn wf(&self) -> bool {
        &&& self.active.wf()
        &&& self.stream_ids.wf()
        &&& ws_state_inv(self@)
    }

    /// No subscriptions or timers.
    pub fn new() -> (s: Self)
        ensures
            s.wf(),
            s@ == (WsStateView::<F, G, C> {
                topics: Seq::empty(),
                active: Map::empty(),
                stream_ids: Map::empty(),
                timers: Seq::empty(),
                next_timer_id: 1,
                next_subscription_id: 1,
            }),
    {
        let s = WsState {
            topics: TopicCallbacks::new(),
            active: SortedEntries::new(),
            stream_ids: SortedEntries::new(),
            timers: Vec::new(),
            next_timer_id: 1,
            next_subscription_id: 1,
        };
        assert(s@.timers =~= Seq::<Timer<C, G>>::empty());
        s
    }

    /// Subscribe `callback` (identity `key`) to `topic` in `group`, asking
    /// for KeepLast `depth` (`None`: the server default). The first
    /// subscription of a topic opens its stream (`true` in the result); a
    /// later one must ask for the same queue size.
    pub fn subscribe(&mut self, topic: &str, callback: F, key: u64, group: G, depth: Option<i32>) -> (r: Result<
        (SubscriptionHandle, bool),
        BusError,
    >)
        requires
            old(self).wf(),
            old(self)@.next_subscription_id < u64::MAX,
        ensures
            final(self).wf(),
            depth_conflict(old(self)@, topic@, depth) ==> (r matches Err(e) && e@ == ErrorView::Protocol(
                "conflicting KeepLast depth for "@ + topic@,
            ) && final(self)@ == old(self)@),
            !depth_conflict(old(self)@, topic@, depth) ==> (r matches Ok((h, start)) && h@ == old(self)@.next_subscription_id
                && start == !old(self)@.active.contains_key(topic@) && final(self)@ == (WsStateView {
                topics: spec_add(
                    old(self)@.topics,
                    topic@,
                    SubscriptionCallback { id: old(self)@.next_subscription_id, key, callback, group },
                ),
                active: if start {
                    old(self)@.active.insert(topic@, requested_depth(depth))
                } else {
                    old(self)@.active
                },
                next_subscription_id: (old(self)@.next_subscription_id + 1) as u64,
                ..old(self)@
            })),
    {
        let requested: i32 = match depth {
            Some(d) => d,
            None => 0,
        };
        let found = self.active.find(topic);
        if let Some(i) = found {
            let (_, existing) = self.active.at(i);
            proof {
                lemma_index_of(self.active.view_seq(), i as int);
            }
            if ws_subscribe_queue_capacity(*existing) != ws_subscribe_queue_capacity(requested) {
                return Err(BusError::Protocol(concat2("conflicting KeepLast depth for ", topic)));
            }
        }
        let ghost s0 = self@;
        let id = self.next_subscription_id;
        self.next_subscription_id = self.next_subscription_id + 1;
        let entry = SubscriptionCallback { id, key, callback, group };
        proof {
            lemma_has_pattern(s0.topics, topic@);
            lemma_pattern_index(s0.topics, topic@);
        }
        self.topics.add(topic, entry);
        let start = found.is_none();
        if start {
            self.active.insert_new(topic.to_owned(), requested);
        }
        proof {
            let t0 = s0.topics;
            let t1 = self@.topics;
            assert(t1 == spec_add(t0, topic@, entry));
            match pattern_index(t0, topic@) {
                Some(p) => {
                    assert(t1 == t0.update(p, (t0[p].0, t0[p].1.push(entry))));
                    assert forall|k: Seq<char>| has_pattern(t1, k) == has_pattern(t0, k) by {
                        if has_pattern(t0, k) {
                            let i = choose|i: int| 0 <= i < t0.len() && t0[i].0 == k;
                            assert(t1[i].0 == k);
                        }
                        if has_pattern(t1, k) {
                            let i = choose|i: int| 0 <= i < t1.len() && t1[i].0 == k;
                            assert(t0[i].0 == k);
                        }
                    }
                },
                None => {
                    assert(t1 == t0.push((topic@, seq![entry])));
                    assert forall|k: Seq<char>| has_pattern(t1, k) == (has_pattern(t0, k) || k == topic@) by {
                        if has_pattern(t0, k) {
                            let i = choose|i: int| 0 <= i < t0.len() && t0[i].0 == k;
                            assert(t1[i].0 == k);
                        }
                        if k == topic@ {
                            assert(t1[t0.len() as int].0 == k);
                        }
                        if has_pattern(t1, k) {
                            let i = choose|i: int| 0 <= i < t1.len() && t1[i].0 == k;
                            if i < t0.len() {
                                assert(t0[i].0 == k);
                            }
                        }
                    }
                },
            }
        }
        Ok((SubscriptionHandle::from_id(id), start))
    }

    /// Remove a subscription. When its topic has no callback left, the topic
    /// loses its stream: the result is the stream id to cancel, if one was
    /// recorded. An unknown handle is refused.
    pub fn destroy_subscription(&mut self, handle: SubscriptionHandle) -> (r: Result<Option<u32>, BusError>)
        requires
            old(self).wf(),
        ensures
            final(self).wf(),
            pattern_with_id(old(self)@.topics, handle@) is None ==> (r matches Err(e) && e@ == ErrorView::Protocol(
                "unknown subscription id "@ + decimal(handle@ as nat),
            ) && final(self)@ == old(self)@),
            pattern_with_id(old(self)@.topics, handle@) matches Some(p) ==> ({
                let topic = old(self)@.topics[p].0;
                let emptied = old(self)@.topics[p].1.len() == 1;
                &&& r matches Ok(cancel) && cancel == (if emptied && old(self)@.stream_ids.contains_key(topic) {
                    Some(old(self)@.stream_ids[topic])
                } else {
                    None::<u32>
                })
                &&& final(self)@ == (WsStateView {
                    topics: spec_remove_subscription(old(self)@.topics, handle@),
                    active: if emptied { old(self)@.active.remove(topic) } else { old(self)@.active },
                    stream_ids: if emptied { old(self)@.stream_ids.remove(topic) } else { old(self)@.stream_ids },
                    ..old(self)@
                })
            }),
    {
        let id = handle.id();
        let ghost s0 = self@;
        match self.topics.remove_subscription(id) {
            None => Err(BusError::Protocol(concat2("unknown subscription id ", u64_to_decimal(id).as_str()))),
            Some((topic, emptied)) => {
                let ghost p = pattern_with_id(s0.topics, id)->0;
                proof {
                    lemma_remove_keeps_inv(s0, id);
                    lemma_remove_keeps_ids(s0.topics, id, s0.next_subscription_id);
                }
                if !emptied {
                    return Ok(None);
                }
                match self.active.find(topic.as_str()) {
                    Some(i) => {
                        let _ = self.active.remove_at(i);
                    },
                    None => {},
                }
                let cancel = match self.stream_ids.find(topic.as_str()) {
                    Some(i) => {
                        proof {
                            lemma_index_of(self.stream_ids.view_seq(), i as int);
                        }
                        let (_, sid) = self.stream_ids.remove_at(i);
                        Some(sid)
                    },
                    None => None,
                };
                proof {
                    assert(self@.active =~= s0.active.remove(topic@));
                    assert(self@.stream_ids =~= s0.stream_ids.remove(topic@));
                }
                Ok(cancel)
            },
        }
    }

    /// Whether `topic` still wants its stream.
    pub fn is_active(&self, topic: &str) -> (r: bool)
        requires
            self.wf(),
        ensures
            r == self@.active.contains_key(topic@),
    {
        self.active.find(topic).is_some()
    }

    /// KeepLast depth to open `topic`'s stream with (0 when it has none).
    pub fn topic_depth(&self, topic: &str) -> (d: i32)
        requires
            self.wf(),
        ensures
            d == (if self@.active.contains_key(topic@) { self@.active[topic@] } else { 0 }),
    {
        match self.active.find(topic) {
            Some(i) => {
                proof {
                    lemma_index_of(self.active.view_seq(), i as int);
                }
                let (_, d) = self.active.at(i);
                *d
            },
            None => 0,
        }
    }

    /// Remember the stream id now serving `topic`.
    pub fn record_stream(&mut self, topic: &str, stream_id: u32)
        requires
            old(self).wf(),
        ensures
            final(self).wf(),
            final(self)@ == (WsStateView { stream_ids: old(self)@.stream_ids.insert(topic@, stream_id), ..old(self)@ }),
    {
        match self.stream_ids.find(topic) {
            Some(i) => {
                let _ = self.stream_ids.replace_at(i, stream_id);
            },
            None => {
                self.stream_ids.insert_new(topic.to_owned(), stream_id);
            },
        }
    }

    /// The subscription table, for dispatching a message.
    pub fn topics(&self) -> (t: &TopicCallbacks<F, G>)
        ensures
            t@ == self@.topics,
    {
        &self.topics
    }

    /// The timers, for one poll step.
    pub fn timers_mut(&mut self) -> (r: &mut Vec<Timer<C, G>>)
        ensures
            r@ == old(self)@.timers,
            final(self)@ == (WsStateView { timers: final(r)@, ..old(self)@ }),
            old(self).wf() ==> final(self).wf(),
    {
        &mut self.timers
    }

    /// A periodic timer, first due one period after `now_ns`.
    pub fn create_timer(&mut self, period_ns: u128, now_ns: u128, callback: C, group: G) -> (h: TimerHandle)
        requires
            old(self)@.next_timer_id < u64::MAX,
            now_ns + period_ns <= u128::MAX,
        ensures
            h@ == old(self)@.next_timer_id,
            final(self)@ == (WsStateView {
                timers: old(self)@.timers.push(Timer {
                    id: old(self)@.next_timer_id,
                    period_ns,
                    next_deadline_ns: (now_ns + period_ns) as u128,
                    callback,
                    group,
                    cancelled: false,
                }),
                next_timer_id: (old(self)@.next_timer_id + 1) as u64,
                ..old(self)@
            }),
            old(self).wf() ==> final(self).wf(),
    {
        let id = self.next_timer_id;
        self.next_timer_id = self.next_timer_id + 1;
        self.timers.push(Timer::new(id, period_ns, now_ns, callback, group));
        TimerHandle::from_id(id)
    }

    /// Stop a timer; an unknown handle is refused.
    pub fn cancel_timer(&mut self, handle: TimerHandle) -> (r: Result<(), BusError>)
        ensures
            !timer_known(old(self)@.timers, handle@) ==> (r matches Err(e) && e@ == ErrorView::Protocol(
                "unknown timer id "@ + decimal(handle@ as nat),
            ) && final(self)@ == old(self)@),
            timer_known(old(self)@.timers, handle@) ==> (r is Ok && final(self)@ == (WsStateView {
                timers: old(self)@.timers.update(
                    first_timer_with_id(old(self)@.timers, handle@),
                    Timer { cancelled: true, ..old(self)@.timers[first_timer_with_id(old(self)@.timers, handle@)] },
                ),
                ..old(self)@
            })),
            old(self).wf() ==> final(self).wf(),
    {
        let id = handle.timer_id();
        if cancel_timer_by_id(&mut self.timers, id) {
            Ok(())
        } else {
            Err(BusError::Protocol(concat2("unknown timer id ", u64_to_decimal(id).as_str())))
        }
    }
}

#[verifier::spinoff_prover]
proof fn lemma_remove_keeps_inv<F, G, C>(s: WsStateView<F, G, C>, id: u64)
    requires
        ws_state_inv(s),
        pattern_with_id(s.topics, id) is Some,
    ensures
        ({
            let p = pattern_with_id(s.topics, id)->0;
            let topic = s.topics[p].0;
            let emptied = s.topics[p].1.len() == 1;
            let t2 = spec_remove_subscription(s.topics, id);
            &&& 0 <= p < s.topics.len()
            &&& patterns_distinct(t2)
            &&& forall|i: int| 0 <= i < t2.len() ==> (#[trigger] t2[i]).1.len() > 0
            &&& forall|k: Seq<char>| has_pattern(t2, k) == (has_pattern(s.topics, k) && !(emptied && k == topic))
        }),
{
    let t = s.topics;
    lemma_pattern_with_id_valid(t, id);
    let p = pattern_with_id(t, id)->0;
    let j = entry_with_id(t[p].1, id)->0;
    let es = t[p].1.remove(j);
    let topic = t[p].0;
    let t2 = spec_remove_subscription(t, id);
    if es.len() == 0 {
        assert(t2 == t.remove(p));
        assert forall|a: int, b: int| 0 <= a < b < t2.len() implies (#[trigger] t2[a]).0 != (#[trigger] t2[b]).0 by {
            let a0 = if a < p { a } else { a + 1 };
            let b0 = if b < p { b } else { b + 1 };
            assert(t2[a] == t[a0] && t2[b] == t[b0]);
        }
        assert forall|i: int| 0 <= i < t2.len() implies (#[trigger] t2[i]).1.len() > 0 by {
            let i0 = if i < p { i } else { i + 1 };
            assert(t2[i] == t[i0]);
        }
        assert forall|k: Seq<char>| has_pattern(t2, k) == (has_pattern(t, k) && !(k == topic)) by {
            if has_pattern(t2, k) {
                let i = choose|i: int| 0 <= i < t2.len() && t2[i].0 == k;
                let i0 = if i < p { i } else { i + 1 };
                assert(t2[i] == t[i0]);
                assert(i0 != p);
            }
            if has_pattern(t, k) && k != topic {
                let i = choose|i: int| 0 <= i < t.len() && t[i].0 == k;
                assert(i != p);
                let i2 = if i < p { i } else { i - 1 };
                assert(t2[i2] == t[i]);
            }
        }
    } else {
        assert(t2 == t.update(p, (topic, es)));
        assert forall|a: int, b: int| 0 <= a < b < t2.len() implies (#[trigger] t2[a]).0 != (#[trigger] t2[b]).0 by {
            assert(t2[a].0 == t[a].0 && t2[b].0 == t[b].0);
        }
        assert forall|k: Seq<char>| has_pattern(t2, k) == has_pattern(t, k) by {
            if has_pattern(t2, k) {
                let i = choose|i: int| 0 <= i < t2.len() && t2[i].0 == k;
                assert(t[i].0 == k);
            }
            if has_pattern(t, k) {
                let i = choose|i: int| 0 <= i < t.len() && t[i].0 == k;
                assert(t2[i].0 == k);
            }
        }
    }
}

/// Destroying a subscription undoes subscribing it: when a callback is the
/// first to subscribe to its topic, destroying it finds it as the topic's
/// only entry, and both the callback table and the open streams return to
/// what they were.
pub proof fn law_subscribe_then_destroy<F, G, C>(
    s: WsStateView<F, G, C>,
    topic: Seq<char>,
    e: SubscriptionCallback<F, G>,
    depth: i32,
)
    requires
        ws_state_inv(s),
        !s.active.contains_key(topic),
        e.id == s.next_subscription_id,
    ensures
        ({
            let t1 = spec_add(s.topics, topic, e);
            &&& pattern_with_id(t1, e.id) == Some(s.topics.len() as int)
            &&& t1[s.topics.len() as int].0 == topic
            &&& t1[s.topics.len() as int].1.len() == 1
            &&& spec_remove_subscription(t1, e.id) == s.topics
            &&& s.active.insert(topic, depth).remove(topic) == s.active
        }),
{
    let t = s.topics;
    lemma_has_pattern(t, topic);
    let t1 = spec_add(t, topic, e);
    assert(t1 == t.push((topic, seq![e])));
    assert forall|q: int| 0 <= q < t.len() implies entry_with_id((#[trigger] t1[q]).1, e.id) is None by {
        assert(t1[q] == t[q]);
        let es = t[q].1;
        assert forall|k: int| 0 <= k < es.len() implies (#[trigger] es[k]).id != e.id by {
            assert(t[q].1[k].id < s.next_subscription_id);
        }
        lemma_entry_with_id(es, e.id, es.len() as int);
    }
    let last = t.len() as int;
    assert(t1[last] == (topic, seq![e]));
    lemma_entry_with_id(seq![e], e.id, 0);
    lemma_pattern_with_id(t1, e.id, last);
    assert(seq![e].remove(0).len() == 0);
    assert(t1.remove(last) =~= t);
    assert(s.active.insert(topic, depth).remove(topic) =~= s.active);
}

/// Removing a subscription keeps every remaining id below `bound`.
#[verifier::spinoff_prover]
proof fn lemma_remove_keeps_ids<F, G>(t: TopicTable<F, G>, id: u64, bound: u64)
    requires
        pattern_with_id(t, id) is Some,
        forall|i: int, j: int| 0 <= i < t.len() && 0 <= j < t[i].1.len() ==> (#[trigger] t[i].1[j]).id < bound,
    ensures
        ({
            let t2 = spec_remove_subscription(t, id);
            forall|i: int, j: int| 0 <= i < t2.len() && 0 <= j < t2[i].1.len() ==> (#[trigger] t2[i].1[j]).id < bound
        }),
{
    lemma_pattern_with_id_valid(t, id);
    let p = pattern_with_id(t, id)->0;
    let j = entry_with_id(t[p].1, id)->0;
    let es = t[p].1.remove(j);
    let t2 = spec_remove_subscription(t, id);
    assert forall|a: int, b: int| 0 <= a < t2.len() && 0 <= b < t2[a].1.len() implies (#[trigger] t2[a].1[b]).id < bound by {
        if es.len() == 0 {
            let a0 = if a < p { a } else { a + 1 };
            assert(t2[a] == t[a0]);
        } else if a == p {
            let b0 = if b < j { b } else { b + 1 };
            assert(t2[a].1 == es);
            assert(es[b] == t[p].1[b0]);
        } else {
            assert(t2[a] == t[a]);
        }
    }
}

/// Where [`pattern_with_id`] points: a pattern holding an entry with the id.
proof fn lemma_pattern_with_id_valid<F, G>(t: TopicTable<F, G>, id: u64)
    requires
        pattern_with_id(t, id) is Some,
    ensures
        0 <= pattern_with_id(t, id)->0 < t.len(),
        entry_with_id(t[pattern_with_id(t, id)->0].1, id) is Some,
        0 <= entry_with_id(t[pattern_with_id(t, id)->0].1, id)->0 < t[pattern_with_id(t, id)->0].1.len(),
    decreases t.len(),
{
    if entry_with_id(t[0].1, id) is None {
        lemma_pattern_with_id_valid(t.drop_first(), id);
        let p = pattern_with_id(t.drop_first(), id)->0;
        assert(t.drop_first()[p] == t[p + 1]);
    } else {
        lemma_entry_with_id_valid(t[0].1, id);
    }
}

proof fn lemma_entry_with_id_valid<F, G>(es: Seq<SubscriptionCallback<F, G>>, id: u64)
    requires
        entry_with_id(es, id) is Some,
    ensures
        0 <= entry_with_id(es, id)->0 < es.len(),
        es[entry_with_id(es, id)->0].id == id,
    decreases es.len(),
{
    if es[0].id != id {
        lemma_entry_with_id_valid(es.drop_first(), id);
        let j = entry_with_id(es.drop_first(), id)->0;
        assert(es.drop_first()[j] == es[j + 1]);
    }
}

} // verus!
