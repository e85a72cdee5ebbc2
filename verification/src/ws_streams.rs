//! Streams open on one WebSocket RPC connection, keyed by stream id, and
//! what each inbound frame, a lost connection and the keep-alive do to them.
use vstd::prelude::*;
use crate::errors::{BusError, ErrorView};
use crate::rpc_status::{map_rpc_status, spec_map_rpc_status};
use crate::text::str_eq;

verus! {

/// Open streams keyed by stream id, each id at most once.
pub struct StreamTable<V> {
    entries: Vec<(u32, V)>,
}

/// Stream ids of the entries are pairwise distinct.
pub open spec fn ids_distinct<V>(s: Seq<(u32, V)>) -> bool {
    forall|i: int, j: int| 0 <= i < j < s.len() ==> (#[trigger] s[i]).0 != (#[trigger] s[j]).0
}

/// Some entry has stream id `k`.
pub open spec fn has_id<V>(s: Seq<(u32, V)>, k: u32) -> bool {
    exists|i: int| 0 <= i < s.len() && (#[trigger] s[i]).0 == k
}

/// Index of an entry with stream id `k`.
pub open spec fn index_of_id<V>(s: Seq<(u32, V)>, k: u32) -> int {
    choose|i: int| 0 <= i < s.len() && (#[trigger] s[i]).0 == k
}

/// The entries as a map from stream id to value.
pub open spec fn stream_map<V>(s: Seq<(u32, V)>) -> Map<u32, V> {
    Map::new(|k: u32| has_id(s, k), |k: u32| s[index_of_id(s, k)].1)
}

/// Among distinct ids, the index found for an entry's id is that entry's own.
pub proof fn lemma_index_of_id<V>(s: Seq<(u32, V)>, i: int)
    requires
        ids_distinct(s),
        0 <= i < s.len(),
    ensures
        has_id(s, s[i].0),
        index_of_id(s, s[i].0) == i,
{
    let k = s[i].0;
    assert(s[i].0 == k);
    let j = index_of_id(s, k);
    assert(0 <= j < s.len() && s[j].0 == k);
    if j < i {
        assert(s[j].0 != s[i].0);
    } else if j > i {
        assert(s[i].0 != s[j].0);
    }
}

impl<V> StreamTable<V> {
    spec fn entries_view(&self) -> Seq<(u32, V)> {
        Seq::new(self.entries@.len(), |i: int| (self.entries@[i].0, self.entries@[i].1))
    }

    /// The table's entries are keyed by distinct stream ids.
    pub closed spec fn wf(&self) -> bool {
        ids_distinct(self.entries_view())
    }

    /// Stream id → value.
    pub closed spec fn map(&self) -> Map<u32, V> {
        stream_map(self.entries_view())
    }

    /// An empty table.
    pub fn new() -> (t: Self)
        ensures
            t.wf(),
            t.map() == Map::<u32, V>::empty(),
    {
        let t = StreamTable { entries: Vec::new() };
        assert(t.map() =~= Map::<u32, V>::empty());
        t
    }

    fn find(&self, stream_id: u32) -> (r: Option<usize>)
        requires
            self.wf(),
        ensures
            r is Some <==> has_id(self.entries_view(), stream_id),
            r matches Some(i) ==> i < self.entries@.len() && self.entries_view()[i as int].0 == stream_id
                && index_of_id(self.entries_view(), stream_id) == i,
    {
        let mut i: usize = 0;
        while i < self.entries.len()
            invariant
                self.wf(),
                i <= self.entries@.len(),
                forall|j: int| 0 <= j < i ==> (#[trigger] self.entries_view()[j]).0 != stream_id,
            decreases self.entries@.len() - i,
        {
            if self.entries[i].0 == stream_id {
                proof {
                    lemma_index_of_id(self.entries_view(), i as int);
                }
                return Some(i);
            }
            i = i + 1;
        }
        assert(!has_id(self.entries_view(), stream_id));
        None
    }

    /// Whether `stream_id` has an entry.
    pub fn contains(&self, stream_id: u32) -> (r: bool)
        requires
            self.wf(),
        ensures
            r == self.map().contains_key(stream_id),
    {
        self.find(stream_id).is_some()
    }

    /// The value of `stream_id`, if any.
    pub fn get(&self, stream_id: u32) -> (r: Option<&V>)
        requires
            self.wf(),
        ensures
            match r {
                Some(v) => self.map().contains_key(stream_id) && *v == self.map()[stream_id],
                None => !self.map().contains_key(stream_id),
            },
    {
        match self.find(stream_id) {
            Some(i) => Some(&self.entries[i].1),
            None => None,
        }
    }

    /// Set the value of `stream_id`, returning the value it replaces.
    pub fn insert(&mut self, stream_id: u32, value: V) -> (old_value: Option<V>)
        requires
            old(self).wf(),
        ensures
            final(self).wf(),
            final(self).map() == old(self).map().insert(stream_id, value),
            match old_value {
                Some(v) => old(self).map().contains_key(stream_id) && v == old(self).map()[stream_id],
                None => !old(self).map().contains_key(stream_id),
            },
    {
        let ghost s0 = self.entries_view();
        match self.find(stream_id) {
            Some(i) => {
                let mut v = value;
                std::mem::swap(&mut self.entries[i].1, &mut v);
                let ghost s1 = self.entries_view();
                proof {
                    assert(s1 =~= s0.update(i as int, (stream_id, value)));
                    assert forall|a: int, b: int| 0 <= a < b < s1.len() implies (#[trigger] s1[a]).0 != (#[trigger] s1[b]).0 by {
                        assert(s1[a].0 == s0[a].0 && s1[b].0 == s0[b].0);
                    }
                    assert forall|k: u32| #[trigger] has_id(s1, k) == has_id(s0, k) by {
                        if has_id(s1, k) {
                            let j = choose|j: int| 0 <= j < s1.len() && (#[trigger] s1[j]).0 == k;
                            assert(s0[j].0 == k);
                        }
                        if has_id(s0, k) {
                            let j = choose|j: int| 0 <= j < s0.len() && (#[trigger] s0[j]).0 == k;
                            assert(s1[j].0 == k);
                        }
                    }
                    assert forall|k: u32| has_id(s1, k) implies #[trigger] s1[index_of_id(s1, k)].1 == (if k == stream_id {
                        value
                    } else {
                        s0[index_of_id(s0, k)].1
                    }) by {
                        let j = index_of_id(s1, k);
                        lemma_index_of_id(s1, j);
                        lemma_index_of_id(s0, j);
                    }
                    assert(stream_map(s1) =~= stream_map(s0).insert(stream_id, value));
                }
                Some(v)
            },
            None => {
                self.entries.push((stream_id, value));
                let ghost s1 = self.entries_view();
                proof {
                    assert(s1 =~= s0.push((stream_id, value)));
                    assert forall|a: int, b: int| 0 <= a < b < s1.len() implies (#[trigger] s1[a]).0 != (#[trigger] s1[b]).0 by {
                        if b == s0.len() {
                            assert(s0[a].0 == s1[a].0);
                        } else {
                            assert(s1[a].0 == s0[a].0 && s1[b].0 == s0[b].0);
                        }
                    }
                    assert forall|k: u32| #[trigger] has_id(s1, k) == (has_id(s0, k) || k == stream_id) by {
                        if has_id(s1, k) && k != stream_id {
                            let j = choose|j: int| 0 <= j < s1.len() && (#[trigger] s1[j]).0 == k;
                            assert(j < s0.len());
                            assert(s0[j].0 == k);
                        }
                        if has_id(s0, k) {
                            let j = choose|j: int| 0 <= j < s0.len() && (#[trigger] s0[j]).0 == k;
                            assert(s1[j].0 == k);
                        }
                        if k == stream_id {
                            assert(s1[s0.len() as int].0 == k);
                        }
                    }
                    assert forall|k: u32| has_id(s1, k) implies #[trigger] s1[index_of_id(s1, k)].1 == (if k == stream_id {
                        value
                    } else {
                        s0[index_of_id(s0, k)].1
                    }) by {
                        let j = index_of_id(s1, k);
                        lemma_index_of_id(s1, j);
                        if j < s0.len() {
                            lemma_index_of_id(s0, j);
                        }
                    }
                    assert(stream_map(s1) =~= stream_map(s0).insert(stream_id, value));
                }
                None
            },
        }
    }

    /// Remove the entry of `stream_id`, returning its value.
    pub fn remove(&mut self, stream_id: u32) -> (removed: Option<V>)
        requires
            old(self).wf(),
        ensures
            final(self).wf(),
            final(self).map() == old(self).map().remove(stream_id),
            match removed {
                Some(v) => old(self).map().contains_key(stream_id) && v == old(self).map()[stream_id],
                None => !old(self).map().contains_key(stream_id),
            },
    {
        let ghost s0 = self.entries_view();
        match self.find(stream_id) {
            Some(i) => {
                let (_, v) = self.entries.remove(i);
                let ghost s1 = self.entries_view();
                proof {
                    assert(s1 =~= s0.remove(i as int));
                    assert forall|a: int, b: int| 0 <= a < b < s1.len() implies (#[trigger] s1[a]).0 != (#[trigger] s1[b]).0 by {
                        let a0 = if a < i { a } else { a + 1 };
                        let b0 = if b < i { b } else { b + 1 };
                        assert(s1[a] == s0[a0] && s1[b] == s0[b0]);
                    }
                    assert forall|k: u32| #[trigger] has_id(s1, k) == (has_id(s0, k) && k != stream_id) by {
                        if has_id(s1, k) {
                            let j = choose|j: int| 0 <= j < s1.len() && (#[trigger] s1[j]).0 == k;
                            let j0 = if j < i { j } else { j + 1 };
                            assert(s0[j0].0 == k);
                            assert(j0 != i);
                            if k == stream_id {
                                lemma_index_of_id(s0, j0);
                            }
                        }
                        if has_id(s0, k) && k != stream_id {
                            let j = choose|j: int| 0 <= j < s0.len() && (#[trigger] s0[j]).0 == k;
                            assert(j != i);
                            let j1 = if j < i { j } else { j - 1 };
                            assert(s1[j1].0 == k);
                        }
                    }
                    assert forall|k: u32| has_id(s1, k) implies #[trigger] s1[index_of_id(s1, k)].1 == s0[index_of_id(
                        s0,
                        k,
                    )].1 by {
                        let j = index_of_id(s1, k);
                        lemma_index_of_id(s1, j);
                        let j0 = if j < i { j } else { j + 1 };
                        assert(s1[j] == s0[j0]);
                        lemma_index_of_id(s0, j0);
                    }
                    assert(stream_map(s1) =~= stream_map(s0).remove(stream_id));
                }
                Some(v)
            },
            None => {
                assert(stream_map(s0) =~= stream_map(s0).remove(stream_id));
                None
            },
        }
    }

    /// Take every entry out, leaving the table empty: each entry once.
    pub fn drain(&mut self) -> (all: Vec<(u32, V)>)
        requires
            old(self).wf(),
        ensures
            final(self).wf(),
            final(self).map() == Map::<u32, V>::empty(),
            ids_distinct(all@),
            all@.len() == old(self).map().len(),
            stream_map(all@) == old(self).map(),
    {
        let mut all: Vec<(u32, V)> = Vec::new();
        std::mem::swap(&mut all, &mut self.entries);
        proof {
            assert(all@ =~= old(self).entries_view());
            lemma_stream_table_len(all@);
            assert(self.map() =~= Map::<u32, V>::empty());
        }
        all
    }

    /// Number of open streams.
    pub fn len(&self) -> (n: usize)
        requires
            self.wf(),
        ensures
            n == self.map().len(),
    {
        proof {
            lemma_stream_table_len(self.entries_view());
        }
        self.entries.len()
    }
}

/// A table of distinct names has one entry per name.
pub proof fn lemma_stream_table_len<V>(s: Seq<(u32, V)>)
    requires
        ids_distinct(s),
    ensures
        stream_map(s).dom().finite(),
        stream_map(s).len() == s.len(),
    decreases s.len(),
{
    if s.len() == 0 {
        assert(stream_map(s).dom() =~= Set::<u32>::empty());
    } else {
        let p = s.drop_last();
        assert forall|a: int, b: int| 0 <= a < b < p.len() implies (#[trigger] p[a]).0 != (#[trigger] p[b]).0 by {
            assert(p[a] == s[a] && p[b] == s[b]);
        }
        lemma_stream_table_len(p);
        let k = s.last().0;
        assert(stream_map(s).dom() =~= stream_map(p).dom().insert(k)) by {
            assert forall|x: u32| #[trigger] has_id(s, x) == (has_id(p, x) || x == k) by {
                if has_id(s, x) && x != k {
                    let j = choose|j: int| 0 <= j < s.len() && (#[trigger] s[j]).0 == x;
                    assert(p[j].0 == x);
                }
                if has_id(p, x) {
                    let j = choose|j: int| 0 <= j < p.len() && (#[trigger] p[j]).0 == x;
                    assert(s[j].0 == x);
                }
                if x == k {
                    assert(s[s.len() - 1].0 == x);
                }
            }
        }
        assert(!stream_map(p).dom().contains(k)) by {
            if has_id(p, k) {
                let j = choose|j: int| 0 <= j < p.len() && (#[trigger] p[j]).0 == k;
                assert(s[j].0 == s[s.len() - 1].0);
            }
        }
    }
}



/// Kind of a stream open on the connection.
#[derive(Debug, Clone, Copy, PartialEq, Eq, Structural)]
pub enum WsStreamKind {
    /// A topic subscription.
    Subscribe,
    /// A unary call (service call, publish).
    Unary,
    /// An action goal.
    Action,
}

/// A stream open on the connection: its kind, the handle its caller waits
/// on, and the data a unary call received so far.
pub struct OpenStream<H> {
    pub kind: WsStreamKind,
    pub handle: H,
    pub data: Option<Vec<u8>>,
}

/// What a `DATA` frame does.
pub enum DataStep {
    /// No such stream: dropped.
    Ignore,
    /// A topic message for the subscription's caller.
    Topic(Vec<u8>),
    /// An action event for the goal's caller.
    Action(Vec<u8>),
    /// Kept as the unary call's answer until its trailer.
    Stored,
}

/// A stream open the request of which was sent.
pub fn open_stream<H>(streams: &mut StreamTable<OpenStream<H>>, stream_id: u32, kind: WsStreamKind, handle: H)
    requires
        old(streams).wf(),
    ensures
        final(streams).wf(),
        final(streams).map() == old(streams).map().insert(stream_id, OpenStream { kind, handle, data: None }),
{
    let _ = streams.insert(stream_id, OpenStream { kind, handle, data: None });
}

/// Apply a `DATA` frame of `stream_id`: a unary call keeps the payload as its
/// answer (the last one wins); a subscription or action passes it on.
pub fn on_data<H>(streams: &mut StreamTable<OpenStream<H>>, stream_id: u32, payload: Vec<u8>) -> (s: DataStep)
    requires
        old(streams).wf(),
    ensures
        final(streams).wf(),
        !old(streams).map().contains_key(stream_id) ==> s is Ignore && final(streams).map() == old(streams).map(),
        old(streams).map().contains_key(stream_id) ==> match old(streams).map()[stream_id].kind {
            WsStreamKind::Subscribe => (s matches DataStep::Topic(p) && p@ == payload@) && final(streams).map()
                == old(streams).map(),
            WsStreamKind::Action => (s matches DataStep::Action(p) && p@ == payload@) && final(streams).map()
                == old(streams).map(),
            WsStreamKind::Unary => s is Stored && final(streams).map() == old(streams).map().insert(
                stream_id,
                OpenStream { data: Some(payload), ..old(streams).map()[stream_id] },
            ),
        },
{
    let kind = match streams.get(stream_id) {
        None => return DataStep::Ignore,
        Some(e) => e.kind,
    };
    match kind {
        WsStreamKind::Subscribe => DataStep::Topic(payload),
        WsStreamKind::Action => DataStep::Action(payload),
        WsStreamKind::Unary => {
            let ghost m0 = streams.map();
            match streams.remove(stream_id) {
                Some(e) => {
                    let OpenStream { kind, handle, data: _ } = e;
                    let _ = streams.insert(stream_id, OpenStream { kind, handle, data: Some(payload) });
                    proof {
                        assert(m0.remove(stream_id).insert(stream_id, OpenStream { data: Some(payload), ..m0[stream_id] })
                            =~= m0.insert(stream_id, OpenStream { data: Some(payload), ..m0[stream_id] }));
                    }
                },
                None => {},
            }
            DataStep::Stored
        },
    }
}

/// What a stream's trailer does.
pub enum TrailerStep<H> {
    /// No such stream: dropped.
    Ignore,
    /// The stream failed with `error`.
    Fail { kind: WsStreamKind, handle: H, error: BusError },
    /// The unary call answers `body`.
    Reply { handle: H, body: Vec<u8> },
    /// The subscription ended.
    Done { handle: H },
    /// The action stream ended (its result went out as data).
    Ended { handle: H },
}

/// Body a unary call answers at its trailer: the data it kept, else nothing.
pub open spec fn spec_unary_body(data: Option<Vec<u8>>) -> Seq<u8> {
    match data {
        Some(d) => d@,
        None => Seq::empty(),
    }
}

/// Apply the trailer of `stream_id`: the stream leaves the table; a non-zero
/// status fails it with the mapped error, status 0 completes it by kind.
pub fn on_trailer<H>(streams: &mut StreamTable<OpenStream<H>>, stream_id: u32, status: u32, message: &str) -> (s:
    TrailerStep<H>)
    requires
        old(streams).wf(),
    ensures
        final(streams).wf(),
        final(streams).map() == old(streams).map().remove(stream_id),
        !old(streams).map().contains_key(stream_id) ==> s is Ignore,
        old(streams).map().contains_key(stream_id) ==> ({
            let e = old(streams).map()[stream_id];
            if status != 0 {
                s matches TrailerStep::Fail { kind, handle, error } && kind == e.kind && handle == e.handle
                    && error@ == spec_map_rpc_status(status, message@)
            } else {
                match e.kind {
                    WsStreamKind::Unary => s matches TrailerStep::Reply { handle, body } && handle == e.handle
                        && body@ == spec_unary_body(e.data),
                    WsStreamKind::Subscribe => s matches TrailerStep::Done { handle } && handle == e.handle,
                    WsStreamKind::Action => s matches TrailerStep::Ended { handle } && handle == e.handle,
                }
            }
        }),
{
    let e = match streams.remove(stream_id) {
        None => return TrailerStep::Ignore,
        Some(e) => e,
    };
    let OpenStream { kind, handle, data } = e;
    if status != 0 {
        return TrailerStep::Fail { kind, handle, error: map_rpc_status(status, message) };
    }
    match kind {
        WsStreamKind::Unary => TrailerStep::Reply {
            handle,
            body: match data {
                Some(d) => d,
                None => Vec::new(),
            },
        },
        WsStreamKind::Subscribe => TrailerStep::Done { handle },
        WsStreamKind::Action => TrailerStep::Ended { handle },
    }
}

/// A stream failed all at once (the connection closed, or the broker
/// refused a whole feature).
pub struct FailedStream<H> {
    pub stream_id: u32,
    pub kind: WsStreamKind,
    pub handle: H,
    pub error: BusError,
}

/// The error of every stream open when the connection closed.
pub open spec fn spec_ws_closed() -> ErrorView {
    ErrorView::Protocol("websocket closed"@)
}

/// Error of each stream failed by [`fail_all`].
pub open spec fn spec_fail_all_error(closed: bool, status: u32, message: Seq<char>) -> ErrorView {
    if closed {
        spec_ws_closed()
    } else {
        spec_map_rpc_status(status, message)
    }
}

/// Each stream of `old` failed once, with the error `err`.
pub open spec fn fails_each<H>(old: Map<u32, OpenStream<H>>, out: Seq<FailedStream<H>>, err: ErrorView) -> bool {
    &&& out.len() == old.len()
    &&& forall|i: int, j: int| 0 <= i < j < out.len() ==> (#[trigger] out[i]).stream_id != (#[trigger] out[j]).stream_id
    &&& forall|i: int| 0 <= i < out.len() ==> {
        let f = #[trigger] out[i];
        &&& old.contains_key(f.stream_id)
        &&& f.kind == old[f.stream_id].kind
        &&& f.handle == old[f.stream_id].handle
        &&& f.error@ == err
    }
}

/// Fail every open stream: with the mapped `status` / `message` when
/// `closed` is false, else with the connection-closed error. The table is
/// left empty.
pub fn fail_all<H>(streams: &mut StreamTable<OpenStream<H>>, closed: bool, status: u32, message: &str) -> (out: Vec<
    FailedStream<H>,
>)
    requires
        old(streams).wf(),
    ensures
        final(streams).wf(),
        final(streams).map() == Map::<u32, OpenStream<H>>::empty(),
        fails_each(
            old(streams).map(),
            out@,
            spec_fail_all_error(closed, status, message@),
        ),
{
    let ghost m0 = streams.map();
    let mut rest = streams.drain();
    let ghost all = rest@;
    let mut out: Vec<FailedStream<H>> = Vec::new();
    proof {
        lemma_stream_table_len(all);
    }
    while rest.len() > 0
        invariant
            ids_distinct(all),
            stream_map(all) == m0,
            all.len() == m0.len(),
            rest@ == all.take(rest@.len() as int),
            rest@.len() <= all.len(),
            out@.len() + rest@.len() == all.len(),
            forall|j: int| 0 <= j < out@.len() ==> {
                let f = #[trigger] out@[j];
                &&& f.stream_id == all[all.len() - 1 - j].0
                &&& f.kind == all[all.len() - 1 - j].1.kind
                &&& f.handle == all[all.len() - 1 - j].1.handle
                &&& f.error@ == spec_fail_all_error(closed, status, message@)
            },
        decreases rest@.len(),
    {
        let ghost before = rest@;
        let ghost out0 = out@;
        let (id, e) = rest.pop().unwrap();
        proof {
            assert(rest@ =~= all.take(rest@.len() as int));
            assert((id, e) == all[before.len() - 1]);
        }
        let error = if closed {
            BusError::Protocol("websocket closed".to_owned())
        } else {
            map_rpc_status(status, message)
        };
        let OpenStream { kind, handle, data: _ } = e;
        out.push(FailedStream { stream_id: id, kind, handle, error });
        proof {
            assert forall|j: int| 0 <= j < out0.len() implies #[trigger] out@[j] == out0[j] by {}
            assert(out@[out0.len() as int].stream_id == all[all.len() - 1 - out0.len()].0);
            assert(out@[out0.len() as int].kind == all[all.len() - 1 - out0.len()].1.kind);
            assert(out@[out0.len() as int].handle == all[all.len() - 1 - out0.len()].1.handle);
        }
    }
    proof {
        let n = all.len();
        assert forall|i: int, j: int| 0 <= i < j < out@.len() implies (#[trigger] out@[i]).stream_id != (
        #[trigger] out@[j]).stream_id by {
            assert(all[n - 1 - i].0 != all[n - 1 - j].0);
        }
        assert forall|i: int| 0 <= i < out@.len() implies {
            let f = #[trigger] out@[i];
            &&& m0.contains_key(f.stream_id)
            &&& f.kind == m0[f.stream_id].kind
            &&& f.handle == m0[f.stream_id].handle
            &&& f.error@ == spec_fail_all_error(closed, status, message@)
        } by {
            let k = n - 1 - i;
            lemma_index_of_id(all, k);
        }
    }
    out
}

/// What a trailer on stream 0 (the connection itself) does.
#[derive(Debug, Clone, Copy, PartialEq, Eq, Structural)]
pub enum ControlTrailer {
    /// The broker refused a feature every stream relies on: fail them all with it.
    FailAll,
    /// The broker has no keep-alive: stop pinging.
    HeartbeatOff,
}

/// The broker does not know the subscription overflow opcode.
pub open spec fn spec_overflow_unsupported(status: u32, message: Seq<char>) -> bool {
    status != 0 && message == "unknown opcode 5"@
}

/// Classify a trailer on stream 0.
pub fn control_trailer(status: u32, message: &str) -> (c: ControlTrailer)
    ensures
        (c == ControlTrailer::FailAll) == spec_overflow_unsupported(status, message@),
{
    if status != 0 && str_eq(message, "unknown opcode 5") {
        ControlTrailer::FailAll
    } else {
        ControlTrailer::HeartbeatOff
    }
}

/// Keep-alive state of a connection.
#[derive(Debug, Clone, Copy, PartialEq, Eq, Structural)]
pub struct Heartbeat {
    /// Pings are sent at all.
    pub enabled: bool,
    /// A ping went out and no pong came back yet.
    pub awaiting_pong: bool,
    /// Ping intervals that passed with a ping unanswered.
    pub misses: u32,
}

/// What a ping interval does.
#[derive(Debug, Clone, Copy, PartialEq, Eq, Structural)]
pub enum PingTick {
    /// Too many pings went unanswered: drop the connection.
    Disconnect,
    /// Send a ping.
    SendPing,
}

/// Keep-alive state and decision after one ping interval with `miss_limit`.
pub open spec fn spec_tick(h: Heartbeat, miss_limit: u32) -> (Heartbeat, PingTick) {
    let m: u32 = if !h.awaiting_pong {
        h.misses
    } else if h.misses < u32::MAX {
        (h.misses + 1) as u32
    } else {
        u32::MAX
    };
    if h.awaiting_pong && m >= miss_limit {
        (Heartbeat { misses: m, ..h }, PingTick::Disconnect)
    } else {
        (Heartbeat { awaiting_pong: true, misses: m, ..h }, PingTick::SendPing)
    }
}

impl Heartbeat {
    /// A fresh connection: pinging, nothing outstanding.
    pub fn new() -> (h: Self)
        ensures
            h == (Heartbeat { enabled: true, awaiting_pong: false, misses: 0 }),
    {
        Heartbeat { enabled: true, awaiting_pong: false, misses: 0 }
    }

    /// A ping interval passed: an unanswered ping counts as a miss (saturating);
    /// at `miss_limit` misses the connection is dropped, else a ping goes out.
    pub fn on_tick(&mut self, miss_limit: u32) -> (t: PingTick)
        ensures
            (*final(self), t) == spec_tick(*old(self), miss_limit),
    {
        if self.awaiting_pong {
            self.misses = if self.misses < u32::MAX { self.misses + 1 } else { u32::MAX };
            if self.misses >= miss_limit {
                return PingTick::Disconnect;
            }
        }
        self.awaiting_pong = true;
        PingTick::SendPing
    }

    /// A pong came back: nothing outstanding, no misses.
    pub fn on_pong(&mut self)
        ensures
            *final(self) == (Heartbeat { awaiting_pong: false, misses: 0, ..*old(self) }),
    {
        self.awaiting_pong = false;
        self.misses = 0;
    }

    /// The broker has no keep-alive: stop pinging.
    pub fn stop(&mut self)
        ensures
            *final(self) == (Heartbeat { enabled: false, awaiting_pong: false, ..*old(self) }),
    {
        self.enabled = false;
        self.awaiting_pong = false;
    }
}

/// The keep-alive after `n` ping intervals with no pong.
pub open spec fn spec_silent_ticks(h: Heartbeat, n: nat, miss_limit: u32) -> Heartbeat
    decreases n,
{
    if n == 0 {
        h
    } else {
        spec_tick(spec_silent_ticks(h, (n - 1) as nat, miss_limit), miss_limit).0
    }
}

proof fn lemma_silent_ticks(miss_limit: u32, n: nat)
    requires
        1 <= n <= miss_limit,
    ensures
        spec_silent_ticks(Heartbeat { enabled: true, awaiting_pong: false, misses: 0 }, n, miss_limit)
            == (Heartbeat { enabled: true, awaiting_pong: true, misses: (n - 1) as u32 }),
        spec_tick(
            spec_silent_ticks(Heartbeat { enabled: true, awaiting_pong: false, misses: 0 }, (n - 1) as nat, miss_limit),
            miss_limit,
        ).1 == PingTick::SendPing,
    decreases n,
{
    if n > 1 {
        lemma_silent_ticks(miss_limit, (n - 1) as nat);
    }
}

/// On a fresh connection whose pings go unanswered, the first `miss_limit`
/// intervals each send a ping and the next one drops the connection; a pong
/// clears every miss.
pub proof fn law_unanswered_pings_disconnect(miss_limit: u32, n: nat)
    requires
        1 <= miss_limit,
    ensures
        ({
            let h0 = Heartbeat { enabled: true, awaiting_pong: false, misses: 0 };
            &&& 1 <= n <= miss_limit ==> spec_tick(spec_silent_ticks(h0, (n - 1) as nat, miss_limit), miss_limit).1
                == PingTick::SendPing
            &&& spec_tick(spec_silent_ticks(h0, miss_limit as nat, miss_limit), miss_limit).1 == PingTick::Disconnect
        }),
{
    if 1 <= n <= miss_limit {
        lemma_silent_ticks(miss_limit, n);
    }
    lemma_silent_ticks(miss_limit, miss_limit as nat);
}

/// What the table gives back: a stream opened and then ended by its trailer
/// is handed back with its handle exactly once and leaves the table, and a
/// second trailer of it is dropped.
pub proof fn law_stream_ends_once<H>(m: Map<u32, OpenStream<H>>, id: u32, e: OpenStream<H>)
    ensures
        m.insert(id, e).contains_key(id) && m.insert(id, e)[id] == e,
        !m.insert(id, e).remove(id).contains_key(id),
        m.insert(id, e).remove(id).remove(id) == m.insert(id, e).remove(id),
{
    assert(m.insert(id, e).remove(id).remove(id) =~= m.insert(id, e).remove(id));
}

} // verus!
