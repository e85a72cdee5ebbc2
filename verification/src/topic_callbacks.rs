//! Shared topic → subscription callback matching for executors.
use vstd::prelude::*;
use crate::callback_group::SubscriptionCallback;
use crate::text::{has_prefix, starts_with, str_eq};

verus! {

/// Subscriptions keyed by topic pattern (a pattern matches its exact topic
/// and, when not empty, every topic it is a prefix of).
pub struct TopicCallbacks<F, G> {
    entries: Vec<(String, Vec<SubscriptionCallback<F, G>>)>,
}

/// Mathematical view: patterns with their entries, in order of first subscription.
pub type TopicTable<F, G> = Seq<(Seq<char>, Seq<SubscriptionCallback<F, G>>)>;

/// Patterns occur at most once.
pub open spec fn patterns_distinct<F, G>(t: TopicTable<F, G>) -> bool {
    forall|i: int, j: int| 0 <= i < j < t.len() ==> (#[trigger] t[i]).0 != (#[trigger] t[j]).0
}

/// Index of pattern `p`, if present.
pub open spec fn pattern_index<F, G>(t: TopicTable<F, G>, p: Seq<char>) -> Option<int>
    decreases t.len(),
{
    if t.len() == 0 {
        None
    } else if t.last().0 == p {
        Some(t.len() - 1)
    } else {
        pattern_index(t.drop_last(), p)
    }
}

/// Where [`pattern_index`] points.
pub proof fn lemma_pattern_index<F, G>(t: TopicTable<F, G>, p: Seq<char>)
    ensures
        match pattern_index(t, p) {
            Some(i) => 0 <= i < t.len() && t[i].0 == p,
            None => forall|i: int| 0 <= i < t.len() ==> (#[trigger] t[i]).0 != p,
        },
    decreases t.len(),
{
    if t.len() > 0 && t.last().0 != p {
        let d = t.drop_last();
        lemma_pattern_index(d, p);
        match pattern_index(d, p) {
            Some(i) => {
                assert(d[i] == t[i]);
            },
            None => {
                assert forall|i: int| 0 <= i < t.len() implies (#[trigger] t[i]).0 != p by {
                    if i < t.len() - 1 {
                        assert(d[i] == t[i]);
                    }
                }
            },
        }
    }
}

/// Table after subscribing `e` under `topic`.
pub open spec fn spec_add<F, G>(t: TopicTable<F, G>, topic: Seq<char>, e: SubscriptionCallback<F, G>) -> TopicTable<F, G> {
    match pattern_index(t, topic) {
        Some(i) => t.update(i, (t[i].0, t[i].1.push(e))),
        None => t.push((topic, seq![e])),
    }
}

/// Index of the first entry of `es` with subscription id `id`.
pub open spec fn entry_with_id<F, G>(es: Seq<SubscriptionCallback<F, G>>, id: u64) -> Option<int>
    decreases es.len(),
{
    if es.len() == 0 {
        None
    } else if es[0].id == id {
        Some(0)
    } else {
        match entry_with_id(es.drop_first(), id) {
            Some(j) => Some(j + 1),
            None => None,
        }
    }
}

/// Index of the first pattern (in table order) holding subscription `id`.
pub open spec fn pattern_with_id<F, G>(t: TopicTable<F, G>, id: u64) -> Option<int>
    decreases t.len(),
{
    if t.len() == 0 {
        None
    } else if entry_with_id(t[0].1, id) is Some {
        Some(0)
    } else {
        match pattern_with_id(t.drop_first(), id) {
            Some(p) => Some(p + 1),
            None => None,
        }
    }
}

/// Table after removing subscription `id`: its entry goes, and its pattern
/// too when no entry is left under it.
pub open spec fn spec_remove_subscription<F, G>(t: TopicTable<F, G>, id: u64) -> TopicTable<F, G> {
    match pattern_with_id(t, id) {
        None => t,
        Some(p) => {
            let es = t[p].1.remove(entry_with_id(t[p].1, id)->0);
            if es.len() == 0 {
                t.remove(p)
            } else {
                t.update(p, (t[p].0, es))
            }
        },
    }
}

pub proof fn lemma_entry_with_id<F, G>(es: Seq<SubscriptionCallback<F, G>>, id: u64, i: int)
    requires
        0 <= i <= es.len(),
        forall|k: int| 0 <= k < i ==> (#[trigger] es[k]).id != id,
    ensures
        i < es.len() && es[i].id == id ==> entry_with_id(es, id) == Some(i),
        i == es.len() ==> entry_with_id(es, id) is None,
    decreases i,
{
    if i > 0 {
        let rest = es.drop_first();
        assert forall|k: int| 0 <= k < i - 1 implies (#[trigger] rest[k]).id != id by {
            assert(rest[k] == es[k + 1]);
        }
        lemma_entry_with_id(rest, id, i - 1);
        if i < es.len() {
            assert(rest[i - 1] == es[i]);
        }
    }
}

pub proof fn lemma_pattern_with_id<F, G>(t: TopicTable<F, G>, id: u64, p: int)
    requires
        0 <= p <= t.len(),
        forall|q: int| 0 <= q < p ==> entry_with_id((#[trigger] t[q]).1, id) is None,
    ensures
        p < t.len() && entry_with_id(t[p].1, id) is Some ==> pattern_with_id(t, id) == Some(p),
        p == t.len() ==> pattern_with_id(t, id) is None,
    decreases p,
{
    if p > 0 {
        let rest = t.drop_first();
        assert forall|q: int| 0 <= q < p - 1 implies entry_with_id((#[trigger] rest[q]).1, id) is None by {
            assert(rest[q] == t[q + 1]);
        }
        lemma_pattern_with_id(rest, id, p - 1);
        if p < t.len() {
            assert(rest[p - 1] == t[p]);
        }
    }
}

/// Positions `(pattern, entry)` of every entry of pattern `p`.
pub open spec fn entry_positions<F, G>(t: TopicTable<F, G>, p: int) -> Seq<(int, int)> {
    Seq::new(t[p].1.len(), |j: int| (p, j))
}

/// A position as a pair of integers.
pub open spec fn pos_int(p: (usize, usize)) -> (int, int) {
    (p.0 as int, p.1 as int)
}

/// Positions as pairs of integers.
pub open spec fn positions(s: Seq<(usize, usize)>) -> Seq<(int, int)> {
    s.map_values(|p: (usize, usize)| pos_int(p))
}

/// A pattern other than the topic itself that matches it as a non-empty prefix.
pub open spec fn prefix_match(pattern: Seq<char>, topic: Seq<char>) -> bool {
    pattern.len() > 0 && pattern != topic && has_prefix(topic, pattern)
}

/// Positions of the entries of prefix patterns among the first `k` patterns.
pub open spec fn prefix_positions<F, G>(t: TopicTable<F, G>, topic: Seq<char>, k: int) -> Seq<(int, int)>
    decreases k,
{
    if k <= 0 {
        Seq::empty()
    } else {
        let before = prefix_positions(t, topic, k - 1);
        if prefix_match(t[k - 1].0, topic) {
            before + entry_positions(t, k - 1)
        } else {
            before
        }
    }
}

/// Every entry that matches `topic`: the exact pattern's entries, then those
/// of the prefix patterns in table order.
pub open spec fn candidates<F, G>(t: TopicTable<F, G>, topic: Seq<char>) -> Seq<(int, int)> {
    let exact = match pattern_index(t, topic) {
        Some(i) => entry_positions(t, i),
        None => Seq::empty(),
    };
    exact + prefix_positions(t, topic, t.len() as int)
}

/// Callback identity at a position.
pub open spec fn key_at<F, G>(t: TopicTable<F, G>, pos: (int, int)) -> u64 {
    t[pos.0].1[pos.1].key
}

/// `s` without the positions whose callback already appeared earlier.
pub open spec fn dedup_by_key<F, G>(t: TopicTable<F, G>, s: Seq<(int, int)>) -> Seq<(int, int)>
    decreases s.len(),
{
    if s.len() == 0 {
        Seq::empty()
    } else {
        let d = dedup_by_key(t, s.drop_last());
        if exists|i: int| 0 <= i < d.len() && key_at(t, #[trigger] d[i]) == key_at(t, s.last()) {
            d
        } else {
            d.push(s.last())
        }
    }
}

/// Position of an entry present in the table.
pub open spec fn valid_pos<F, G>(t: TopicTable<F, G>, pos: (int, int)) -> bool {
    0 <= pos.0 < t.len() && 0 <= pos.1 < t[pos.0].1.len()
}

proof fn lemma_prefix_positions_valid<F, G>(t: TopicTable<F, G>, topic: Seq<char>, k: int)
    requires
        k <= t.len(),
    ensures
        forall|i: int| 0 <= i < prefix_positions(t, topic, k).len() ==> valid_pos(t, #[trigger] prefix_positions(t, topic, k)[i]),
    decreases k,
{
    if k > 0 {
        lemma_prefix_positions_valid(t, topic, k - 1);
        let before = prefix_positions(t, topic, k - 1);
        if prefix_match(t[k - 1].0, topic) {
            let cur = before + entry_positions(t, k - 1);
            assert forall|i: int| 0 <= i < cur.len() implies valid_pos(t, #[trigger] cur[i]) by {
                if i >= before.len() {
                    assert(cur[i] == entry_positions(t, k - 1)[i - before.len()]);
                } else {
                    assert(cur[i] == before[i]);
                }
            }
        }
    }
}

proof fn lemma_candidates_valid<F, G>(t: TopicTable<F, G>, topic: Seq<char>)
    ensures
        forall|i: int| 0 <= i < candidates(t, topic).len() ==> valid_pos(t, #[trigger] candidates(t, topic)[i]),
{
    lemma_pattern_index(t, topic);
    lemma_prefix_positions_valid(t, topic, t.len() as int);
    let exact = match pattern_index(t, topic) {
        Some(i) => entry_positions(t, i),
        None => Seq::<(int, int)>::empty(),
    };
    let rest = prefix_positions(t, topic, t.len() as int);
    let c = candidates(t, topic);
    assert(c == exact + rest);
    assert forall|i: int| 0 <= i < c.len() implies valid_pos(t, #[trigger] c[i]) by {
        if i < exact.len() {
            assert(c[i] == exact[i]);
        } else {
            assert(c[i] == rest[i - exact.len()]);
        }
    }
}

impl<F, G> View for TopicCallbacks<F, G> {
    type V = TopicTable<F, G>;

    closed spec fn view(&self) -> TopicTable<F, G> {
        Seq::new(self.entries@.len(), |i: int| (self.entries@[i].0@, self.entries@[i].1@))
    }
}

impl<F, G> TopicCallbacks<F, G> {
    /// No subscriptions.
    pub fn new() -> (t: Self)
        ensures
            t@ == Seq::<(Seq<char>, Seq<SubscriptionCallback<F, G>>)>::empty(),
    {
        let t = TopicCallbacks { entries: Vec::new() };
        assert(t@ =~= Seq::<(Seq<char>, Seq<SubscriptionCallback<F, G>>)>::empty());
        t
    }

    fn find(&self, topic: &str) -> (r: Option<usize>)
        ensures
            match pattern_index(self@, topic@) {
                Some(i) => r == Some(i as usize),
                None => r is None,
            },
            r matches Some(i) ==> i < self@.len() && self@[i as int].0 == topic@ && pattern_index(
                self@,
                topic@,
            ) == Some(i as int),
    {
        let mut i = self.entries.len();
        assert(self@.subrange(0, i as int) =~= self@);
        while i > 0
            invariant
                i <= self.entries@.len(),
                self@.len() == self.entries@.len(),
                pattern_index(self@, topic@) == pattern_index(self@.subrange(0, i as int), topic@),
            decreases i,
        {
            let ghost sub = self@.subrange(0, i as int);
            assert(sub.last() == self@[i - 1]);
            assert(sub.drop_last() =~= self@.subrange(0, i - 1));
            if str_eq(self.entries[i - 1].0.as_str(), topic) {
                assert(self@[i - 1].0 == topic@);
                return Some(i - 1);
            }
            i = i - 1;
        }
        None
    }

    /// Add `entry` under `topic`.
    pub fn add(&mut self, topic: &str, entry: SubscriptionCallback<F, G>)
        ensures
            final(self)@ == spec_add(old(self)@, topic@, entry),
    {
        proof {
            lemma_pattern_index(self@, topic@);
        }
        match self.find(topic) {
            Some(i) => {
                let ghost before = self@;
                self.entries[i].1.push(entry);
                assert(self@ =~= before.update(i as int, (before[i as int].0, before[i as int].1.push(entry))));
                assert(pattern_index(before, topic@) == Some(i as int));
                assert(self@ == spec_add(before, topic@, entry));
            },
            None => {
                let ghost before = self@;
                let mut v = Vec::new();
                v.push(entry);
                assert(v@ =~= seq![entry]);
                self.entries.push((topic.to_owned(), v));
                assert(self@ =~= before.push((topic@, seq![entry])));
                assert(pattern_index(before, topic@) is None);
                assert(self@ == spec_add(before, topic@, entry));
            },
        }
    }

    /// Remove subscription `id` (its first entry, patterns in table order);
    /// a pattern left without entries goes too. Returns the pattern it was
    /// under and whether that pattern went; `None` when no entry has `id`.
    pub fn remove_subscription(&mut self, id: u64) -> (r: Option<(String, bool)>)
        ensures
            final(self)@ == spec_remove_subscription(old(self)@, id),
            match pattern_with_id(old(self)@, id) {
                None => r is None,
                Some(p) => r matches Some(x) && x.0@ == old(self)@[p].0 && x.1 == (old(self)@[p].1.len() == 1),
            },
    {
        let mut p: usize = 0;
        while p < self.entries.len()
            invariant
                p <= self@.len(),
                self@ == old(self)@,
                self@.len() == self.entries@.len(),
                forall|q: int| 0 <= q < p ==> entry_with_id((#[trigger] self@[q]).1, id) is None,
            decreases self@.len() - p,
        {
            let n = self.entries[p].1.len();
            let mut j: usize = 0;
            while j < n
                invariant
                    p < self@.len(),
                    self@.len() == self.entries@.len(),
                    n == self@[p as int].1.len(),
                    j <= n,
                    self@ == old(self)@,
                    forall|q: int| 0 <= q < p ==> entry_with_id((#[trigger] self@[q]).1, id) is None,
                    forall|k: int| 0 <= k < j ==> (#[trigger] self@[p as int].1[k]).id != id,
                decreases n - j,
            {
                if self.entries[p].1[j].id == id {
                    let ghost t0 = self@;
                    proof {
                        lemma_entry_with_id(t0[p as int].1, id, j as int);
                        lemma_pattern_with_id(t0, id, p as int);
                    }
                    let _removed = self.entries[p].1.remove(j);
                    let emptied = self.entries[p].1.len() == 0;
                    if emptied {
                        let (topic, _) = self.entries.remove(p);
                        proof {
                            assert(self@ =~= t0.remove(p as int));
                        }
                        return Some((topic, true));
                    } else {
                        let topic = self.entries[p].0.clone();
                        proof {
                            assert(self@ =~= t0.update(p as int, (t0[p as int].0, t0[p as int].1.remove(j as int))));
                        }
                        return Some((topic, false));
                    }
                }
                j = j + 1;
            }
            proof {
                lemma_entry_with_id(self@[p as int].1, id, n as int);
            }
            p = p + 1;
        }
        proof {
            lemma_pattern_with_id(self@, id, p as int);
        }
        None
    }

    /// The entry at a position.
    pub fn entry_at(&self, pos: (usize, usize)) -> (e: &SubscriptionCallback<F, G>)
        requires
            valid_pos(self@, pos_int(pos)),
        ensures
            *e == self@[pos.0 as int].1[pos.1 as int],
    {
        &self.entries[pos.0].1[pos.1]
    }

    fn push_entries_of(&self, p: usize, out: &mut Vec<(usize, usize)>)
        requires
            p < self@.len(),
        ensures
            positions(final(out)@) == positions(old(out)@) + entry_positions(self@, p as int),
    {
        let n = self.entries[p].1.len();
        let ghost start = out@;
        let mut j: usize = 0;
        while j < n
            invariant
                p < self@.len(),
                n == self@[p as int].1.len(),
                j <= n,
                positions(out@) == positions(start) + Seq::new(j as nat, |k: int| (p as int, k)),
            decreases n - j,
        {
            let ghost before = out@;
            out.push((p, j));
            proof {
                assert(positions(out@) =~= positions(before).push((p as int, j as int)));
                assert(Seq::new((j + 1) as nat, |k: int| (p as int, k)) =~= Seq::new(
                    j as nat,
                    |k: int| (p as int, k),
                ).push((p as int, j as int)));
            }
            j = j + 1;
        }
        assert(Seq::new(n as nat, |k: int| (p as int, k)) =~= entry_positions(self@, p as int));
    }

    /// Positions of every entry matching `topic` (exact pattern, or a
    /// non-empty pattern that is a prefix of it), keeping only the first
    /// entry of each callback.
    pub fn matching_callbacks(&self, topic: &str) -> (r: Vec<(usize, usize)>)
        ensures
            positions(r@) == dedup_by_key(self@, candidates(self@, topic@)),
            forall|i: int| 0 <= i < r@.len() ==> valid_pos(self@, pos_int(#[trigger] r@[i])),
            patterns_distinct(self@) ==> forall|i: int, j: int|
                0 <= i < self@.len() && 0 <= j < self@[i].1.len() && subscribes_to(self@[i].0, topic@) ==> runs_callback(
                    self@,
                    r@,
                    (#[trigger] self@[i].1[j]).key,
                ),
            forall|k: int| 0 <= k < r@.len() ==> subscribes_to(self@[(#[trigger] r@[k]).0 as int].0, topic@),
    {
        let r = self.matching_callbacks_in_order(topic);
        proof {
            law_matched_subscriptions_subscribe(self@, topic@);
            let d = dedup_by_key(self@, candidates(self@, topic@));
            assert forall|k: int| 0 <= k < r@.len() implies #[trigger] pos_int(r@[k]) == d[k] by {}
            if patterns_distinct(self@) {
                assert forall|i: int, j: int|
                    0 <= i < self@.len() && 0 <= j < self@[i].1.len() && subscribes_to(self@[i].0, topic@) implies runs_callback(
                    self@,
                    r@,
                    (#[trigger] self@[i].1[j]).key,
                ) by {
                    law_matching_subscriptions_run(self@, topic@, i, j);
                    assert(exists|k: int| 0 <= k < d.len() && key_at(self@, #[trigger] d[k]) == self@[i].1[j].key);
                    let k = choose|k: int| 0 <= k < d.len() && key_at(self@, #[trigger] d[k]) == self@[i].1[j].key;
                    assert(pos_int(r@[k]) == d[k]);
                    assert(key_at(self@, pos_int(r@[k])) == self@[i].1[j].key);
                }
            }
            assert forall|k: int| 0 <= k < r@.len() implies subscribes_to(self@[(#[trigger] r@[k]).0 as int].0, topic@) by {
                assert(pos_int(r@[k]) == d[k]);
            }
        }
        r
    }

    fn matching_callbacks_in_order(&self, topic: &str) -> (r: Vec<(usize, usize)>)
        ensures
            positions(r@) == dedup_by_key(self@, candidates(self@, topic@)),
            forall|i: int| 0 <= i < r@.len() ==> valid_pos(self@, pos_int(#[trigger] r@[i])),
    {
        let mut cands: Vec<(usize, usize)> = Vec::new();
        let exact = self.find(topic);
        match exact {
            Some(e) => self.push_entries_of(e, &mut cands),
            None => {},
        }
        let ghost exact_part = positions(cands@);
        assert(exact_part =~= match pattern_index(self@, topic@) {
            Some(i) => entry_positions(self@, i),
            None => Seq::<(int, int)>::empty(),
        });
        let n = self.entries.len();
        let mut p: usize = 0;
        while p < n
            invariant
                n == self@.len(),
                p <= n,
                positions(cands@) == exact_part + prefix_positions(self@, topic@, p as int),
            decreases n - p,
        {
            let pattern = self.entries[p].0.as_str();
            if pattern.unicode_len() > 0 && !str_eq(pattern, topic) && starts_with(topic, pattern) {
                self.push_entries_of(p, &mut cands);
                assert(positions(cands@) =~= exact_part + prefix_positions(self@, topic@, p + 1));
            } else {
                assert(prefix_positions(self@, topic@, p + 1) == prefix_positions(self@, topic@, p as int));
            }
            p = p + 1;
        }
        proof {
            lemma_candidates_valid(self@, topic@);
            assert(positions(cands@) == candidates(self@, topic@));
            assert forall|k: int| 0 <= k < cands@.len() implies valid_pos(self@, pos_int(#[trigger] cands@[k])) by {
                assert(positions(cands@)[k] == pos_int(cands@[k]));
                assert(candidates(self@, topic@)[k] == positions(cands@)[k]);
            }
        }
        let mut res: Vec<(usize, usize)> = Vec::new();
        let mut seen: Vec<u64> = Vec::new();
        let mut i: usize = 0;
        while i < cands.len()
            invariant
                positions(cands@) == candidates(self@, topic@),
                forall|k: int| 0 <= k < cands@.len() ==> valid_pos(self@, pos_int(#[trigger] cands@[k])),
                i <= cands@.len(),
                positions(res@) == dedup_by_key(self@, positions(cands@).subrange(0, i as int)),
                seen@.len() == res@.len(),
                forall|k: int| 0 <= k < res@.len() ==> #[trigger] seen@[k] == key_at(self@, pos_int(res@[k])),
                forall|k: int| 0 <= k < res@.len() ==> valid_pos(self@, pos_int(#[trigger] res@[k])),
            decreases cands@.len() - i,
        {
            let pos = cands[i];
            let key = self.entries[pos.0].1[pos.1].key;
            let mut found = false;
            let mut k: usize = 0;
            while k < seen.len()
                invariant
                    k <= seen@.len(),
                    found == (exists|m: int| 0 <= m < k && seen@[m] == key),
                decreases seen@.len() - k,
            {
                if seen[k] == key {
                    found = true;
                }
                k = k + 1;
            }
            let ghost d = positions(res@);
            let ghost before_res = res@;
            proof {
                let sub = positions(cands@).subrange(0, i + 1);
                assert(sub.drop_last() =~= positions(cands@).subrange(0, i as int));
                assert(sub.last() == pos_int(pos));
                assert(key == key_at(self@, pos_int(pos)));
                assert(found == (exists|m: int| 0 <= m < d.len() && key_at(self@, #[trigger] d[m]) == key_at(self@, pos_int(pos)))) by {
                    if found {
                        let m = choose|m: int| 0 <= m < seen@.len() && seen@[m] == key;
                        assert(key_at(self@, d[m]) == key);
                    }
                    if exists|m: int| 0 <= m < d.len() && key_at(self@, #[trigger] d[m]) == key_at(self@, pos_int(pos)) {
                        let m = choose|m: int| 0 <= m < d.len() && key_at(self@, #[trigger] d[m]) == key_at(self@, pos_int(pos));
                        assert(seen@[m] == key);
                    }
                }
            }
            if !found {
                res.push(pos);
                seen.push(key);
                assert(positions(res@) =~= positions(before_res).push(pos_int(pos)));
            }
            i = i + 1;
        }
        assert(positions(cands@).subrange(0, cands@.len() as int) =~= positions(cands@));
        res
    }
}

/// The callback entry at position `pos` of `t`.
pub open spec fn entry_of<F, G>(t: TopicTable<F, G>, pos: (int, int)) -> SubscriptionCallback<F, G> {
    t[pos.0].1[pos.1]
}

/// Invoke `f` for each unique callback matching `topic` (exact or non-empty
/// prefix): once per entry of [`TopicCallbacks::matching_callbacks`], in that
/// order (the exact pattern's entries first).
pub fn for_each_matching_callback<F, G, H>(topic: &str, topic_callbacks: &TopicCallbacks<F, G>, f: H)
    where
        H: Fn(&SubscriptionCallback<F, G>),
    requires
        forall|e: &SubscriptionCallback<F, G>| f.requires((e,)),
    ensures
        forall|k: int| 0 <= k < dedup_by_key(topic_callbacks@, candidates(topic_callbacks@, topic@)).len() ==> f.ensures(
            (&entry_of(topic_callbacks@, #[trigger] dedup_by_key(topic_callbacks@, candidates(topic_callbacks@, topic@))[k]),),
            (),
        ),
{
    let found = topic_callbacks.matching_callbacks(topic);
    let ghost d = dedup_by_key(topic_callbacks@, candidates(topic_callbacks@, topic@));
    let mut i: usize = 0;
    while i < found.len()
        invariant
            forall|k: int| 0 <= k < found@.len() ==> valid_pos(topic_callbacks@, pos_int(#[trigger] found@[k])),
            forall|e: &SubscriptionCallback<F, G>| f.requires((e,)),
            positions(found@) == d,
            i <= found@.len(),
            forall|k: int| 0 <= k < i ==> f.ensures((&entry_of(topic_callbacks@, #[trigger] d[k]),), ()),
        decreases found@.len() - i,
    {
        let entry = topic_callbacks.entry_at(found[i]);
        f(entry);
        proof {
            assert(d[i as int] == pos_int(found@[i as int]));
        }
        i = i + 1;
    }
}

#[verifier::spinoff_prover]
#[verifier::rlimit(30)]
proof fn lemma_dedup<F, G>(t: TopicTable<F, G>, s: Seq<(int, int)>)
    ensures
        forall|i: int, j: int| 0 <= i < j < dedup_by_key(t, s).len() ==> key_at(t, #[trigger] dedup_by_key(t, s)[i])
            != key_at(t, #[trigger] dedup_by_key(t, s)[j]),
        forall|k: int| 0 <= k < s.len() ==> exists|i: int| 0 <= i < dedup_by_key(t, s).len() && key_at(t, #[trigger] dedup_by_key(t, s)[i])
            == key_at(t, #[trigger] s[k]),
        forall|i: int| 0 <= i < dedup_by_key(t, s).len() ==> s.contains(#[trigger] dedup_by_key(t, s)[i]),
    decreases s.len(),
{
    if s.len() > 0 {
        let p = s.drop_last();
        lemma_dedup(t, p);
        let d = dedup_by_key(t, p);
        let dd = dedup_by_key(t, s);
        assert forall|k: int| 0 <= k < s.len() implies exists|i: int| 0 <= i < dd.len() && key_at(t, #[trigger] dd[i])
            == key_at(t, #[trigger] s[k]) by {
            if k < s.len() - 1 {
                assert(s[k] == p[k]);
                let i = choose|i: int| 0 <= i < d.len() && key_at(t, #[trigger] d[i]) == key_at(t, p[k]);
                assert(dd[i] == d[i]);
            } else if exists|i: int| 0 <= i < d.len() && key_at(t, #[trigger] d[i]) == key_at(t, s.last()) {
                let i = choose|i: int| 0 <= i < d.len() && key_at(t, #[trigger] d[i]) == key_at(t, s.last());
                assert(dd[i] == d[i]);
            } else {
                assert(dd[d.len() as int] == s.last());
            }
        }
        assert forall|i: int| 0 <= i < dd.len() implies s.contains(#[trigger] dd[i]) by {
            if i < d.len() {
                assert(p.contains(d[i]));
                let j = choose|j: int| 0 <= j < p.len() && p[j] == d[i];
                assert(s[j] == p[j]);
            } else {
                assert(s[s.len() - 1] == s.last());
            }
        }
    }
}

/// Each callback runs at most once per message, and every callback whose
/// pattern matches the topic runs: the matched entries have pairwise distinct
/// callbacks, each one an entry of a matching pattern, and every matching
/// entry shares its callback with one of them.
pub proof fn law_each_matching_callback_once<F, G>(t: TopicTable<F, G>, topic: Seq<char>)
    ensures
        ({
            let d = dedup_by_key(t, candidates(t, topic));
            &&& forall|i: int, j: int| 0 <= i < j < d.len() ==> key_at(t, #[trigger] d[i]) != key_at(t, #[trigger] d[j])
            &&& forall|k: int| 0 <= k < candidates(t, topic).len() ==> exists|i: int| 0 <= i < d.len() && key_at(t, #[trigger] d[i])
                == key_at(t, #[trigger] candidates(t, topic)[k])
            &&& forall|i: int| 0 <= i < d.len() ==> candidates(t, topic).contains(#[trigger] d[i])
        }),
{
    lemma_dedup(t, candidates(t, topic));
}

proof fn lemma_add_exact<F, G>(t: TopicTable<F, G>, topic: Seq<char>, e: SubscriptionCallback<F, G>)
    ensures
        ({
            let t2 = spec_add(t, topic, e);
            &&& pattern_index(t2, topic) is Some
            &&& t2[pattern_index(t2, topic)->0].1.last() == e
            &&& t2[pattern_index(t2, topic)->0].1.len() > 0
        }),
{
    lemma_pattern_index(t, topic);
    let t2 = spec_add(t, topic, e);
    match pattern_index(t, topic) {
        Some(i) => {
            assert(t2 =~= t.update(i, (t[i].0, t[i].1.push(e))));
            lemma_pattern_index_same(t, t2, topic, i);
        },
        None => {
            assert(t2 == t.push((topic, seq![e])));
            assert(t2.drop_last() =~= t);
            assert(t2.last().0 == topic);
        },
    }
}

proof fn lemma_pattern_index_same<F, G>(t: TopicTable<F, G>, t2: TopicTable<F, G>, topic: Seq<char>, i: int)
    requires
        pattern_index(t, topic) == Some(i),
        t2.len() == t.len(),
        forall|j: int| 0 <= j < t.len() ==> (#[trigger] t2[j]).0 == t[j].0,
    ensures
        pattern_index(t2, topic) == Some(i),
    decreases t.len(),
{
    if t.len() > 0 && t.last().0 != topic {
        let d = t.drop_last();
        let d2 = t2.drop_last();
        assert forall|j: int| 0 <= j < d.len() implies (#[trigger] d2[j]).0 == d[j].0 by {
            assert(d2[j] == t2[j] && d[j] == t[j]);
        }
        lemma_pattern_index_same(d, d2, topic, i);
    }
}

/// A subscription reaches its callback: after subscribing `e` under `topic`,
/// a message on `topic` runs a callback with `e`'s identity.
pub proof fn law_subscribed_callback_matches<F, G>(t: TopicTable<F, G>, topic: Seq<char>, e: SubscriptionCallback<F, G>)
    ensures
        ({
            let t2 = spec_add(t, topic, e);
            let d = dedup_by_key(t2, candidates(t2, topic));
            exists|k: int| 0 <= k < d.len() && key_at(t2, #[trigger] d[k]) == e.key
        }),
{
    let t2 = spec_add(t, topic, e);
    lemma_add_exact(t, topic, e);
    let i = pattern_index(t2, topic)->0;
    let exact = entry_positions(t2, i);
    let c = candidates(t2, topic);
    let j = t2[i].1.len() - 1;
    assert(exact[j] == (i, j));
    assert(c[j] == exact[j]);
    assert(key_at(t2, c[j]) == e.key);
    lemma_dedup(t2, c);
}


/// Some matched position `r` holds a callback with identity `key`.
pub open spec fn runs_callback<F, G>(t: TopicTable<F, G>, r: Seq<(usize, usize)>, key: u64) -> bool {
    exists|k: int| 0 <= k < r.len() && key_at(t, pos_int(#[trigger] r[k])) == key
}

/// `pattern` subscribes to `topic`: it is the topic itself, or a non-empty
/// leading part of it.
pub open spec fn subscribes_to(pattern: Seq<char>, topic: Seq<char>) -> bool {
    pattern == topic || (0 < pattern.len() <= topic.len() && topic.subrange(0, pattern.len() as int) == pattern)
}

proof fn lemma_prefix_positions_has<F, G>(t: TopicTable<F, G>, topic: Seq<char>, k: int, i: int, j: int)
    requires
        0 <= i < k <= t.len(),
        0 <= j < t[i].1.len(),
        prefix_match(t[i].0, topic),
    ensures
        prefix_positions(t, topic, k).contains((i, j)),
    decreases k,
{
    let before = prefix_positions(t, topic, k - 1);
    if i < k - 1 {
        lemma_prefix_positions_has(t, topic, k - 1, i, j);
        let w = choose|w: int| 0 <= w < before.len() && before[w] == (i, j);
        if prefix_match(t[k - 1].0, topic) {
            assert((before + entry_positions(t, k - 1))[w] == (i, j));
        }
    } else {
        let e = entry_positions(t, k - 1);
        assert(e[j] == (i, j));
        assert((before + e)[before.len() + j] == (i, j));
    }
}

proof fn lemma_prefix_positions_match<F, G>(t: TopicTable<F, G>, topic: Seq<char>, k: int, w: int)
    requires
        0 <= k <= t.len(),
        0 <= w < prefix_positions(t, topic, k).len(),
    ensures
        0 <= prefix_positions(t, topic, k)[w].0 < k,
        prefix_match(t[prefix_positions(t, topic, k)[w].0].0, topic),
    decreases k,
{
    let before = prefix_positions(t, topic, k - 1);
    if w < before.len() {
        lemma_prefix_positions_match(t, topic, k - 1, w);
        if prefix_match(t[k - 1].0, topic) {
            assert((before + entry_positions(t, k - 1))[w] == before[w]);
        }
    } else {
        assert(prefix_match(t[k - 1].0, topic));
        assert((before + entry_positions(t, k - 1))[w] == entry_positions(t, k - 1)[w - before.len()]);
    }
}

proof fn lemma_entry_in_candidates<F, G>(t: TopicTable<F, G>, topic: Seq<char>, i: int, j: int)
    requires
        patterns_distinct(t),
        0 <= i < t.len(),
        0 <= j < t[i].1.len(),
        subscribes_to(t[i].0, topic),
    ensures
        candidates(t, topic).contains((i, j)),
{
    lemma_pattern_index(t, topic);
    let c = candidates(t, topic);
    let exact = match pattern_index(t, topic) {
        Some(x) => entry_positions(t, x),
        None => Seq::<(int, int)>::empty(),
    };
    let rest = prefix_positions(t, topic, t.len() as int);
    assert(c == exact + rest);
    if t[i].0 == topic {
        let pi = pattern_index(t, topic)->0;
        if pi != i {
            if pi < i {
                assert(t[pi].0 != t[i].0);
            } else {
                assert(t[i].0 != t[pi].0);
            }
        }
        assert(exact[j] == (i, j));
        assert(c[j] == (i, j));
    } else {
        assert(has_prefix(topic, t[i].0));
        lemma_prefix_positions_has(t, topic, t.len() as int, i, j);
        let v = choose|v: int| 0 <= v < rest.len() && rest[v] == (i, j);
        assert(c[exact.len() + v] == (i, j));
    }
}

/// Every subscription whose pattern subscribes to the topic runs on a
/// message of it: an entry under the topic itself or under a non-empty
/// leading part of it shares its callback with one of the matched entries,
/// whether or not the topic itself is subscribed too.
pub proof fn law_matching_subscriptions_run<F, G>(t: TopicTable<F, G>, topic: Seq<char>, i: int, j: int)
    requires
        patterns_distinct(t),
        0 <= i < t.len(),
        0 <= j < t[i].1.len(),
        subscribes_to(t[i].0, topic),
    ensures
        exists|k: int|
            0 <= k < dedup_by_key(t, candidates(t, topic)).len() && key_at(
                t,
                #[trigger] dedup_by_key(t, candidates(t, topic))[k],
            ) == t[i].1[j].key,
{
    let c = candidates(t, topic);
    let d = dedup_by_key(t, c);
    lemma_dedup(t, c);
    lemma_entry_in_candidates(t, topic, i, j);
    let w = choose|w: int| 0 <= w < c.len() && c[w] == (i, j);
    assert(key_at(t, c[w]) == t[i].1[j].key);
    let k = choose|k: int| 0 <= k < d.len() && key_at(t, #[trigger] d[k]) == key_at(t, #[trigger] c[w]);
    assert(key_at(t, d[k]) == t[i].1[j].key);
}

/// Only subscriptions whose pattern subscribes to the topic run: each
/// matched entry is an entry of the table under the topic itself or under a
/// non-empty leading part of it.
pub proof fn law_matched_subscriptions_subscribe<F, G>(t: TopicTable<F, G>, topic: Seq<char>)
    ensures
        forall|k: int| 0 <= k < dedup_by_key(t, candidates(t, topic)).len() ==> valid_pos(
            t,
            #[trigger] dedup_by_key(t, candidates(t, topic))[k],
        ) && subscribes_to(t[dedup_by_key(t, candidates(t, topic))[k].0].0, topic),
{
    let c = candidates(t, topic);
    let d = dedup_by_key(t, c);
    lemma_dedup(t, c);
    lemma_pattern_index(t, topic);
    lemma_candidates_valid(t, topic);
    let exact = match pattern_index(t, topic) {
        Some(i) => entry_positions(t, i),
        None => Seq::<(int, int)>::empty(),
    };
    let rest = prefix_positions(t, topic, t.len() as int);
    assert(c == exact + rest);
    assert forall|k: int| 0 <= k < d.len() implies valid_pos(t, #[trigger] d[k]) && subscribes_to(t[d[k].0].0, topic) by {
        assert(c.contains(d[k]));
        let w = choose|w: int| 0 <= w < c.len() && c[w] == d[k];
        assert(valid_pos(t, c[w]));
        if w < exact.len() {
            assert(c[w] == exact[w]);
        } else {
            assert(c[w] == rest[w - exact.len()]);
            lemma_prefix_positions_match(t, topic, t.len() as int, w - exact.len());
        }
    }
}

} // verus!
