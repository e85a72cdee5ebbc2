//! Per-goal table of an action socket: the callback of each goal a client
//! sent, or the cancel flag of each goal a worker runs.
use vstd::prelude::*;
use crate::text::str_eq;

verus! {

/// Entries keyed by goal id, each id at most once.
pub struct GoalTable<V> {
    entries: Vec<(String, V)>,
}

/// Goal ids of the entries are pairwise distinct.
pub open spec fn keys_distinct<V>(s: Seq<(Seq<char>, V)>) -> bool {
    forall|i: int, j: int| 0 <= i < j < s.len() ==> (#[trigger] s[i]).0 != (#[trigger] s[j]).0
}

/// Some entry has goal id `k`.
pub open spec fn has_key<V>(s: Seq<(Seq<char>, V)>, k: Seq<char>) -> bool {
    exists|i: int| 0 <= i < s.len() && (#[trigger] s[i]).0 == k
}

/// Index of an entry with goal id `k`.
pub open spec fn index_of<V>(s: Seq<(Seq<char>, V)>, k: Seq<char>) -> int {
    choose|i: int| 0 <= i < s.len() && (#[trigger] s[i]).0 == k
}

/// The entries as a map from goal id to value.
pub open spec fn table_map<V>(s: Seq<(Seq<char>, V)>) -> Map<Seq<char>, V> {
    Map::new(|k: Seq<char>| has_key(s, k), |k: Seq<char>| s[index_of(s, k)].1)
}

pub proof fn lemma_index_of<V>(s: Seq<(Seq<char>, V)>, i: int)
    requires
        keys_distinct(s),
        0 <= i < s.len(),
    ensures
        has_key(s, s[i].0),
        index_of(s, s[i].0) == i,
{
    let k = s[i].0;
    assert(s[i].0 == k);
    let j = index_of(s, k);
    assert(0 <= j < s.len() && s[j].0 == k);
    if j < i {
        assert(s[j].0 != s[i].0);
    } else if j > i {
        assert(s[i].0 != s[j].0);
    }
}

impl<V> GoalTable<V> {
    spec fn entries_view(&self) -> Seq<(Seq<char>, V)> {
        Seq::new(self.entries@.len(), |i: int| (self.entries@[i].0@, self.entries@[i].1))
    }

    /// The table's entries are keyed by distinct goal ids.
    pub closed spec fn wf(&self) -> bool {
        keys_distinct(self.entries_view())
    }

    /// Goal id → value.
    pub closed spec fn map(&self) -> Map<Seq<char>, V> {
        table_map(self.entries_view())
    }

    /// An empty table.
    pub fn new() -> (t: Self)
        ensures
            t.wf(),
            t.map() == Map::<Seq<char>, V>::empty(),
    {
        let t = GoalTable { entries: Vec::new() };
        assert(t.map() =~= Map::<Seq<char>, V>::empty());
        t
    }

    fn find(&self, goal_id: &str) -> (r: Option<usize>)
        requires
            self.wf(),
        ensures
            r is Some <==> has_key(self.entries_view(), goal_id@),
            r matches Some(i) ==> i < self.entries@.len() && self.entries_view()[i as int].0 == goal_id@
                && index_of(self.entries_view(), goal_id@) == i,
    {
        let mut i: usize = 0;
        while i < self.entries.len()
            invariant
                self.wf(),
                i <= self.entries@.len(),
                forall|j: int| 0 <= j < i ==> (#[trigger] self.entries_view()[j]).0 != goal_id@,
            decreases self.entries@.len() - i,
        {
            if str_eq(self.entries[i].0.as_str(), goal_id) {
                proof {
                    lemma_index_of(self.entries_view(), i as int);
                }
                return Some(i);
            }
            i = i + 1;
        }
        assert(!has_key(self.entries_view(), goal_id@));
        None
    }

    /// Whether `goal_id` has an entry.
    pub fn contains(&self, goal_id: &str) -> (r: bool)
        requires
            self.wf(),
        ensures
            r == self.map().contains_key(goal_id@),
    {
        self.find(goal_id).is_some()
    }

    /// The value of `goal_id`, if any.
    pub fn get(&self, goal_id: &str) -> (r: Option<&V>)
        requires
            self.wf(),
        ensures
            match r {
                Some(v) => self.map().contains_key(goal_id@) && *v == self.map()[goal_id@],
                None => !self.map().contains_key(goal_id@),
            },
    {
        match self.find(goal_id) {
            Some(i) => Some(&self.entries[i].1),
            None => None,
        }
    }

    /// Set the value of `goal_id`, returning the value it replaces.
    pub fn insert(&mut self, goal_id: String, value: V) -> (old_value: Option<V>)
        requires
            old(self).wf(),
        ensures
            final(self).wf(),
            final(self).map() == old(self).map().insert(goal_id@, value),
            match old_value {
                Some(v) => old(self).map().contains_key(goal_id@) && v == old(self).map()[goal_id@],
                None => !old(self).map().contains_key(goal_id@),
            },
    {
        let ghost s0 = self.entries_view();
        match self.find(goal_id.as_str()) {
            Some(i) => {
                let mut v = value;
                std::mem::swap(&mut self.entries[i].1, &mut v);
                let ghost s1 = self.entries_view();
                proof {
                    assert(s1 =~= s0.update(i as int, (goal_id@, value)));
                    assert forall|a: int, b: int| 0 <= a < b < s1.len() implies (#[trigger] s1[a]).0 != (#[trigger] s1[b]).0 by {
                        assert(s1[a].0 == s0[a].0 && s1[b].0 == s0[b].0);
                    }
                    assert forall|k: Seq<char>| #[trigger] has_key(s1, k) == has_key(s0, k) by {
                        if has_key(s1, k) {
                            let j = choose|j: int| 0 <= j < s1.len() && (#[trigger] s1[j]).0 == k;
                            assert(s0[j].0 == k);
                        }
                        if has_key(s0, k) {
                            let j = choose|j: int| 0 <= j < s0.len() && (#[trigger] s0[j]).0 == k;
                            assert(s1[j].0 == k);
                        }
                    }
                    assert forall|k: Seq<char>| has_key(s1, k) implies #[trigger] s1[index_of(s1, k)].1 == (if k == goal_id@ {
                        value
                    } else {
                        s0[index_of(s0, k)].1
                    }) by {
                        let j = index_of(s1, k);
                        lemma_index_of(s1, j);
                        lemma_index_of(s0, j);
                    }
                    assert(table_map(s1) =~= table_map(s0).insert(goal_id@, value));
                }
                Some(v)
            },
            None => {
                self.entries.push((goal_id, value));
                let ghost s1 = self.entries_view();
                proof {
                    assert(s1 =~= s0.push((goal_id@, value)));
                    assert forall|a: int, b: int| 0 <= a < b < s1.len() implies (#[trigger] s1[a]).0 != (#[trigger] s1[b]).0 by {
                        if b == s0.len() {
                            assert(s0[a].0 == s1[a].0);
                        } else {
                            assert(s1[a].0 == s0[a].0 && s1[b].0 == s0[b].0);
                        }
                    }
                    assert forall|k: Seq<char>| #[trigger] has_key(s1, k) == (has_key(s0, k) || k == goal_id@) by {
                        if has_key(s1, k) && k != goal_id@ {
                            let j = choose|j: int| 0 <= j < s1.len() && (#[trigger] s1[j]).0 == k;
                            assert(j < s0.len());
                            assert(s0[j].0 == k);
                        }
                        if has_key(s0, k) {
                            let j = choose|j: int| 0 <= j < s0.len() && (#[trigger] s0[j]).0 == k;
                            assert(s1[j].0 == k);
                        }
                        if k == goal_id@ {
                            assert(s1[s0.len() as int].0 == k);
                        }
                    }
                    assert forall|k: Seq<char>| has_key(s1, k) implies #[trigger] s1[index_of(s1, k)].1 == (if k == goal_id@ {
                        value
                    } else {
                        s0[index_of(s0, k)].1
                    }) by {
                        let j = index_of(s1, k);
                        lemma_index_of(s1, j);
                        if j < s0.len() {
                            lemma_index_of(s0, j);
                        }
                    }
                    assert(table_map(s1) =~= table_map(s0).insert(goal_id@, value));
                }
                None
            },
        }
    }

    /// Remove the entry of `goal_id`, returning its value.
    pub fn remove(&mut self, goal_id: &str) -> (removed: Option<V>)
        requires
            old(self).wf(),
        ensures
            final(self).wf(),
            final(self).map() == old(self).map().remove(goal_id@),
            match removed {
                Some(v) => old(self).map().contains_key(goal_id@) && v == old(self).map()[goal_id@],
                None => !old(self).map().contains_key(goal_id@),
            },
    {
        let ghost s0 = self.entries_view();
        match self.find(goal_id) {
            Some(i) => {
                let (_, v) = self.entries.remove(i);
                let ghost s1 = self.entries_view();
                proof {
                    assert(s1 =~= s0.remove(i as int));
                    assert forall|a: int, b: int| 0 <= a < b < s1.len() implies (#[trigger] s1[a]).0 != (#[trigger] s1[b]).0 by {
                        let a0 = if a < i { a } else { a + 1 };
                        let b0 = if b < i { b } else { b + 1 };
                        assert(s1[a] == s0[a0] && s1[b] == s0[b0]);
                    }
                    assert forall|k: Seq<char>| #[trigger] has_key(s1, k) == (has_key(s0, k) && k != goal_id@) by {
                        if has_key(s1, k) {
                            let j = choose|j: int| 0 <= j < s1.len() && (#[trigger] s1[j]).0 == k;
                            let j0 = if j < i { j } else { j + 1 };
                            assert(s0[j0].0 == k);
                            assert(j0 != i);
                            if k == goal_id@ {
                                lemma_index_of(s0, j0);
                            }
                        }
                        if has_key(s0, k) && k != goal_id@ {
                            let j = choose|j: int| 0 <= j < s0.len() && (#[trigger] s0[j]).0 == k;
                            assert(j != i);
                            let j1 = if j < i { j } else { j - 1 };
                            assert(s1[j1].0 == k);
                        }
                    }
                    assert forall|k: Seq<char>| has_key(s1, k) implies #[trigger] s1[index_of(s1, k)].1 == s0[index_of(
                        s0,
                        k,
                    )].1 by {
                        let j = index_of(s1, k);
                        lemma_index_of(s1, j);
                        let j0 = if j < i { j } else { j + 1 };
                        assert(s1[j] == s0[j0]);
                        lemma_index_of(s0, j0);
                    }
                    assert(table_map(s1) =~= table_map(s0).remove(goal_id@));
                }
                Some(v)
            },
            None => {
                assert(table_map(s0) =~= table_map(s0).remove(goal_id@));
                None
            },
        }
    }

    /// Number of goals in the table.
    pub fn len(&self) -> (n: usize)
        requires
            self.wf(),
        ensures
            n == self.map().len(),
    {
        proof {
            lemma_table_len(self.entries_view());
        }
        self.entries.len()
    }
}

/// A table of distinct names has one entry per name.
pub proof fn lemma_table_len<V>(s: Seq<(Seq<char>, V)>)
    requires
        keys_distinct(s),
    ensures
        table_map(s).dom().finite(),
        table_map(s).len() == s.len(),
    decreases s.len(),
{
    if s.len() == 0 {
        assert(table_map(s).dom() =~= Set::<Seq<char>>::empty());
    } else {
        let p = s.drop_last();
        assert forall|a: int, b: int| 0 <= a < b < p.len() implies (#[trigger] p[a]).0 != (#[trigger] p[b]).0 by {
            assert(p[a] == s[a] && p[b] == s[b]);
        }
        lemma_table_len(p);
        let k = s.last().0;
        assert(table_map(s).dom() =~= table_map(p).dom().insert(k)) by {
            assert forall|x: Seq<char>| #[trigger] has_key(s, x) == (has_key(p, x) || x == k) by {
                if has_key(s, x) && x != k {
                    let j = choose|j: int| 0 <= j < s.len() && (#[trigger] s[j]).0 == x;
                    assert(p[j].0 == x);
                }
                if has_key(p, x) {
                    let j = choose|j: int| 0 <= j < p.len() && (#[trigger] p[j]).0 == x;
                    assert(s[j].0 == x);
                }
                if x == k {
                    assert(s[s.len() - 1].0 == x);
                }
            }
        }
        assert(!table_map(p).dom().contains(k)) by {
            if has_key(p, k) {
                let j = choose|j: int| 0 <= j < p.len() && (#[trigger] p[j]).0 == k;
                assert(s[j].0 == s[s.len() - 1].0);
            }
        }
    }
}

/// What a table gives back of a write: after `insert(g, v)`, `get(g)` is `v`
/// and every other goal keeps its value; after `remove(g)`, `g` is gone and
/// every other goal keeps its value.
pub proof fn law_goal_table_read_after_write<V>(m: Map<Seq<char>, V>, g: Seq<char>, v: V, other: Seq<char>)
    requires
        other != g,
    ensures
        m.insert(g, v).contains_key(g) && m.insert(g, v)[g] == v,
        m.insert(g, v).contains_key(other) == m.contains_key(other),
        m.contains_key(other) ==> m.insert(g, v)[other] == m[other],
        !m.remove(g).contains_key(g),
        m.remove(g).contains_key(other) == m.contains_key(other),
        m.contains_key(other) ==> m.remove(g)[other] == m[other],
{
}

} // verus!
