//! Lexicographic order of texts, and lists of named entries kept in that order.
use vstd::prelude::*;
use crate::goal_table::{has_key, index_of, keys_distinct, lemma_index_of, table_map};
use crate::text::str_eq;

verus! {

/// `a` comes before `b` character by character (code point order), a proper
/// prefix coming first: the order of `String`'s comparison.
pub open spec fn lex_lt(a: Seq<char>, b: Seq<char>) -> bool
    decreases a.len(),
{
    if a.len() == 0 {
        b.len() > 0
    } else if b.len() == 0 {
        false
    } else if a[0] != b[0] {
        (a[0] as u32) < (b[0] as u32)
    } else {
        lex_lt(a.drop_first(), b.drop_first())
    }
}

proof fn lemma_lex_lt_skip(a: Seq<char>, b: Seq<char>, i: int)
    requires
        0 <= i <= a.len(),
        i <= b.len(),
        a.subrange(0, i) == b.subrange(0, i),
    ensures
        lex_lt(a, b) == lex_lt(a.subrange(i, a.len() as int), b.subrange(i, b.len() as int)),
    decreases i,
{
    if i == 0 {
        assert(a.subrange(0, a.len() as int) =~= a);
        assert(b.subrange(0, b.len() as int) =~= b);
    } else {
        assert(a[0] == a.subrange(0, i)[0]);
        assert(b[0] == b.subrange(0, i)[0]);
        let a1 = a.drop_first();
        let b1 = b.drop_first();
        assert(a1.subrange(0, i - 1) =~= a.subrange(0, i).drop_first());
        assert(b1.subrange(0, i - 1) =~= b.subrange(0, i).drop_first());
        lemma_lex_lt_skip(a1, b1, i - 1);
        assert(a1.subrange(i - 1, a1.len() as int) =~= a.subrange(i, a.len() as int));
        assert(b1.subrange(i - 1, b1.len() as int) =~= b.subrange(i, b.len() as int));
    }
}

proof fn lemma_lex_irrefl(a: Seq<char>)
    ensures
        !lex_lt(a, a),
    decreases a.len(),
{
    if a.len() > 0 {
        lemma_lex_irrefl(a.drop_first());
    }
}

/// Two different texts are ordered one way or the other, never both.
pub proof fn lemma_lex_total(a: Seq<char>, b: Seq<char>)
    ensures
        a != b ==> (lex_lt(a, b) || lex_lt(b, a)),
        !(lex_lt(a, b) && lex_lt(b, a)),
        !lex_lt(a, a),
    decreases a.len(),
{
    lemma_lex_irrefl(a);
    if a.len() > 0 && b.len() > 0 {
        lemma_lex_total(a.drop_first(), b.drop_first());
        if a[0] == b[0] && a != b {
            assert(a.drop_first() != b.drop_first()) by {
                if a.drop_first() == b.drop_first() {
                    assert(a =~= seq![a[0]] + a.drop_first());
                    assert(b =~= seq![b[0]] + b.drop_first());
                }
            }
        }
        if a[0] != b[0] {
            vstd::utf8::char_u32_cast(a[0], a[0] as u32);
            vstd::utf8::char_u32_cast(b[0], b[0] as u32);
            assert((a[0] as u32) != (b[0] as u32));
        }
    } else if a.len() == 0 && b.len() == 0 {
        assert(a =~= b);
    }
}

/// Whether `a` comes before `b`.
pub fn str_less(a: &str, b: &str) -> (r: bool)
    ensures
        r == lex_lt(a@, b@),
{
    let n = a.unicode_len();
    let m = b.unicode_len();
    let mut i: usize = 0;
    while i < n && i < m && a.get_char(i) == b.get_char(i)
        invariant
            n == a@.len(),
            m == b@.len(),
            i <= n,
            i <= m,
            a@.subrange(0, i as int) == b@.subrange(0, i as int),
        decreases n - i,
    {
        assert(a@.subrange(0, i + 1) =~= a@.subrange(0, i as int).push(a@[i as int]));
        assert(b@.subrange(0, i + 1) =~= b@.subrange(0, i as int).push(b@[i as int]));
        i = i + 1;
    }
    proof {
        lemma_lex_lt_skip(a@, b@, i as int);
    }
    if i == n {
        return i < m;
    }
    if i == m {
        return false;
    }
    let ca = a.get_char(i);
    let cb = b.get_char(i);
    assert(a@.subrange(i as int, n as int)[0] == ca);
    assert(b@.subrange(i as int, m as int)[0] == cb);
    (ca as u32) < (cb as u32)
}

/// Entry names in strictly increasing order.
pub open spec fn names_sorted<V>(s: Seq<(Seq<char>, V)>) -> bool {
    forall|i: int| 0 <= i < s.len() - 1 ==> lex_lt(#[trigger] s[i].0, s[i + 1].0)
}

/// A list of named entries, each name once, in increasing name order.
pub struct SortedEntries<V> {
    entries: Vec<(String, V)>,
}

impl<V> SortedEntries<V> {
    /// Names with their values, in order.
    pub closed spec fn view_seq(&self) -> Seq<(Seq<char>, V)> {
        Seq::new(self.entries@.len(), |i: int| (self.entries@[i].0@, self.entries@[i].1))
    }

    /// Each name once, in increasing order.
    pub open spec fn wf(&self) -> bool {
        keys_distinct(self.view_seq()) && names_sorted(self.view_seq())
    }

    /// Name → value.
    pub open spec fn map(&self) -> Map<Seq<char>, V> {
        table_map(self.view_seq())
    }

    /// No entries.
    pub fn new() -> (t: Self)
        ensures
            t.wf(),
            t.view_seq() == Seq::<(Seq<char>, V)>::empty(),
            t.map() == Map::<Seq<char>, V>::empty(),
    {
        let t = SortedEntries { entries: Vec::new() };
        assert(t.view_seq() =~= Seq::<(Seq<char>, V)>::empty());
        assert(t.map() =~= Map::<Seq<char>, V>::empty());
        t
    }

    /// Number of entries.
    pub fn len(&self) -> (n: usize)
        ensures
            n == self.view_seq().len(),
    {
        self.entries.len()
    }

    /// The entry at `i`.
    pub fn at(&self, i: usize) -> (r: (&str, &V))
        requires
            i < self.view_seq().len(),
        ensures
            r.0@ == self.view_seq()[i as int].0,
            *r.1 == self.view_seq()[i as int].1,
    {
        (self.entries[i].0.as_str(), &self.entries[i].1)
    }

    /// Index of `name`, if present.
    pub fn find(&self, name: &str) -> (r: Option<usize>)
        requires
            self.wf(),
        ensures
            r is Some <==> has_key(self.view_seq(), name@),
            r is Some <==> self.map().contains_key(name@),
            r matches Some(i) ==> i < self.view_seq().len() && self.view_seq()[i as int].0 == name@
                && index_of(self.view_seq(), name@) == i,
    {
        let mut i: usize = 0;
        while i < self.entries.len()
            invariant
                self.wf(),
                i <= self.entries@.len(),
                forall|j: int| 0 <= j < i ==> (#[trigger] self.view_seq()[j]).0 != name@,
            decreases self.entries@.len() - i,
        {
            if str_eq(self.entries[i].0.as_str(), name) {
                proof {
                    lemma_index_of(self.view_seq(), i as int);
                }
                return Some(i);
            }
            i = i + 1;
        }
        assert(!has_key(self.view_seq(), name@));
        None
    }

    /// Add `name` (not yet present) with `value` at its place in the order.
    pub fn insert_new(&mut self, name: String, value: V)
        requires
            old(self).wf(),
            !old(self).map().contains_key(name@),
        ensures
            final(self).wf(),
            final(self).map() == old(self).map().insert(name@, value),
    {
        let ghost s0 = self.view_seq();
        let mut i: usize = 0;
        while i < self.entries.len() && str_less(self.entries[i].0.as_str(), name.as_str())
            invariant
                i <= self.entries@.len(),
                self.view_seq() == s0,
                i > 0 ==> lex_lt(s0[i - 1].0, name@),
            decreases self.entries@.len() - i,
        {
            i = i + 1;
        }
        self.entries.insert(i, (name, value));
        let ghost s1 = self.view_seq();
        proof {
            let k = name@;
            assert(s1 =~= s0.insert(i as int, (k, value)));
            assert(!has_key(s0, k));
            if i < s0.len() {
                assert(s0[i as int].0 != k);
                assert(!lex_lt(s0[i as int].0, k));
                lemma_lex_total(s0[i as int].0, k);
            }
            assert forall|a: int, b: int| 0 <= a < b < s1.len() implies (#[trigger] s1[a]).0 != (#[trigger] s1[b]).0 by {
                if a == i {
                    let b0 = b - 1;
                    assert(s1[b] == s0[b0]);
                } else if b == i {
                    assert(s1[a] == s0[a]);
                } else {
                    let a0 = if a < i { a } else { a - 1 };
                    let b0 = if b < i { b } else { b - 1 };
                    assert(s1[a] == s0[a0] && s1[b] == s0[b0]);
                }
            }
            assert forall|j: int| 0 <= j < s1.len() - 1 implies lex_lt(#[trigger] s1[j].0, s1[j + 1].0) by {
                if j + 1 < i {
                    assert(s1[j] == s0[j] && s1[j + 1] == s0[j + 1]);
                } else if j + 1 == i {
                    assert(s1[j] == s0[j]);
                } else if j == i {
                    assert(s1[j + 1] == s0[j]);
                } else {
                    assert(s1[j] == s0[j - 1] && s1[j + 1] == s0[j]);
                }
            }
            assert forall|x: Seq<char>| #[trigger] has_key(s1, x) == (has_key(s0, x) || x == k) by {
                if has_key(s1, x) && x != k {
                    let j = choose|j: int| 0 <= j < s1.len() && (#[trigger] s1[j]).0 == x;
                    let j0 = if j < i { j } else { j - 1 };
                    assert(j != i);
                    assert(s0[j0].0 == x);
                }
                if has_key(s0, x) {
                    let j = choose|j: int| 0 <= j < s0.len() && (#[trigger] s0[j]).0 == x;
                    let j1 = if j < i { j } else { j + 1 };
                    assert(s1[j1].0 == x);
                }
                if x == k {
                    assert(s1[i as int].0 == x);
                }
            }
            assert forall|x: Seq<char>| has_key(s1, x) implies #[trigger] s1[index_of(s1, x)].1 == (if x == k {
                value
            } else {
                s0[index_of(s0, x)].1
            }) by {
                let j = index_of(s1, x);
                lemma_index_of(s1, j);
                if j != i {
                    let j0 = if j < i { j } else { j - 1 };
                    assert(s1[j] == s0[j0]);
                    lemma_index_of(s0, j0);
                }
            }
            assert(table_map(s1) =~= table_map(s0).insert(k, value));
        }
    }

    /// Replace the value at `i`, returning the old one.
    pub fn replace_at(&mut self, i: usize, value: V) -> (old_value: V)
        requires
            old(self).wf(),
            i < old(self).view_seq().len(),
        ensures
            final(self).wf(),
            old_value == old(self).view_seq()[i as int].1,
            final(self).map() == old(self).map().insert(old(self).view_seq()[i as int].0, value),
            final(self).view_seq() == old(self).view_seq().update(i as int, (old(self).view_seq()[i as int].0, value)),
    {
        let ghost s0 = self.view_seq();
        let mut v = value;
        std::mem::swap(&mut self.entries[i].1, &mut v);
        let ghost s1 = self.view_seq();
        proof {
            let k = s0[i as int].0;
            assert(s1 =~= s0.update(i as int, (k, value)));
            assert forall|a: int, b: int| 0 <= a < b < s1.len() implies (#[trigger] s1[a]).0 != (#[trigger] s1[b]).0 by {
                assert(s1[a].0 == s0[a].0 && s1[b].0 == s0[b].0);
            }
            assert forall|j: int| 0 <= j < s1.len() - 1 implies lex_lt(#[trigger] s1[j].0, s1[j + 1].0) by {
                assert(s1[j].0 == s0[j].0 && s1[j + 1].0 == s0[j + 1].0);
            }
            assert forall|x: Seq<char>| #[trigger] has_key(s1, x) == has_key(s0, x) by {
                if has_key(s1, x) {
                    let j = choose|j: int| 0 <= j < s1.len() && (#[trigger] s1[j]).0 == x;
                    assert(s0[j].0 == x);
                }
                if has_key(s0, x) {
                    let j = choose|j: int| 0 <= j < s0.len() && (#[trigger] s0[j]).0 == x;
                    assert(s1[j].0 == x);
                }
            }
            lemma_index_of(s0, i as int);
            assert forall|x: Seq<char>| has_key(s1, x) implies #[trigger] s1[index_of(s1, x)].1 == (if x == k {
                value
            } else {
                s0[index_of(s0, x)].1
            }) by {
                let j = index_of(s1, x);
                lemma_index_of(s1, j);
                lemma_index_of(s0, j);
            }
            assert(table_map(s1) =~= table_map(s0).insert(k, value));
        }
        v
    }

    /// Remove the entry at `i`, returning it.
    pub fn remove_at(&mut self, i: usize) -> (r: (String, V))
        requires
            old(self).wf(),
            i < old(self).view_seq().len(),
        ensures
            final(self).wf(),
            r.0@ == old(self).view_seq()[i as int].0,
            r.1 == old(self).view_seq()[i as int].1,
            final(self).map() == old(self).map().remove(old(self).view_seq()[i as int].0),
    {
        let ghost s0 = self.view_seq();
        let r = self.entries.remove(i);
        proof {
            assert(self.view_seq() =~= s0.remove(i as int));
            lemma_remove_sorted(s0, i as int);
            lemma_remove_map(s0, i as int);
        }
        r
    }
}

proof fn lemma_remove_sorted<V>(s0: Seq<(Seq<char>, V)>, i: int)
    requires
        keys_distinct(s0),
        names_sorted(s0),
        0 <= i < s0.len(),
    ensures
        keys_distinct(s0.remove(i)),
        names_sorted(s0.remove(i)),
{
    let s1 = s0.remove(i);
    assert forall|a: int, b: int| 0 <= a < b < s1.len() implies (#[trigger] s1[a]).0 != (#[trigger] s1[b]).0 by {
        let a0 = if a < i { a } else { a + 1 };
        let b0 = if b < i { b } else { b + 1 };
        assert(s1[a] == s0[a0] && s1[b] == s0[b0]);
    }
    assert forall|j: int| 0 <= j < s1.len() - 1 implies lex_lt(#[trigger] s1[j].0, s1[j + 1].0) by {
        if j + 1 < i {
            assert(s1[j] == s0[j] && s1[j + 1] == s0[j + 1]);
        } else if j + 1 == i {
            assert(s1[j] == s0[j] && s1[j + 1] == s0[j + 2]);
            lemma_lex_chain_gap(s0, j);
        } else {
            assert(s1[j] == s0[j + 1] && s1[j + 1] == s0[j + 2]);
        }
    }
}

proof fn lemma_remove_map<V>(s0: Seq<(Seq<char>, V)>, i: int)
    requires
        keys_distinct(s0),
        keys_distinct(s0.remove(i)),
        0 <= i < s0.len(),
    ensures
        table_map(s0.remove(i)) == table_map(s0).remove(s0[i].0),
{
    let s1 = s0.remove(i);
    let k = s0[i].0;
    lemma_index_of(s0, i);
    assert forall|x: Seq<char>| #[trigger] has_key(s1, x) == (has_key(s0, x) && x != k) by {
        if has_key(s1, x) {
            let j = choose|j: int| 0 <= j < s1.len() && (#[trigger] s1[j]).0 == x;
            let j0 = if j < i { j } else { j + 1 };
            assert(s0[j0].0 == x);
            if x == k {
                lemma_index_of(s0, j0);
            }
        }
        if has_key(s0, x) && x != k {
            let j = choose|j: int| 0 <= j < s0.len() && (#[trigger] s0[j]).0 == x;
            assert(j != i);
            let j1 = if j < i { j } else { j - 1 };
            assert(s1[j1].0 == x);
        }
    }
    assert forall|x: Seq<char>| has_key(s1, x) implies #[trigger] s1[index_of(s1, x)].1 == s0[index_of(s0, x)].1 by {
        let j = index_of(s1, x);
        lemma_index_of(s1, j);
        let j0 = if j < i { j } else { j + 1 };
        assert(s1[j] == s0[j0]);
        lemma_index_of(s0, j0);
    }
    assert(table_map(s1) =~= table_map(s0).remove(k));
}

/// Removing an element between two sorted neighbours keeps them ordered.
proof fn lemma_lex_chain_gap<V>(s: Seq<(Seq<char>, V)>, j: int)
    requires
        names_sorted(s),
        0 <= j,
        j + 2 < s.len(),
    ensures
        lex_lt(s[j].0, s[j + 2].0),
{
    assert(lex_lt(s[j].0, s[j + 1].0));
    assert(lex_lt(s[j + 1].0, s[j + 2].0));
    lemma_lex_trans(s[j].0, s[j + 1].0, s[j + 2].0);
}

/// The order is transitive.
pub proof fn lemma_lex_trans(a: Seq<char>, b: Seq<char>, c: Seq<char>)
    requires
        lex_lt(a, b),
        lex_lt(b, c),
    ensures
        lex_lt(a, c),
    decreases a.len(),
{
    if a.len() > 0 && b.len() > 0 && c.len() > 0 {
        if a[0] == b[0] && b[0] == c[0] {
            lemma_lex_trans(a.drop_first(), b.drop_first(), c.drop_first());
        }
    }
}

} // verus!
