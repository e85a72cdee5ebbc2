//! Local node parameters (ROS 2–style declare / get / set / list).
//!
//! A `Double` value is held as the bit pattern of its IEEE 754 `f64`.
use vstd::prelude::*;
use crate::double_bits::{int_to_double, spec_int_to_double, spec_whole_to_i64, whole_to_i64};
use crate::errors::{BusError, ErrorView};
use crate::text::{has_prefix, starts_with, str_eq};
use crate::goal_table::{has_key, index_of, lemma_index_of};
use crate::ordering::{names_sorted, SortedEntries};

verus! {

/// Unlimited depth when listing (ROS 2 `DEPTH_RECURSIVE` / `0`).
pub const PARAMETER_DEPTH_RECURSIVE: u64 = 0;

/// Scalar parameter value (no arrays or nested types).
#[derive(Debug)]
pub enum ParameterValue {
    Bool(bool),
    Integer(i64),
    /// Bits of an `f64`.
    Double(u64),
    String(String),
}

/// Spec view of a [`ParameterValue`].
pub enum ValueView {
    Bool(bool),
    Integer(i64),
    Double(u64),
    String(Seq<char>),
}

impl View for ParameterValue {
    type V = ValueView;

    open spec fn view(&self) -> ValueView {
        match self {
            ParameterValue::Bool(b) => ValueView::Bool(*b),
            ParameterValue::Integer(i) => ValueView::Integer(*i),
            ParameterValue::Double(d) => ValueView::Double(*d),
            ParameterValue::String(s) => ValueView::String(s@),
        }
    }
}

/// Discriminant name of a value (`bool`, `integer`, `double`, `string`).
pub open spec fn value_type_name(v: ValueView) -> Seq<char> {
    match v {
        ValueView::Bool(_) => "bool"@,
        ValueView::Integer(_) => "integer"@,
        ValueView::Double(_) => "double"@,
        ValueView::String(_) => "string"@,
    }
}

/// Both values have the same variant.
pub open spec fn same_variant(a: ValueView, b: ValueView) -> bool {
    match (a, b) {
        (ValueView::Bool(_), ValueView::Bool(_)) => true,
        (ValueView::Integer(_), ValueView::Integer(_)) => true,
        (ValueView::Double(_), ValueView::Double(_)) => true,
        (ValueView::String(_), ValueView::String(_)) => true,
        _ => false,
    }
}

pub open spec fn mismatch(name: Seq<char>, expected: Seq<char>, got: Seq<char>) -> ErrorView {
    ErrorView::ParameterTypeMismatch { name, expected, got }
}

impl ParameterValue {
    /// Discriminant name for error messages (`bool`, `integer`, …).
    pub fn kind_name(&self) -> (r: &'static str)
        ensures
            r@ == value_type_name(self@),
    {
        match self {
            ParameterValue::Bool(_) => "bool",
            ParameterValue::Integer(_) => "integer",
            ParameterValue::Double(_) => "double",
            ParameterValue::String(_) => "string",
        }
    }

    /// Whether `other` has the same variant (ignoring payload).
    pub fn same_type(&self, other: &Self) -> (r: bool)
        ensures
            r == same_variant(self@, other@),
    {
        match (self, other) {
            (ParameterValue::Bool(_), ParameterValue::Bool(_)) => true,
            (ParameterValue::Integer(_), ParameterValue::Integer(_)) => true,
            (ParameterValue::Double(_), ParameterValue::Double(_)) => true,
            (ParameterValue::String(_), ParameterValue::String(_)) => true,
            _ => false,
        }
    }

    /// A copy of the value.
    pub fn duplicate(&self) -> (r: Self)
        ensures
            r@ == self@,
    {
        match self {
            ParameterValue::Bool(b) => ParameterValue::Bool(*b),
            ParameterValue::Integer(i) => ParameterValue::Integer(*i),
            ParameterValue::Double(d) => ParameterValue::Double(*d),
            ParameterValue::String(s) => ParameterValue::String(s.clone()),
        }
    }

    /// ROS 2–style `as_bool()`.
    pub fn as_bool(&self) -> (r: Result<bool, BusError>)
        ensures
            self@ matches ValueView::Bool(b) ==> r == Ok::<bool, BusError>(b),
            self@ !is Bool ==> (r matches Err(e) && e@ == mismatch(Seq::empty(), "bool"@, value_type_name(self@))),
    {
        match self {
            ParameterValue::Bool(v) => Ok(*v),
            other => Err(unnamed_mismatch("bool", other.kind_name())),
        }
    }

    /// ROS 2–style `as_int()`.
    pub fn as_int(&self) -> (r: Result<i64, BusError>)
        ensures
            self@ matches ValueView::Integer(i) ==> r == Ok::<i64, BusError>(i),
            self@ !is Integer ==> (r matches Err(e) && e@ == mismatch(Seq::empty(), "integer"@, value_type_name(self@))),
    {
        match self {
            ParameterValue::Integer(v) => Ok(*v),
            other => Err(unnamed_mismatch("integer", other.kind_name())),
        }
    }

    /// ROS 2–style `as_double()`, as the `f64` bits.
    pub fn as_double(&self) -> (r: Result<u64, BusError>)
        ensures
            self@ matches ValueView::Double(d) ==> r == Ok::<u64, BusError>(d),
            self@ !is Double ==> (r matches Err(e) && e@ == mismatch(Seq::empty(), "double"@, value_type_name(self@))),
    {
        match self {
            ParameterValue::Double(v) => Ok(*v),
            other => Err(unnamed_mismatch("double", other.kind_name())),
        }
    }

    /// ROS 2–style `as_string()`.
    pub fn as_string(&self) -> (r: Result<&str, BusError>)
        ensures
            self@ matches ValueView::String(s) ==> (r matches Ok(x) && x@ == s),
            self@ !is String ==> (r matches Err(e) && e@ == mismatch(Seq::empty(), "string"@, value_type_name(self@))),
    {
        match self {
            ParameterValue::String(v) => Ok(v.as_str()),
            other => Err(unnamed_mismatch("string", other.kind_name())),
        }
    }
}

fn unnamed_mismatch(expected: &str, got: &str) -> (e: BusError)
    ensures
        e@ == mismatch(Seq::empty(), expected@, got@),
{
    BusError::ParameterTypeMismatch { name: String::new(), expected: expected.to_owned(), got: got.to_owned() }
}

fn type_mismatch(name: &str, expected: &str, got: &str) -> (e: BusError)
    ensures
        e@ == mismatch(name@, expected@, got@),
{
    BusError::ParameterTypeMismatch { name: name.to_owned(), expected: expected.to_owned(), got: got.to_owned() }
}

/// Named parameter snapshot (ROS 2 `rclcpp::Parameter`).
#[derive(Debug)]
pub struct Parameter {
    pub name: String,
    pub value: ParameterValue,
}

impl Parameter {
    /// Parameter `name` with `value`.
    pub fn new(name: &str, value: ParameterValue) -> (p: Self)
        ensures
            p.name@ == name@,
            p.value@ == value@,
    {
        Parameter { name: name.to_owned(), value }
    }

    pub fn as_bool(&self) -> (r: Result<bool, BusError>)
        ensures
            self.value@ matches ValueView::Bool(b) ==> r == Ok::<bool, BusError>(b),
            self.value@ !is Bool ==> (r matches Err(e) && e@ == mismatch(self.name@, "bool"@, value_type_name(self.value@))),
    {
        match &self.value {
            ParameterValue::Bool(v) => Ok(*v),
            other => Err(type_mismatch(self.name.as_str(), "bool", other.kind_name())),
        }
    }

    pub fn as_int(&self) -> (r: Result<i64, BusError>)
        ensures
            self.value@ matches ValueView::Integer(i) ==> r == Ok::<i64, BusError>(i),
            self.value@ !is Integer ==> (r matches Err(e) && e@ == mismatch(self.name@, "integer"@, value_type_name(self.value@))),
    {
        match &self.value {
            ParameterValue::Integer(v) => Ok(*v),
            other => Err(type_mismatch(self.name.as_str(), "integer", other.kind_name())),
        }
    }

    /// The value as `f64` bits.
    pub fn as_double(&self) -> (r: Result<u64, BusError>)
        ensures
            self.value@ matches ValueView::Double(d) ==> r == Ok::<u64, BusError>(d),
            self.value@ !is Double ==> (r matches Err(e) && e@ == mismatch(self.name@, "double"@, value_type_name(self.value@))),
    {
        match &self.value {
            ParameterValue::Double(v) => Ok(*v),
            other => Err(type_mismatch(self.name.as_str(), "double", other.kind_name())),
        }
    }

    pub fn as_string(&self) -> (r: Result<&str, BusError>)
        ensures
            self.value@ matches ValueView::String(s) ==> (r matches Ok(x) && x@ == s),
            self.value@ !is String ==> (r matches Err(e) && e@ == mismatch(self.name@, "string"@, value_type_name(self.value@))),
    {
        match &self.value {
            ParameterValue::String(v) => Ok(v.as_str()),
            other => Err(type_mismatch(self.name.as_str(), "string", other.kind_name())),
        }
    }
}

/// Result of listing parameters (ROS 2 shape).
#[derive(Debug)]
pub struct ListParametersResult {
    /// Matching parameter names.
    pub names: Vec<String>,
    /// Unique parent prefixes among matches (dot-separated).
    pub prefixes: Vec<String>,
}

/// Number of `c` in `s`.
pub open spec fn count_char(s: Seq<char>, c: char) -> nat
    decreases s.len(),
{
    if s.len() == 0 {
        0
    } else {
        count_char(s.drop_last(), c) + (if s.last() == c { 1nat } else { 0nat })
    }
}

/// Number of non-empty `.`-separated segments of `s`.
pub open spec fn segments(s: Seq<char>) -> nat
    decreases s.len(),
{
    if s.len() == 0 {
        0
    } else {
        segments(s.drop_last()) + (if s.last() != '.' && (s.len() == 1 || s[s.len() - 2] == '.') {
            1nat
        } else {
            0nat
        })
    }
}

/// `levels` fits within `depth` (0 means unlimited).
pub open spec fn depth_ok(levels: nat, depth: u64) -> bool {
    depth == PARAMETER_DEPTH_RECURSIVE || levels <= depth
}

/// `name` is listed under `prefix` at `depth`: an empty prefix takes every
/// name of at most `depth` levels; otherwise the prefix itself, and names
/// below `prefix.` at most `depth` levels deeper.
pub open spec fn spec_matches_prefix(name: Seq<char>, prefix: Seq<char>, depth: u64) -> bool {
    if prefix.len() == 0 {
        depth_ok(count_char(name, '.') + 1, depth)
    } else if name == prefix {
        true
    } else if has_prefix(name, prefix + "."@) {
        depth_ok(segments(name.subrange(prefix.len() as int + 1, name.len() as int)), depth)
    } else {
        false
    }
}

/// `name` is listed for `prefixes` at `depth` (no prefixes: the whole tree).
pub open spec fn spec_matches_prefixes(name: Seq<char>, prefixes: Seq<Seq<char>>, depth: u64) -> bool {
    if prefixes.len() == 0 {
        depth_ok(count_char(name, '.') + 1, depth)
    } else {
        exists|i: int| 0 <= i < prefixes.len() && spec_matches_prefix(name, #[trigger] prefixes[i], depth)
    }
}

fn count_dots(s: &str) -> (n: u64)
    ensures
        n == count_char(s@, '.'),
        n <= s@.len(),
{
    let len = s.unicode_len();
    let mut i: usize = 0;
    let mut n: u64 = 0;
    while i < len
        invariant
            len == s@.len(),
            i <= len,
            n == count_char(s@.subrange(0, i as int), '.'),
            n <= i,
        decreases len - i,
    {
        proof {
            assert(s@.subrange(0, i + 1).drop_last() =~= s@.subrange(0, i as int));
        }
        if s.get_char(i) == '.' {
            n = n + 1;
        }
        i = i + 1;
    }
    assert(s@.subrange(0, len as int) =~= s@);
    n
}

fn count_segments(s: &str) -> (n: u64)
    ensures
        n == segments(s@),
{
    let len = s.unicode_len();
    let mut i: usize = 0;
    let mut n: u64 = 0;
    while i < len
        invariant
            len == s@.len(),
            i <= len,
            n == segments(s@.subrange(0, i as int)),
            n <= i,
        decreases len - i,
    {
        let ghost sub = s@.subrange(0, i + 1);
        proof {
            assert(sub.drop_last() =~= s@.subrange(0, i as int));
        }
        let c = s.get_char(i);
        if c != '.' && (i == 0 || s.get_char(i - 1) == '.') {
            n = n + 1;
        }
        i = i + 1;
    }
    assert(s@.subrange(0, len as int) =~= s@);
    n
}

fn depth_fits(levels: u64, depth: u64) -> (r: bool)
    ensures
        r == depth_ok(levels as nat, depth),
{
    depth == PARAMETER_DEPTH_RECURSIVE || levels <= depth
}

/// Whether `name` is listed under `prefix` at `depth`.
pub fn parameter_matches_prefix(name: &str, prefix: &str, depth: u64) -> (r: bool)
    ensures
        r == spec_matches_prefix(name@, prefix@, depth),
{
    if prefix.unicode_len() == 0 {
        let dots = count_dots(name);
        return depth == PARAMETER_DEPTH_RECURSIVE || dots < depth;
    }
    if str_eq(name, prefix) {
        return true;
    }
    let mut dotted = prefix.to_owned();
    dotted.append(".");
    proof {
        reveal_strlit(".");
    }
    if starts_with(name, dotted.as_str()) {
        let n = name.unicode_len();
        let m = prefix.unicode_len() + 1;
        assert(dotted@ == prefix@ + "."@);
        let rest = name.substring_char(m, n);
        depth_fits(count_segments(rest), depth)
    } else {
        false
    }
}

/// Whether `name` is listed for `prefixes` at `depth`.
pub fn parameter_matches_prefixes(name: &str, prefixes: &Vec<String>, depth: u64) -> (r: bool)
    ensures
        r == spec_matches_prefixes(name@, prefixes@.map_values(|p: String| p@), depth),
{
    let ghost ps = prefixes@.map_values(|p: String| p@);
    if prefixes.len() == 0 {
        let dots = count_dots(name);
        return depth == PARAMETER_DEPTH_RECURSIVE || dots < depth;
    }
    let mut i: usize = 0;
    while i < prefixes.len()
        invariant
            i <= prefixes@.len(),
            ps == prefixes@.map_values(|p: String| p@),
            forall|j: int| 0 <= j < i ==> !spec_matches_prefix(name@, #[trigger] ps[j], depth),
        decreases prefixes@.len() - i,
    {
        if parameter_matches_prefix(name, prefixes[i].as_str(), depth) {
            assert(spec_matches_prefix(name@, ps[i as int], depth));
            return true;
        }
        i = i + 1;
    }
    false
}

/// Parent prefixes of `name`: the text before each `.` in it, in order.
pub open spec fn parent_prefixes(name: Seq<char>) -> Seq<Seq<char>>
    decreases name.len(),
{
    if name.len() == 0 {
        Seq::empty()
    } else {
        let before = parent_prefixes(name.drop_last());
        if name.last() == '.' {
            before.push(name.drop_last())
        } else {
            before
        }
    }
}

/// Parent prefixes of `name` (`a.b.c` → `a`, `a.b`).
pub fn collect_parent_prefixes(name: &str) -> (r: Vec<String>)
    ensures
        r@.map_values(|p: String| p@) == parent_prefixes(name@),
{
    let len = name.unicode_len();
    let mut out: Vec<String> = Vec::new();
    let mut i: usize = 0;
    while i < len
        invariant
            len == name@.len(),
            i <= len,
            out@.map_values(|p: String| p@) == parent_prefixes(name@.subrange(0, i as int)),
        decreases len - i,
    {
        let ghost sub = name@.subrange(0, i + 1);
        let ghost before = out@;
        proof {
            assert(sub.drop_last() =~= name@.subrange(0, i as int));
        }
        if name.get_char(i) == '.' {
            let p = name.substring_char(0, i);
            out.push(p.to_owned());
            proof {
                assert(out@.map_values(|p: String| p@) =~= before.map_values(|p: String| p@).push(p@));
            }
        }
        i = i + 1;
    }
    assert(name@.subrange(0, len as int) =~= name@);
    out
}

/// The value a parameter holding `existing` takes when set to `value`: a
/// value of its own type as is; an integer on a double parameter as the
/// nearest double; a double without fractional part on an integer parameter
/// as that integer (saturating). `None` when the types are incompatible.
pub open spec fn spec_coerce(existing: ValueView, value: ValueView) -> Option<ValueView> {
    if same_variant(existing, value) {
        Some(value)
    } else {
        match (existing, value) {
            (ValueView::Double(_), ValueView::Integer(i)) => Some(ValueView::Double(spec_int_to_double(i))),
            (ValueView::Integer(_), ValueView::Double(b)) => match spec_whole_to_i64(b) {
                Some(v) => Some(ValueView::Integer(v)),
                None => None,
            },
            _ => None,
        }
    }
}

/// Convert `value` for a parameter holding `existing` (Integer ↔ Double when
/// the number allows it).
pub fn coerce_compatible(existing: &ParameterValue, value: ParameterValue) -> (r: Option<ParameterValue>)
    ensures
        match spec_coerce(existing@, value@) {
            Some(v) => r matches Some(x) && x@ == v,
            None => r is None,
        },
{
    if existing.same_type(&value) {
        return Some(value);
    }
    match (existing, value) {
        (ParameterValue::Double(_), ParameterValue::Integer(i)) => Some(ParameterValue::Double(int_to_double(i))),
        (ParameterValue::Integer(_), ParameterValue::Double(b)) => match whole_to_i64(b) {
            Some(v) => Some(ParameterValue::Integer(v)),
            None => None,
        },
        _ => None,
    }
}

/// The table after setting `ps` in order, and whether every set was accepted
/// (the first refused one stops the run).
pub open spec fn apply_sets(m: Map<Seq<char>, ValueView>, ps: Seq<Parameter>) -> (Map<Seq<char>, ValueView>, bool)
    decreases ps.len(),
{
    if ps.len() == 0 {
        (m, true)
    } else if m.contains_key(ps[0].name@) && spec_coerce(m[ps[0].name@], ps[0].value@) is Some {
        apply_sets(m.insert(ps[0].name@, spec_coerce(m[ps[0].name@], ps[0].value@)->0), ps.drop_first())
    } else {
        (m, false)
    }
}

/// Names (in order) of the entries listed for `prefixes` at `depth`.
pub open spec fn matching_names(es: Seq<(Seq<char>, ParameterValue)>, prefixes: Seq<Seq<char>>, depth: u64) -> Seq<Seq<char>>
    decreases es.len(),
{
    if es.len() == 0 {
        Seq::empty()
    } else {
        let before = matching_names(es.drop_last(), prefixes, depth);
        if spec_matches_prefixes(es.last().0, prefixes, depth) {
            before.push(es.last().0)
        } else {
            before
        }
    }
}

/// Every parent prefix of every name in `names`.
pub open spec fn all_parents(names: Seq<Seq<char>>) -> Set<Seq<char>>
    decreases names.len(),
{
    if names.len() == 0 {
        Set::empty()
    } else {
        all_parents(names.drop_last()).union(parent_prefixes(names.last()).to_set())
    }
}

/// Per-node parameter table: declared names with their values, in name order.
pub struct ParameterStore {
    values: SortedEntries<ParameterValue>,
}

impl ParameterStore {
    /// The declared parameters, in increasing name order.
    pub closed spec fn entries(&self) -> Seq<(Seq<char>, ParameterValue)> {
        self.values.view_seq()
    }

    /// Name → value of the declared parameters.
    pub closed spec fn spec_values(&self) -> Map<Seq<char>, ValueView> {
        self.values.map().map_values(|v: ParameterValue| v@)
    }

    /// The store's invariant: each name once, names in increasing order, and
    /// the ordered entries are exactly the name → value table.
    pub closed spec fn wf(&self) -> bool {
        self.values.wf()
    }

    /// Facts of a well-formed store.
    pub proof fn lemma_wf(&self)
        requires
            self.wf(),
        ensures
            names_sorted(self.entries()),
            forall|i: int| 0 <= i < self.entries().len() ==> self.spec_values().contains_key(#[trigger] self.entries()[i].0)
                && self.spec_values()[self.entries()[i].0] == self.entries()[i].1@,
            forall|k: Seq<char>| #[trigger] self.spec_values().contains_key(k) ==> exists|i: int| 0 <= i < self.entries().len()
                && self.entries()[i].0 == k,
    {
        assert forall|i: int| 0 <= i < self.entries().len() implies self.spec_values().contains_key(#[trigger] self.entries()[i].0)
            && self.spec_values()[self.entries()[i].0] == self.entries()[i].1@ by {
            lemma_index_of(self.entries(), i);
        }
        assert forall|k: Seq<char>| #[trigger] self.spec_values().contains_key(k) implies exists|i: int| 0 <= i < self.entries().len()
            && self.entries()[i].0 == k by {
            let i = index_of(self.entries(), k);
            assert(self.entries()[i].0 == k);
        }
    }

    /// No parameters.
    pub fn new() -> (s: Self)
        ensures
            s.wf(),
            s.spec_values() == Map::<Seq<char>, ValueView>::empty(),
    {
        let s = ParameterStore { values: SortedEntries::new() };
        assert(s.spec_values() =~= Map::<Seq<char>, ValueView>::empty());
        s
    }

    /// Declare `name` with `value`; refused when already declared.
    pub fn declare(&mut self, name: String, value: ParameterValue) -> (r: Result<Parameter, BusError>)
        requires
            old(self).wf(),
        ensures
            final(self).wf(),
            old(self).spec_values().contains_key(name@) ==> (r matches Err(e) && e@
                == ErrorView::ParameterAlreadyDeclared { name: name@ }) && final(self).spec_values() == old(self).spec_values(),
            !old(self).spec_values().contains_key(name@) ==> (r matches Ok(p) && p.name@ == name@ && p.value@ == value@)
                && final(self).spec_values() == old(self).spec_values().insert(name@, value@),
    {
        if self.values.find(name.as_str()).is_some() {
            return Err(BusError::ParameterAlreadyDeclared { name });
        }
        let copy = value.duplicate();
        let key = name.clone();
        let ghost before = self.values.map();
        self.values.insert_new(key, copy);
        proof {
            assert(self.spec_values() =~= before.map_values(|v: ParameterValue| v@).insert(name@, value@));
        }
        Ok(Parameter { name, value })
    }

    /// The parameter `name`; refused when not declared.
    pub fn get(&self, name: &str) -> (r: Result<Parameter, BusError>)
        requires
            self.wf(),
        ensures
            self.spec_values().contains_key(name@) ==> (r matches Ok(p) && p.name@ == name@ && p.value@
                == self.spec_values()[name@]),
            !self.spec_values().contains_key(name@) ==> (r matches Err(e) && e@ == ErrorView::ParameterNotDeclared {
                name: name@,
            }),
    {
        match self.values.find(name) {
            Some(i) => {
                let (_, v) = self.values.at(i);
                proof {
                    lemma_index_of(self.entries(), i as int);
                }
                Ok(Parameter { name: name.to_owned(), value: v.duplicate() })
            },
            None => Err(BusError::ParameterNotDeclared { name: name.to_owned() }),
        }
    }

    /// The parameters `names`, in order; refused at the first undeclared name.
    pub fn get_many(&self, names: &[&str]) -> (r: Result<Vec<Parameter>, BusError>)
        requires
            self.wf(),
        ensures
            (forall|i: int| 0 <= i < names@.len() ==> self.spec_values().contains_key(#[trigger] names@[i]@)) ==> (r matches Ok(v)
                && v@.len() == names@.len() && forall|i: int| 0 <= i < v@.len() ==> (#[trigger] v@[i]).name@ == names@[i]@
                && v@[i].value@ == self.spec_values()[names@[i]@]),
            (exists|i: int| 0 <= i < names@.len() && !self.spec_values().contains_key(#[trigger] names@[i]@)) ==> (r matches Err(e)
                && e@ == ErrorView::ParameterNotDeclared { name: names@[first_missing(self.spec_values(), names@)]@ }),
    {
        let mut out: Vec<Parameter> = Vec::new();
        let mut i: usize = 0;
        while i < names.len()
            invariant
                self.wf(),
                i <= names@.len(),
                out@.len() == i,
                forall|j: int| 0 <= j < i ==> self.spec_values().contains_key(#[trigger] names@[j]@),
                forall|j: int| 0 <= j < i ==> (#[trigger] out@[j]).name@ == names@[j]@ && out@[j].value@
                    == self.spec_values()[names@[j]@],
            decreases names@.len() - i,
        {
            match self.get(names[i]) {
                Ok(p) => out.push(p),
                Err(e) => {
                    proof {
                        lemma_first_missing(self.spec_values(), names@, i as int);
                    }
                    return Err(e);
                },
            }
            i = i + 1;
        }
        Ok(out)
    }

    /// Whether `name` is declared.
    pub fn has(&self, name: &str) -> (r: bool)
        requires
            self.wf(),
        ensures
            r == self.spec_values().contains_key(name@),
    {
        self.values.find(name).is_some()
    }

    /// Set the value of a declared parameter. The value must have the
    /// parameter's type, except that an integer may set a double parameter and
    /// a double without fractional part an integer one (see [`spec_coerce`]).
    pub fn set(&mut self, name: &str, value: ParameterValue) -> (r: Result<(), BusError>)
        requires
            old(self).wf(),
        ensures
            final(self).wf(),
            !old(self).spec_values().contains_key(name@) ==> (r matches Err(e) && e@ == ErrorView::ParameterNotDeclared {
                name: name@,
            }),
            old(self).spec_values().contains_key(name@) && spec_coerce(old(self).spec_values()[name@], value@) is None ==> (r matches Err(e)
                && e@ == mismatch(name@, value_type_name(old(self).spec_values()[name@]), value_type_name(value@))),
            r is Err ==> final(self).spec_values() == old(self).spec_values(),
            r is Ok <==> (old(self).spec_values().contains_key(name@) && spec_coerce(old(self).spec_values()[name@], value@) is Some),
            r is Ok ==> final(self).spec_values() == old(self).spec_values().insert(
                name@,
                spec_coerce(old(self).spec_values()[name@], value@)->0,
            ),
    {
        match self.values.find(name) {
            None => Err(BusError::ParameterNotDeclared { name: name.to_owned() }),
            Some(i) => {
                proof {
                    lemma_index_of(self.entries(), i as int);
                }
                let (_, existing) = self.values.at(i);
                let expected = existing.kind_name();
                let got = value.kind_name();
                match coerce_compatible(existing, value) {
                    None => Err(type_mismatch(name, expected, got)),
                    Some(v) => {
                        let ghost before = self.values.map();
                        let ghost vv = v@;
                        let _ = self.values.replace_at(i, v);
                        proof {
                            assert(self.spec_values() =~= before.map_values(|v: ParameterValue| v@).insert(name@, vv));
                        }
                        Ok(())
                    },
                }
            },
        }
    }

    /// Set from a parameter snapshot.
    pub fn set_parameter(&mut self, parameter: Parameter) -> (r: Result<(), BusError>)
        requires
            old(self).wf(),
        ensures
            final(self).wf(),
            r is Ok <==> (old(self).spec_values().contains_key(parameter.name@) && spec_coerce(
                old(self).spec_values()[parameter.name@],
                parameter.value@,
            ) is Some),
            r is Err ==> final(self).spec_values() == old(self).spec_values(),
            r is Ok ==> final(self).spec_values() == old(self).spec_values().insert(
                parameter.name@,
                spec_coerce(old(self).spec_values()[parameter.name@], parameter.value@)->0,
            ),
    {
        let Parameter { name, value } = parameter;
        self.set(name.as_str(), value)
    }

    /// Set several parameters in order, stopping at the first refusal (the
    /// ones before it stay set).
    pub fn set_many(&mut self, parameters: Vec<Parameter>) -> (r: Result<(), BusError>)
        requires
            old(self).wf(),
        ensures
            final(self).wf(),
            final(self).spec_values() == apply_sets(old(self).spec_values(), parameters@).0,
            r is Ok <==> apply_sets(old(self).spec_values(), parameters@).1,
    {
        let ghost all = parameters@;
        let ghost m0 = self.spec_values();
        let mut rest = parameters;
        while rest.len() > 0
            invariant
                self.wf(),
                m0 == old(self).spec_values(),
                all == parameters@,
                apply_sets(m0, all) == apply_sets(self.spec_values(), rest@),
            decreases rest@.len(),
        {
            let ghost old_rest = rest@;
            let p = rest.remove(0);
            let ghost gp = p;
            proof {
                assert(old_rest[0] == gp);
                assert(old_rest.drop_first() =~= rest@);
            }
            match self.set_parameter(p) {
                Ok(()) => {},
                Err(e) => {
                    return Err(e);
                },
            }
        }
        Ok(())
    }

    /// Remove a declared parameter; refused when not declared.
    pub fn undeclare(&mut self, name: &str) -> (r: Result<(), BusError>)
        requires
            old(self).wf(),
        ensures
            final(self).wf(),
            !old(self).spec_values().contains_key(name@) ==> (r matches Err(e) && e@ == ErrorView::ParameterNotDeclared {
                name: name@,
            }) && final(self).spec_values() == old(self).spec_values(),
            old(self).spec_values().contains_key(name@) ==> r is Ok && final(self).spec_values() == old(
                self,
            ).spec_values().remove(name@),
    {
        match self.values.find(name) {
            None => Err(BusError::ParameterNotDeclared { name: name.to_owned() }),
            Some(i) => {
                let ghost before = self.values.map();
                let _ = self.values.remove_at(i);
                proof {
                    assert(self.spec_values() =~= before.map_values(|v: ParameterValue| v@).remove(name@));
                }
                Ok(())
            },
        }
    }

    /// Declare if missing; otherwise set (the value must fit the type).
    pub fn load(&mut self, name: String, value: ParameterValue) -> (r: Result<(), BusError>)
        requires
            old(self).wf(),
        ensures
            final(self).wf(),
            !old(self).spec_values().contains_key(name@) ==> r is Ok && final(self).spec_values() == old(
                self,
            ).spec_values().insert(name@, value@),
            old(self).spec_values().contains_key(name@) ==> (r is Ok <==> spec_coerce(old(self).spec_values()[name@], value@) is Some),
            old(self).spec_values().contains_key(name@) && r is Ok ==> final(self).spec_values() == old(self).spec_values().insert(
                name@,
                spec_coerce(old(self).spec_values()[name@], value@)->0,
            ),
            old(self).spec_values().contains_key(name@) && r is Err ==> (r matches Err(e) && e@ == mismatch(
                name@,
                value_type_name(old(self).spec_values()[name@]),
                value_type_name(value@),
            )),
            r is Err ==> final(self).spec_values() == old(self).spec_values(),
    {
        if self.values.find(name.as_str()).is_some() {
            self.set(name.as_str(), value)
        } else {
            match self.declare(name, value) {
                Ok(_) => Ok(()),
                Err(e) => Err(e),
            }
        }
    }

    /// All declared parameters with values, sorted by name.
    pub fn list_all(&self) -> (r: Vec<Parameter>)
        requires
            self.wf(),
        ensures
            r@.len() == self.entries().len(),
            forall|i: int| 0 <= i < r@.len() ==> (#[trigger] r@[i]).name@ == self.entries()[i].0 && r@[i].value@
                == self.entries()[i].1@,
    {
        let mut out: Vec<Parameter> = Vec::new();
        let n = self.values.len();
        let mut i: usize = 0;
        while i < n
            invariant
                n == self.entries().len(),
                i <= n,
                out@.len() == i,
                forall|j: int| 0 <= j < i ==> (#[trigger] out@[j]).name@ == self.entries()[j].0 && out@[j].value@
                    == self.entries()[j].1@,
            decreases n - i,
        {
            let (name, v) = self.values.at(i);
            out.push(Parameter { name: name.to_owned(), value: v.duplicate() });
            i = i + 1;
        }
        out
    }

    /// ROS 2–style list by prefixes and depth (`.` hierarchy): the matching
    /// names in order, and their parent prefixes, each once, in order.
    /// No prefixes match the whole tree; `depth == 0` is unlimited.
    pub fn list_parameters(&self, prefixes: &Vec<String>, depth: u64) -> (r: ListParametersResult)
        requires
            self.wf(),
        ensures
            r.names@.map_values(|s: String| s@) == matching_names(
                self.entries(),
                prefixes@.map_values(|p: String| p@),
                depth,
            ),
            r.prefixes@.map_values(|s: String| s@).to_set() == all_parents(
                matching_names(self.entries(), prefixes@.map_values(|p: String| p@), depth),
            ),
            forall|i: int, j: int| 0 <= i < j < r.prefixes@.len() ==> (#[trigger] r.prefixes@[i])@ != (#[trigger] r.prefixes@[j])@,
            forall|i: int| 0 <= i < r.prefixes@.len() - 1 ==> crate::ordering::lex_lt((#[trigger] r.prefixes@[i])@, r.prefixes@[i + 1]@),
    {
        let ghost ps = prefixes@.map_values(|p: String| p@);
        let ghost es = self.entries();
        let mut names: Vec<String> = Vec::new();
        let mut set: SortedEntries<()> = SortedEntries::new();
        let n = self.values.len();
        let mut i: usize = 0;
        while i < n
            invariant
                n == es.len(),
                es == self.entries(),
                ps == prefixes@.map_values(|p: String| p@),
                i <= n,
                names@.map_values(|s: String| s@) == matching_names(es.subrange(0, i as int), ps, depth),
                set.wf(),
                set.map().dom() == all_parents(matching_names(es.subrange(0, i as int), ps, depth)),
            decreases n - i,
        {
            let ghost sub = es.subrange(0, i + 1);
            proof {
                assert(sub.drop_last() =~= es.subrange(0, i as int));
            }
            let (name, _) = self.values.at(i);
            if parameter_matches_prefixes(name, prefixes, depth) {
                let ghost before_names = names@;
                names.push(name.to_owned());
                proof {
                    assert(names@.map_values(|s: String| s@) =~= before_names.map_values(|s: String| s@).push(name@));
                }
                let parents = collect_parent_prefixes(name);
                let ghost pv = parents@.map_values(|p: String| p@);
                let ghost base = set.map().dom();
                let mut k: usize = 0;
                while k < parents.len()
                    invariant
                        k <= parents@.len(),
                        pv == parents@.map_values(|p: String| p@),
                        set.wf(),
                        set.map().dom() == base.union(pv.subrange(0, k as int).to_set()),
                    decreases parents@.len() - k,
                {
                    let p = parents[k].as_str();
                    if set.find(p).is_none() {
                        set.insert_new(p.to_owned(), ());
                    }
                    proof {
                        assert(pv.subrange(0, k + 1).to_set() =~= pv.subrange(0, k as int).to_set().insert(pv[k as int])) by {
                            assert(pv.subrange(0, k + 1) =~= pv.subrange(0, k as int).push(pv[k as int]));
                            broadcast use vstd::seq_lib::group_seq_properties;
                        }
                        assert(set.map().dom() =~= base.union(pv.subrange(0, k + 1).to_set()));
                    }
                    k = k + 1;
                }
                proof {
                    assert(pv.subrange(0, pv.len() as int) =~= pv);
                    assert(sub.last().0 == name@);
                    let mn = matching_names(sub, ps, depth);
                    assert(mn == matching_names(es.subrange(0, i as int), ps, depth).push(name@));
                    assert(mn.drop_last() =~= matching_names(es.subrange(0, i as int), ps, depth));
                    assert(mn.last() == name@);
                    assert(all_parents(mn) == all_parents(mn.drop_last()).union(parent_prefixes(name@).to_set()));
                    assert(set.map().dom() =~= all_parents(matching_names(sub, ps, depth)));
                }
            }
            i = i + 1;
        }
        proof {
            assert(es.subrange(0, n as int) =~= es);
        }
        let mut out: Vec<String> = Vec::new();
        let m = set.len();
        let mut j: usize = 0;
        while j < m
            invariant
                m == set.view_seq().len(),
                j <= m,
                out@.len() == j,
                forall|t: int| 0 <= t < j ==> (#[trigger] out@[t])@ == set.view_seq()[t].0,
            decreases m - j,
        {
            let (p, _) = set.at(j);
            out.push(p.to_owned());
            j = j + 1;
        }
        proof {
            let sv = set.view_seq();
            let outv = out@.map_values(|s: String| s@);
            assert forall|x: Seq<char>| outv.to_set().contains(x) == set.map().dom().contains(x) by {
                if outv.to_set().contains(x) {
                    let t = choose|t: int| 0 <= t < outv.len() && outv[t] == x;
                    assert(sv[t].0 == x);
                    assert(has_key(sv, x));
                }
                if set.map().dom().contains(x) {
                    let t = index_of(sv, x);
                    assert(outv[t] == x);
                }
            }
            assert(outv.to_set() =~= set.map().dom());
            assert forall|a: int, b: int| 0 <= a < b < out@.len() implies (#[trigger] out@[a])@ != (#[trigger] out@[b])@ by {
                assert(sv[a].0 != sv[b].0);
            }
            assert forall|a: int| 0 <= a < out@.len() - 1 implies crate::ordering::lex_lt((#[trigger] out@[a])@, out@[a + 1]@) by {
                assert(crate::ordering::lex_lt(sv[a].0, sv[a + 1].0));
            }
        }
        ListParametersResult { names, prefixes: out }
    }
}

/// Index of the first name of `names` that is not declared.
pub open spec fn first_missing(m: Map<Seq<char>, ValueView>, names: Seq<&str>) -> int {
    choose|i: int| 0 <= i < names.len() && !m.contains_key(names[i]@) && forall|j: int| 0 <= j < i ==> m.contains_key(#[trigger] names[j]@)
}

proof fn lemma_first_missing(m: Map<Seq<char>, ValueView>, names: Seq<&str>, i: int)
    requires
        0 <= i < names.len(),
        !m.contains_key(names[i]@),
        forall|j: int| 0 <= j < i ==> m.contains_key(#[trigger] names[j]@),
    ensures
        first_missing(m, names) == i,
{
    let k = first_missing(m, names);
    assert(0 <= k < names.len() && !m.contains_key(names[k]@) && forall|j: int| 0 <= j < k ==> m.contains_key(#[trigger] names[j]@));
    if k < i {
        assert(m.contains_key(names[k]@));
    } else if k > i {
        assert(m.contains_key(names[i]@));
    }
}

/// Declaring a parameter and reading it back gives the declared value; a
/// second declaration of the name is refused and changes nothing.
pub proof fn law_declare_then_get(store: Map<Seq<char>, ValueView>, name: Seq<char>, v: ValueView)
    requires
        !store.contains_key(name),
    ensures
        store.insert(name, v).contains_key(name),
        store.insert(name, v)[name] == v,
{
}

proof fn lemma_sorted_pairwise(s: Seq<(Seq<char>, ParameterValue)>)
    requires
        names_sorted(s),
    ensures
        forall|i: int, j: int| 0 <= i < j < s.len() ==> crate::ordering::lex_lt(#[trigger] s[i].0, #[trigger] s[j].0),
    decreases s.len(),
{
    if s.len() > 1 {
        let p = s.drop_last();
        assert forall|i: int| 0 <= i < p.len() - 1 implies crate::ordering::lex_lt(#[trigger] p[i].0, p[i + 1].0) by {
            assert(p[i] == s[i] && p[i + 1] == s[i + 1]);
        }
        lemma_sorted_pairwise(p);
        assert forall|i: int, j: int| 0 <= i < j < s.len() implies crate::ordering::lex_lt(#[trigger] s[i].0, #[trigger] s[j].0) by {
            if j < s.len() - 1 {
                assert(p[i] == s[i] && p[j] == s[j]);
            } else if i < j - 1 {
                assert(p[i] == s[i] && p[j - 1] == s[j - 1]);
                assert(crate::ordering::lex_lt(s[j - 1].0, s[j].0));
                crate::ordering::lemma_lex_trans(s[i].0, s[j - 1].0, s[j].0);
            }
        }
    }
}

proof fn lemma_matching_names_from(es: Seq<(Seq<char>, ParameterValue)>, prefixes: Seq<Seq<char>>, depth: u64)
    requires
        forall|i: int, j: int| 0 <= i < j < es.len() ==> crate::ordering::lex_lt(#[trigger] es[i].0, #[trigger] es[j].0),
    ensures
        forall|a: int, b: int| 0 <= a < b < matching_names(es, prefixes, depth).len() ==> crate::ordering::lex_lt(
            #[trigger] matching_names(es, prefixes, depth)[a],
            #[trigger] matching_names(es, prefixes, depth)[b],
        ),
        forall|a: int| 0 <= a < matching_names(es, prefixes, depth).len() ==> exists|i: int| 0 <= i < es.len()
            && es[i].0 == #[trigger] matching_names(es, prefixes, depth)[a],
    decreases es.len(),
{
    if es.len() > 0 {
        let p = es.drop_last();
        assert forall|i: int, j: int| 0 <= i < j < p.len() implies crate::ordering::lex_lt(#[trigger] p[i].0, #[trigger] p[j].0) by {
            assert(p[i] == es[i] && p[j] == es[j]);
        }
        lemma_matching_names_from(p, prefixes, depth);
        let before = matching_names(p, prefixes, depth);
        let m = matching_names(es, prefixes, depth);
        assert forall|a: int| 0 <= a < before.len() implies exists|i: int| 0 <= i < es.len() - 1 && es[i].0 == #[trigger] before[a] by {
            let i = choose|i: int| 0 <= i < p.len() && p[i].0 == before[a];
            assert(es[i] == p[i]);
        }
        if spec_matches_prefixes(es.last().0, prefixes, depth) {
            assert forall|a: int, b: int| 0 <= a < b < m.len() implies crate::ordering::lex_lt(#[trigger] m[a], #[trigger] m[b]) by {
                if b == m.len() - 1 {
                    let i = choose|i: int| 0 <= i < es.len() - 1 && es[i].0 == before[a];
                    assert(m[a] == before[a]);
                    assert(m[b] == es[es.len() - 1].0);
                } else {
                    assert(m[a] == before[a] && m[b] == before[b]);
                }
            }
            assert forall|a: int| 0 <= a < m.len() implies exists|i: int| 0 <= i < es.len() && es[i].0 == #[trigger] m[a] by {
                if a == m.len() - 1 {
                    assert(es[es.len() - 1].0 == m[a]);
                } else {
                    assert(m[a] == before[a]);
                    let i = choose|i: int| 0 <= i < es.len() - 1 && es[i].0 == before[a];
                    assert(es[i].0 == m[a]);
                }
            }
        }
    }
}

/// Listed parameter names come out in strictly increasing name order, and
/// each is a declared name.
pub proof fn law_listed_names_sorted(store: &ParameterStore, prefixes: Seq<Seq<char>>, depth: u64)
    requires
        store.wf(),
    ensures
        forall|a: int, b: int| 0 <= a < b < matching_names(store.entries(), prefixes, depth).len() ==> crate::ordering::lex_lt(
            #[trigger] matching_names(store.entries(), prefixes, depth)[a],
            #[trigger] matching_names(store.entries(), prefixes, depth)[b],
        ),
        forall|a: int| 0 <= a < matching_names(store.entries(), prefixes, depth).len() ==> store.spec_values().contains_key(
            #[trigger] matching_names(store.entries(), prefixes, depth)[a],
        ),
{
    store.lemma_wf();
    lemma_sorted_pairwise(store.entries());
    lemma_matching_names_from(store.entries(), prefixes, depth);
    let m = matching_names(store.entries(), prefixes, depth);
    assert forall|a: int| 0 <= a < m.len() implies store.spec_values().contains_key(#[trigger] m[a]) by {
        let i = choose|i: int| 0 <= i < store.entries().len() && store.entries()[i].0 == m[a];
        assert(store.spec_values().contains_key(store.entries()[i].0));
    }
}


/// `s` is one name segment: non-empty, without a dot.
pub open spec fn is_segment(s: Seq<char>) -> bool {
    s.len() > 0 && forall|i: int| 0 <= i < s.len() ==> s[i] != '.'
}

proof fn lemma_segments_one(a: Seq<char>)
    requires
        is_segment(a),
    ensures
        segments(a) == 1,
    decreases a.len(),
{
    if a.len() > 1 {
        let d = a.drop_last();
        assert(is_segment(d)) by {
            assert forall|i: int| 0 <= i < d.len() implies d[i] != '.' by {
                assert(d[i] == a[i]);
            }
        }
        lemma_segments_one(d);
        assert(a[a.len() - 2] != '.');
        assert(a.last() == a[a.len() - 1]);
        assert(a.last() != '.');
    } else {
        assert(a.drop_last() =~= Seq::<char>::empty());
        assert(segments(a.drop_last()) == 0);
        assert(a.last() == a[0]);
        assert(a.last() != '.');
    }
}

proof fn lemma_segments_after_dot(x: Seq<char>, b: Seq<char>)
    requires
        x.len() > 0,
        x.last() == '.',
        is_segment(b),
    ensures
        segments(x + b) == segments(x) + 1,
    decreases b.len(),
{
    let s = x + b;
    if b.len() == 1 {
        assert(s.drop_last() =~= x);
        assert(s[s.len() - 2] == x.last());
        assert(s.last() == b[0]);
    } else {
        let d = b.drop_last();
        assert(is_segment(d)) by {
            assert forall|i: int| 0 <= i < d.len() implies d[i] != '.' by {
                assert(d[i] == b[i]);
            }
        }
        lemma_segments_after_dot(x, d);
        assert(s.drop_last() =~= x + d);
        assert(s.last() == b[b.len() - 1]);
        assert(s[s.len() - 2] == b[b.len() - 2]);
    }
}

proof fn lemma_below_prefix(p: Seq<char>, r: Seq<char>, depth: u64)
    requires
        p.len() > 0,
    ensures
        spec_matches_prefix(p + "."@ + r, p, depth) == depth_ok(segments(r), depth),
{
    reveal_strlit(".");
    let name = p + "."@ + r;
    assert(name.len() == p.len() + 1 + r.len());
    assert(name != p);
    assert(name.subrange(0, (p + "."@).len() as int) =~= p + "."@);
    assert(has_prefix(name, p + "."@));
    assert(name.subrange(p.len() as int + 1, name.len() as int) =~= r);
}

/// Depth counts levels below the prefix, not dots in the name: under a
/// non-empty prefix `p`, the name `p.r` is listed at a depth exactly when the
/// same rest `r` under any other non-empty prefix `q` is; a name one segment
/// below `p` is listed at every depth, and one two segments below is listed
/// at depth 2 or more (or unlimited, 0) but not at depth 1.
pub proof fn law_depth_is_relative_to_prefix(
    p: Seq<char>,
    q: Seq<char>,
    r: Seq<char>,
    a: Seq<char>,
    b: Seq<char>,
    depth: u64,
)
    requires
        p.len() > 0,
        q.len() > 0,
        is_segment(a),
        is_segment(b),
    ensures
        spec_matches_prefix(p + "."@ + r, p, depth) == spec_matches_prefix(q + "."@ + r, q, depth),
        spec_matches_prefix(p + "."@ + a, p, depth),
        spec_matches_prefix(p + "."@ + (a + "."@ + b), p, depth) <==> (depth == PARAMETER_DEPTH_RECURSIVE
            || depth >= 2),
{
    reveal_strlit(".");
    lemma_below_prefix(p, r, depth);
    lemma_below_prefix(q, r, depth);
    lemma_below_prefix(p, a, depth);
    lemma_segments_one(a);
    lemma_below_prefix(p, a + "."@ + b, depth);
    let x = a + "."@;
    assert(x.last() == '.');
    lemma_segments_after_dot(x, b);
    assert(x.drop_last() =~= a);
    assert(segments(x) == segments(a));
}

} // verus!
