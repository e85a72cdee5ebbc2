//! Parameter documents: which entries of a YAML document are parameters,
//! and how they are loaded into a [`ParameterStore`].
//!
//! Supported shapes: a flat map `{ max_speed: 1.5, frame_id: base_link }`,
//! ROS 2 style `{ ros__parameters: { … } }`, and the wildcard
//! `{ "/**": { ros__parameters: { … } } }`. Undeclared names are declared;
//! existing names are set.
use vstd::prelude::*;
use crate::errors::{BusError, ErrorView};
use crate::parameters::{mismatch, spec_coerce, value_type_name, ParameterStore, ParameterValue, ValueView};
use crate::text::{concat2, str_eq};

verus! {

/// A node of a parsed YAML document.
pub enum YamlValue {
    Null,
    Bool(bool),
    /// A number that fits `i64`.
    Integer(i64),
    /// Any other number, as `f64` bits.
    Double(u64),
    String(String),
    /// Entries in document order.
    Mapping(Vec<(YamlNode, YamlNode)>),
    /// A sequence or a tagged value.
    Other,
}

/// A YAML node with the text that error messages show for it.
pub struct YamlNode {
    pub value: YamlValue,
    pub debug: String,
}

/// `n` is the string `key`.
pub open spec fn is_string_key(n: YamlNode, key: Seq<char>) -> bool {
    n.value matches YamlValue::String(s) && s@ == key
}

/// Index of the first entry of `es` whose key is the string `key`.
pub open spec fn first_key_index(es: Seq<(YamlNode, YamlNode)>, key: Seq<char>) -> Option<int>
    decreases es.len(),
{
    if es.len() == 0 {
        None
    } else if is_string_key(es[0].0, key) {
        Some(0)
    } else {
        match first_key_index(es.drop_first(), key) {
            Some(i) => Some(i + 1),
            None => None,
        }
    }
}

/// The entries of `n` when it is a mapping.
pub open spec fn as_mapping(n: YamlNode) -> Option<Seq<(YamlNode, YamlNode)>> {
    match n.value {
        YamlValue::Mapping(es) => Some(es@),
        _ => None,
    }
}

/// The entries of the mapping stored under `key` in `es`, if there is one.
pub open spec fn mapping_under(es: Seq<(YamlNode, YamlNode)>, key: Seq<char>) -> Option<Seq<(YamlNode, YamlNode)>> {
    match first_key_index(es, key) {
        Some(i) => as_mapping(es[i].1),
        None => None,
    }
}

pub open spec fn root_message(debug: Seq<char>) -> Seq<char> {
    "expected a YAML mapping at root, got "@ + debug
}

pub open spec fn scalar_message(debug: Seq<char>) -> Seq<char> {
    "unsupported parameter value (scalars only): "@ + debug
}

/// The parameter entries of a document: the mapping under
/// `ros__parameters`, else the one under `/**` → `ros__parameters`, else the
/// root mapping itself. An empty document has none; any other root is
/// refused.
pub open spec fn spec_param_entries(root: YamlNode) -> Result<Seq<(YamlNode, YamlNode)>, ErrorView> {
    match as_mapping(root) {
        None => if root.value is Null {
            Ok(Seq::empty())
        } else {
            Err(ErrorView::ParameterYaml(root_message(root.debug@)))
        },
        Some(es) => match mapping_under(es, "ros__parameters"@) {
            Some(params) => Ok(params),
            None => match mapping_under(es, "/**"@) {
                Some(ns) => match mapping_under(ns, "ros__parameters"@) {
                    Some(params) => Ok(params),
                    None => Ok(es),
                },
                None => Ok(es),
            },
        },
    }
}

/// The parameter value of a scalar node; other nodes are refused.
pub open spec fn spec_scalar(n: YamlNode) -> Result<ValueView, ErrorView> {
    match n.value {
        YamlValue::Bool(b) => Ok(ValueView::Bool(b)),
        YamlValue::Integer(i) => Ok(ValueView::Integer(i)),
        YamlValue::Double(d) => Ok(ValueView::Double(d)),
        YamlValue::String(s) => Ok(ValueView::String(s@)),
        _ => Err(ErrorView::ParameterYaml(scalar_message(n.debug@))),
    }
}

/// The table after loading the entries `es` in order (declare when missing,
/// otherwise set), and the error that stopped the load, if any.
pub open spec fn spec_load_entries(m: Map<Seq<char>, ValueView>, es: Seq<(YamlNode, YamlNode)>) -> (
    Map<Seq<char>, ValueView>,
    Option<ErrorView>,
)
    decreases es.len(),
{
    if es.len() == 0 {
        (m, None)
    } else {
        match es[0].0.value {
            YamlValue::String(name) => match spec_scalar(es[0].1) {
                Err(e) => (m, Some(e)),
                Ok(v) => if !m.contains_key(name@) {
                    spec_load_entries(m.insert(name@, v), es.drop_first())
                } else {
                    match spec_coerce(m[name@], v) {
                        Some(c) => spec_load_entries(m.insert(name@, c), es.drop_first()),
                        None => (m, Some(mismatch(name@, value_type_name(m[name@]), value_type_name(v)))),
                    }
                },
            },
            _ => (m, Some(ErrorView::ParameterYaml("parameter name must be a string"@))),
        }
    }
}

proof fn lemma_first_key_index(es: Seq<(YamlNode, YamlNode)>, key: Seq<char>, i: int)
    requires
        0 <= i <= es.len(),
        forall|j: int| 0 <= j < i ==> !is_string_key(#[trigger] es[j].0, key),
    ensures
        i < es.len() && is_string_key(es[i].0, key) ==> first_key_index(es, key) == Some(i),
        i == es.len() ==> first_key_index(es, key) is None,
    decreases i,
{
    if i > 0 {
        let rest = es.drop_first();
        assert forall|j: int| 0 <= j < i - 1 implies !is_string_key(#[trigger] rest[j].0, key) by {
            assert(rest[j] == es[j + 1]);
        }
        lemma_first_key_index(rest, key, i - 1);
        if i < es.len() {
            assert(rest[i - 1] == es[i]);
        }
    }
}

/// Index of the first entry of `es` whose key is the string `key`.
fn find_key(es: &Vec<(YamlNode, YamlNode)>, key: &str) -> (r: Option<usize>)
    ensures
        match first_key_index(es@, key@) {
            Some(i) => r matches Some(j) && j as int == i,
            None => r is None,
        },
        r matches Some(i) ==> i < es@.len(),
{
    let mut i: usize = 0;
    while i < es.len()
        invariant
            i <= es@.len(),
            forall|j: int| 0 <= j < i ==> !is_string_key(#[trigger] es@[j].0, key@),
        decreases es@.len() - i,
    {
        let found = match &es[i].0.value {
            YamlValue::String(s) => str_eq(s.as_str(), key),
            _ => false,
        };
        if found {
            proof {
                lemma_first_key_index(es@, key@, i as int);
            }
            return Some(i);
        }
        i = i + 1;
    }
    proof {
        lemma_first_key_index(es@, key@, i as int);
    }
    None
}

/// The mapping stored under `key` in `es`, if there is one.
fn find_mapping<'a>(es: &'a Vec<(YamlNode, YamlNode)>, key: &str) -> (r: Option<&'a Vec<(YamlNode, YamlNode)>>)
    ensures
        match mapping_under(es@, key@) {
            Some(m) => r matches Some(v) && v@ == m,
            None => r is None,
        },
{
    match find_key(es, key) {
        Some(i) => {
            let entry = &es[i];
            assert(entry.1 == es@[i as int].1);
            match &entry.1.value {
                YamlValue::Mapping(m) => Some(m),
                _ => None,
            }
        },
        None => None,
    }
}

/// The parameter entries of a document (`None` for an empty document).
fn param_entries(root: &YamlNode) -> (r: Result<Option<&Vec<(YamlNode, YamlNode)>>, BusError>)
    ensures
        match spec_param_entries(*root) {
            Ok(es) => r matches Ok(o) && match o {
                Some(v) => v@ == es,
                None => es.len() == 0,
            },
            Err(e) => r matches Err(x) && x@ == e,
        },
{
    match &root.value {
        YamlValue::Mapping(es) => {
            match find_mapping(es, "ros__parameters") {
                Some(params) => Ok(Some(params)),
                None => match find_mapping(es, "/**") {
                    Some(ns) => match find_mapping(ns, "ros__parameters") {
                        Some(params) => Ok(Some(params)),
                        None => Ok(Some(es)),
                    },
                    None => Ok(Some(es)),
                },
            }
        },
        YamlValue::Null => Ok(None),
        _ => Err(BusError::ParameterYaml(concat2("expected a YAML mapping at root, got ", root.debug.as_str()))),
    }
}

/// The parameter value of a scalar node.
pub fn scalar_value(n: &YamlNode) -> (r: Result<ParameterValue, BusError>)
    ensures
        match spec_scalar(*n) {
            Ok(v) => r matches Ok(x) && x@ == v,
            Err(e) => r matches Err(x) && x@ == e,
        },
{
    match &n.value {
        YamlValue::Bool(b) => Ok(ParameterValue::Bool(*b)),
        YamlValue::Integer(i) => Ok(ParameterValue::Integer(*i)),
        YamlValue::Double(d) => Ok(ParameterValue::Double(*d)),
        YamlValue::String(s) => Ok(ParameterValue::String(s.clone())),
        _ => Err(BusError::ParameterYaml(concat2("unsupported parameter value (scalars only): ", n.debug.as_str()))),
    }
}

impl ParameterStore {
    /// Load the scalar parameters of a document, in document order:
    /// undeclared names are declared, existing names are set. The first
    /// refused entry stops the load; the entries before it stay loaded.
    pub fn load_document(&mut self, root: &YamlNode) -> (r: Result<(), BusError>)
        requires
            old(self).wf(),
        ensures
            final(self).wf(),
            match spec_param_entries(*root) {
                Err(e) => r matches Err(x) && x@ == e && final(self).spec_values() == old(self).spec_values(),
                Ok(es) => final(self).spec_values() == spec_load_entries(old(self).spec_values(), es).0 && match spec_load_entries(
                    old(self).spec_values(),
                    es,
                ).1 {
                    None => r is Ok,
                    Some(e) => r matches Err(x) && x@ == e,
                },
            },
    {
        let entries = match param_entries(root) {
            Err(e) => return Err(e),
            Ok(None) => return Ok(()),
            Ok(Some(es)) => es,
        };
        let ghost es = entries@;
        let ghost m0 = self.spec_values();
        let n = entries.len();
        let mut i: usize = 0;
        assert(es.subrange(0, n as int) =~= es);
        while i < n
            invariant
                self.wf(),
                n == es.len(),
                es == entries@,
                i <= n,
                m0 == old(self).spec_values(),
                spec_param_entries(*root) == Ok::<Seq<(YamlNode, YamlNode)>, ErrorView>(es),
                spec_load_entries(m0, es) == spec_load_entries(self.spec_values(), es.subrange(i as int, n as int)),
            decreases n - i,
        {
            let ghost rest = es.subrange(i as int, n as int);
            proof {
                assert(rest[0] == es[i as int]);
                assert(rest.drop_first() =~= es.subrange(i + 1, n as int));
            }
            let (k, v) = &entries[i];
            assert(rest[0].0 == *k && rest[0].1 == *v);
            let name = match &k.value {
                YamlValue::String(s) => s,
                _ => {
                    return Err(BusError::ParameterYaml("parameter name must be a string".to_owned()));
                },
            };
            let value = match scalar_value(v) {
                Ok(x) => x,
                Err(e) => {
                    return Err(e);
                },
            };
            match self.load(name.clone(), value) {
                Ok(()) => {},
                Err(e) => {
                    return Err(e);
                },
            }
            i = i + 1;
        }
        proof {
            assert(es.subrange(n as int, n as int) =~= Seq::<(YamlNode, YamlNode)>::empty());
        }
        Ok(())
    }
}

} // verus!
