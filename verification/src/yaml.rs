use vstd::prelude::*;
use serde_yaml::Value;
use crate::assoc::pair_seq_view;

verus! {

broadcast use vstd::std_specs::vec::axiom_vec_index_decreases;

/// Mathematical model of a structured document tree: scalars, lists and
/// string-keyed mappings.
pub enum YamlV {
    Null,
    Bool(bool),
    Int(int),
    Str(Seq<char>),
    List(Seq<YamlV>),
    Mapping(Seq<(Seq<char>, YamlV)>),
}

/// A structured document tree holding plain values: scalars, lists and
/// string-keyed mappings.
pub enum Yaml {
    Null,
    Bool(bool),
    Int(i64),
    Str(String),
    List(Vec<Yaml>),
    Mapping(Vec<(String, Yaml)>),
}

impl View for Yaml {
    type V = YamlV;

    open spec fn view(&self) -> YamlV
        decreases self,
    {
        match self {
            Yaml::Null => YamlV::Null,
            Yaml::Bool(b) => YamlV::Bool(*b),
            Yaml::Int(i) => YamlV::Int(*i as int),
            Yaml::Str(s) => YamlV::Str(s@),
            Yaml::List(items) => YamlV::List(
                Seq::new(
                    items@.len(),
                    |i: int| if 0 <= i < items.len() { items[i]@ } else { YamlV::Null },
                ),
            ),
            Yaml::Mapping(entries) => {
                let keys = Seq::new(
                    entries@.len(),
                    |i: int| if 0 <= i < entries.len() { entries[i].0@ } else { Seq::empty() },
                );
                let vals = Seq::new(
                    entries@.len(),
                    |i: int| if 0 <= i < entries.len() { entries[i].1@ } else { YamlV::Null },
                );
                YamlV::Mapping(Seq::new(entries@.len(), |i: int| (keys[i], vals[i])))
            },
        }
    }
}

/// View of a vector of tree nodes.
pub open spec fn yamls_view(s: Seq<Yaml>) -> Seq<YamlV> {
    s.map(|i: int, y: Yaml| y@)
}

/// The view of a list node is the list of its members' views.
pub proof fn lemma_list_view(items: Vec<Yaml>)
    ensures
        Yaml::List(items)@ == YamlV::List(yamls_view(items@)),
{
    let y = Yaml::List(items);
    match y@ {
        YamlV::List(vs) => {
            assert(vs =~= yamls_view(items@));
        },
        _ => {
            assert(false);
        },
    }
}

/// The view of a mapping node is the pairwise view of its entries.
pub proof fn lemma_mapping_view(entries: Vec<(String, Yaml)>)
    ensures
        Yaml::Mapping(entries)@ == YamlV::Mapping(pair_seq_view(entries@)),
{
    let y = Yaml::Mapping(entries);
    match y@ {
        YamlV::Mapping(vs) => {
            assert(vs.len() == entries@.len());
            assert forall|i: int| 0 <= i < entries@.len() implies vs[i] == pair_seq_view(
                entries@,
            )[i] by {
                assert(vs[i] == (entries@[i].0@, entries@[i].1@));
            }
            assert(vs =~= pair_seq_view(entries@));
        },
        _ => {
            assert(false);
        },
    }
}

#[verifier::external_type_specification]
#[verifier::external_body]
pub struct ExValue(Value);

/// What parsing a byte stream as one structured document yields: the
/// document tree, or `None` when the bytes are not a well-formed document or
/// hold values outside the model (a non-integer number, a non-string mapping
/// key, a tagged value).
pub uninterp spec fn yaml_doc_of(bytes: Seq<u8>) -> Option<YamlV>;

/// Relies on serde_yaml's `Value`: each variant is moved to the matching
/// tree node; numbers outside `i64`, non-string mapping keys and tagged
/// values have no counterpart and yield `None`.
#[verifier::external_body]
fn tree_of_value(v: Value) -> (r: Option<Yaml>) {
    match v {
        Value::Null => Some(Yaml::Null),
        Value::Bool(b) => Some(Yaml::Bool(b)),
        Value::Number(n) => n.as_i64().map(Yaml::Int),
        Value::String(s) => Some(Yaml::Str(s)),
        Value::Sequence(s) => s.into_iter().map(tree_of_value).collect::<Option<_>>().map(Yaml::List),
        Value::Mapping(m) => m.into_iter().map(|(k, v)| match (k, tree_of_value(v)) {
            (Value::String(ks), Some(t)) => Some((ks, t)),
            _ => None,
        }).collect::<Option<_>>().map(Yaml::Mapping),
        Value::Tagged(_) => None,
    }
}

/// Relies on `serde_yaml::from_slice`: parsing a document is a function of
/// the bytes alone; any parse failure, and any value outside the model,
/// yields `None`.
#[verifier::external_body]
pub fn parse_yaml_doc(bytes: &[u8]) -> (r: Option<Yaml>)
    ensures
        match r {
            Some(y) => yaml_doc_of(bytes@) == Some(y@),
            None => yaml_doc_of(bytes@) is None,
        },
{
    serde_yaml::from_slice::<Value>(bytes).ok().and_then(tree_of_value)
}

} // verus!



