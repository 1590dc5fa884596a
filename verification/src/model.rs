//! The mathematical model of a parsed configuration document.
//!
//! A document is modelled only as deeply as the preset rules read it: a
//! sequence of top-level entries, whose values are strings, tables of
//! preset nodes, or something else; a preset node is a table of field
//! values or something else; a field value is a string, a boolean, an
//! array (whose elements are either strings or not), or something else.

use vstd::prelude::*;

verus! {

/// The value of one field of a preset table, as far as the rules read it.
/// An array element is `Some(chars)` when it is a string, `None` otherwise.
pub enum FieldValue {
    Str(Seq<char>),
    Bool(bool),
    Array(Seq<Option<Seq<char>>>),
    Other,
}

/// The value of one entry of the preset table: a table of fields, or
/// anything that is not table-like.
pub enum PresetNode {
    Fields(Seq<(Seq<char>, FieldValue)>),
    NotTable,
}

/// The value of one top-level entry of the document.
pub enum TopValue {
    Str(Seq<char>),
    Table(Seq<(Seq<char>, PresetNode)>),
    Other,
}

/// A whole configuration document: its top-level entries in order.
pub struct ConfigDoc {
    pub entries: Seq<(Seq<char>, TopValue)>,
}

/// The first value bound to `key`, if any.
pub open spec fn assoc<T>(entries: Seq<(Seq<char>, T)>, key: Seq<char>) -> Option<T>
    decreases entries.len(),
{
    if entries.len() == 0 {
        None
    } else if entries[0].0 == key {
        Some(entries[0].1)
    } else {
        assoc(entries.drop_first(), key)
    }
}

/// No two entries bind the same key.
pub open spec fn distinct_keys<T>(entries: Seq<(Seq<char>, T)>) -> bool {
    forall|i: int, j: int| 0 <= i < j < entries.len() ==> entries[i].0 != entries[j].0
}

/// A well-formed document: keys are unique at the top level and inside
/// every top-level table, as the configuration syntax guarantees.
pub open spec fn doc_wf(doc: ConfigDoc) -> bool {
    &&& distinct_keys(doc.entries)
    &&& forall|i: int|
        0 <= i < doc.entries.len() ==> match #[trigger] doc.entries[i].1 {
            TopValue::Table(t) => distinct_keys(t),
            _ => true,
        }
}

/// Under distinct keys, looking up the key of entry `i` yields entry `i`.
pub proof fn lemma_assoc_of_entry<T>(entries: Seq<(Seq<char>, T)>, i: int)
    requires
        distinct_keys(entries),
        0 <= i < entries.len(),
    ensures
        assoc(entries, entries[i].0) == Some(entries[i].1),
    decreases entries.len(),
{
    if i > 0 {
        assert(entries[0].0 != entries[i].0);
        lemma_assoc_of_entry(entries.drop_first(), i - 1);
    }
}

/// A found binding comes from some entry.
pub proof fn lemma_assoc_found<T>(entries: Seq<(Seq<char>, T)>, key: Seq<char>)
    requires
        assoc(entries, key) is Some,
    ensures
        exists|i: int|
            0 <= i < entries.len() && #[trigger] entries[i].0 == key && entries[i].1 == assoc(
                entries,
                key,
            ).unwrap(),
    decreases entries.len(),
{
    if entries.len() > 0 && entries[0].0 != key {
        lemma_assoc_found(entries.drop_first(), key);
        let i = choose|i: int|
            0 <= i < entries.drop_first().len() && #[trigger] entries.drop_first()[i].0 == key
                && entries.drop_first()[i].1 == assoc(entries.drop_first(), key).unwrap();
        assert(entries[i + 1].0 == key && entries[i + 1].1 == assoc(entries, key).unwrap());
    }
}

/// The top-level entry `key`, when it is a string.
pub open spec fn spec_doc_str(doc: ConfigDoc, key: Seq<char>) -> Option<Seq<char>> {
    match assoc(doc.entries, key) {
        Some(TopValue::Str(s)) => Some(s),
        _ => None,
    }
}

/// The top-level entry `key`, when it is a table.
pub open spec fn spec_doc_table(doc: ConfigDoc, key: Seq<char>) -> Option<
    Seq<(Seq<char>, PresetNode)>,
> {
    match assoc(doc.entries, key) {
        Some(TopValue::Table(t)) => Some(t),
        _ => None,
    }
}

/// The field `key` of a preset node, if the node is a table and binds it.
pub open spec fn spec_node_field(node: PresetNode, key: Seq<char>) -> Option<FieldValue> {
    match node {
        PresetNode::Fields(fields) => assoc(fields, key),
        PresetNode::NotTable => None,
    }
}

/// Every element of the array is a string.
pub open spec fn all_strings(elems: Seq<Option<Seq<char>>>) -> bool {
    forall|i: int| 0 <= i < elems.len() ==> elems[i] is Some
}

/// The characters of each string element; meaningful under `all_strings`.
pub open spec fn string_elems(elems: Seq<Option<Seq<char>>>) -> Seq<Seq<char>> {
    elems.map_values(
        |e: Option<Seq<char>>|
            match e {
                Some(s) => s,
                None => Seq::<char>::empty(),
            },
    )
}

} // verus!
