//! The trusted boundary around the configuration-text parser.
//!
//! The parser (`toml_edit`) turns text into a tree of typed values; this
//! module declares the parser's types, names the tree that a given text
//! parses to, and wraps the few accessors the preset rules call. Every
//! contract here is believed, not proved: each states no more than the
//! parser's own source shows.

use vstd::prelude::*;
use crate::model::{ConfigDoc, FieldValue, PresetNode, TopValue};
use crate::model::{doc_wf, spec_doc_str, spec_doc_table, spec_node_field, assoc};

verus! {

#[verifier::external_type_specification]
#[verifier::external_body]
#[verifier::reject_recursive_types(S)]
pub struct ExDocument<S>(toml_edit::Document<S>);

#[verifier::external_type_specification]
#[verifier::external_body]
pub struct ExTomlItem(toml_edit::Item);

#[verifier::external_type_specification]
#[verifier::external_body]
pub struct ExTomlArray(toml_edit::Array);

#[verifier::external_type_specification]
#[verifier::external_body]
pub struct ExTomlError(toml_edit::TomlError);

/// The tree that `text` parses to: `Some` exactly when the text is
/// well-formed configuration syntax. The tree is a function of the text
/// alone.
pub uninterp spec fn toml_doc_of(text: Seq<char>) -> Option<ConfigDoc>;

/// The tree held by a parsed document value.
pub uninterp spec fn doc_model(d: toml_edit::Document<String>) -> ConfigDoc;

/// The preset node held by an item of the preset table.
pub uninterp spec fn item_model(i: toml_edit::Item) -> PresetNode;

/// The elements held by an array value: the characters of each string
/// element, `None` for each element that is not a string.
pub uninterp spec fn array_model(a: toml_edit::Array) -> Seq<Option<Seq<char>>>;

/// Relies on `toml_edit::Document::parse`: it returns `Ok` exactly on
/// well-formed text, the resulting tree is a function of the text alone,
/// and the syntax admits no duplicate keys within one table.
#[verifier::external_body]
pub(crate) fn parse_document(text: &str) -> (r: Result<
    toml_edit::Document<String>,
    toml_edit::TomlError,
>)
    ensures
        (r is Ok) == (toml_doc_of(text@) is Some),
        r matches Ok(d) ==> toml_doc_of(text@) == Some(doc_model(d)) && doc_wf(doc_model(d)),
{
    toml_edit::Document::parse(text.to_owned())
}

/// Relies on `toml_edit::Table::get` and `toml_edit::Item::as_str`: the
/// value of the named top-level entry, when that entry is a string.
#[verifier::external_body]
pub(crate) fn doc_get_str(d: &toml_edit::Document<String>, key: &str) -> (r: Option<String>)
    ensures
        match spec_doc_str(doc_model(*d), key@) {
            Some(s) => r matches Some(rs) && rs@ == s,
            None => r is None,
        },
{
    d.as_table().get(key).and_then(toml_edit::Item::as_str).map(str::to_owned)
}

/// Relies on `toml_edit::Table::get` and `toml_edit::Table::iter`: the
/// keys of the named top-level table, in order, when that entry is a
/// table.
#[verifier::external_body]
pub(crate) fn doc_table_keys(d: &toml_edit::Document<String>, key: &str) -> (r: Option<
    Vec<String>,
>)
    ensures
        match spec_doc_table(doc_model(*d), key@) {
            Some(entries) => r matches Some(ks) && ks@.len() == entries.len() && (forall|i: int|
                0 <= i < entries.len() ==> #[trigger] ks@[i]@ == entries[i].0),
            None => r is None,
        },
{
    match d.as_table().get(key) {
        Some(toml_edit::Item::Table(t)) => Some(t.iter().map(|(k, _)| k.to_owned()).collect()),
        _ => None,
    }
}

/// Relies on `toml_edit::Table::get`: the item bound to `name` inside the
/// named top-level table.
#[verifier::external_body]
pub(crate) fn preset_entry<'a>(
    d: &'a toml_edit::Document<String>,
    key: &str,
    name: &str,
) -> (r: Option<&'a toml_edit::Item>)
    ensures
        match spec_doc_table(doc_model(*d), key@) {
            Some(entries) => match assoc(entries, name@) {
                Some(node) => r matches Some(it) && item_model(*it) == node,
                None => r is None,
            },
            None => r is None,
        },
{
    match d.as_table().get(key) {
        Some(toml_edit::Item::Table(t)) => t.get(name),
        _ => None,
    }
}

/// Relies on `toml_edit::Item::get` and `toml_edit::Item::as_str`: the
/// field bound to `key` in a table-like item, when it is a string.
#[verifier::external_body]
pub(crate) fn item_get_str(i: &toml_edit::Item, key: &str) -> (r: Option<String>)
    ensures
        match spec_node_field(item_model(*i), key@) {
            Some(FieldValue::Str(s)) => r matches Some(rs) && rs@ == s,
            _ => r is None,
        },
{
    i.get(key).and_then(toml_edit::Item::as_str).map(str::to_owned)
}

/// Relies on `toml_edit::Item::get` and `toml_edit::Item::as_bool`: the
/// field bound to `key` in a table-like item, when it is a boolean.
#[verifier::external_body]
pub(crate) fn item_get_bool(i: &toml_edit::Item, key: &str) -> (r: Option<bool>)
    ensures
        match spec_node_field(item_model(*i), key@) {
            Some(FieldValue::Bool(b)) => r == Some(b),
            _ => r is None,
        },
{
    i.get(key).and_then(toml_edit::Item::as_bool)
}

/// Relies on `toml_edit::Item::get` and `toml_edit::Item::as_array`: the
/// field bound to `key` in a table-like item, when it is an array.
#[verifier::external_body]
pub(crate) fn item_get_array<'a>(i: &'a toml_edit::Item, key: &str) -> (r: Option<
    &'a toml_edit::Array,
>)
    ensures
        match spec_node_field(item_model(*i), key@) {
            Some(FieldValue::Array(elems)) => r matches Some(a) && array_model(*a) == elems,
            _ => r is None,
        },
{
    i.get(key).and_then(toml_edit::Item::as_array)
}

/// Relies on `toml_edit::Array::len`: the number of elements.
#[verifier::external_body]
pub(crate) fn array_len(a: &toml_edit::Array) -> (r: usize)
    ensures
        r == array_model(*a).len(),
{
    a.len()
}

/// Relies on `toml_edit::Array::get` and `toml_edit::Value::as_str`: the
/// element at `idx`, when it is a string.
#[verifier::external_body]
pub(crate) fn array_str_at(a: &toml_edit::Array, idx: usize) -> (r: Option<String>)
    requires
        idx < array_model(*a).len(),
    ensures
        r matches Some(s) ==> array_model(*a)[idx as int] == Some(s@),
        r is None ==> array_model(*a)[idx as int] is None,
{
    a.get(idx).and_then(toml_edit::Value::as_str).map(str::to_owned)
}

} // verus!
