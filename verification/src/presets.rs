//! The typed configuration: named presets, how they are built from a
//! parsed document, and how the active preset is resolved.

use vstd::prelude::*;
use crate::model::{ConfigDoc, FieldValue, PresetNode, TopValue, all_strings, assoc,
    distinct_keys, spec_doc_str, spec_doc_table, spec_node_field, string_elems,
    lemma_assoc_of_entry, lemma_assoc_found};
use crate::toml_tree::{array_len, array_model, array_str_at, doc_get_str, doc_model,
    doc_table_keys, item_get_array, item_get_bool, item_get_str, item_model, parse_document,
    preset_entry, toml_doc_of};

verus! {

/// A named bundle of build settings.
pub struct Preset {
    pub no_default_features: bool,
    pub features: Vec<String>,
    pub target: String,
}

/// The abstract value of a `Preset`.
pub struct PresetView {
    pub no_default_features: bool,
    pub features: Seq<Seq<char>>,
    pub target: Seq<char>,
}

impl View for Preset {
    type V = PresetView;

    open spec fn view(&self) -> PresetView {
        PresetView {
            no_default_features: self.no_default_features,
            features: self.features@.map_values(|s: String| s@),
            target: self.target@,
        }
    }
}

/// The parsed configuration: a default preset name (empty when none is
/// configured) and the named presets.
pub struct Presets {
    pub default: String,
    pub presets: Vec<(String, Preset)>,
}

/// The abstract value of a `Presets`: the preset names are unique, so the
/// bundle is a map.
pub struct PresetsView {
    pub default: Seq<char>,
    pub presets: Map<Seq<char>, PresetView>,
}

/// The map described by a sequence of named presets.
pub open spec fn preset_map(entries: Seq<(String, Preset)>) -> Map<Seq<char>, PresetView>
    decreases entries.len(),
{
    if entries.len() == 0 {
        Map::empty()
    } else {
        preset_map(entries.drop_last()).insert(entries.last().0@, entries.last().1@)
    }
}

impl View for Presets {
    type V = PresetsView;

    open spec fn view(&self) -> PresetsView {
        PresetsView { default: self.default@, presets: preset_map(self.presets@) }
    }
}

impl Presets {
    /// Well-formed: no two presets share a name.
    pub open spec fn wf(&self) -> bool {
        forall|i: int, j: int|
            0 <= i < j < self.presets@.len() ==> self.presets@[i].0@ != self.presets@[j].0@
    }
}

/// The reason a configuration text is rejected as a whole: it is not
/// well-formed configuration syntax. Field-level problems never reject
/// the text; they only make the affected value fall back to its default.
#[derive(Debug, PartialEq, Eq, Structural)]
pub enum ConfigError {
    Syntax,
}

/// The feature list a preset node yields: the elements of its `features`
/// array in order when that field is an array of strings, the empty list
/// otherwise.
pub open spec fn spec_features_of(node: PresetNode) -> Seq<Seq<char>> {
    match spec_node_field(node, "features"@) {
        Some(FieldValue::Array(elems)) => if all_strings(elems) {
            string_elems(elems)
        } else {
            Seq::empty()
        },
        _ => Seq::empty(),
    }
}

/// Whether default features are suppressed: the negation of the
/// `default-features` field when it is a boolean, `false` otherwise.
pub open spec fn spec_no_default_features(node: PresetNode) -> bool {
    match spec_node_field(node, "default-features"@) {
        Some(FieldValue::Bool(b)) => !b,
        _ => false,
    }
}

/// The target override: the `target` field when it is a string, empty
/// otherwise.
pub open spec fn spec_target_of(node: PresetNode) -> Seq<char> {
    match spec_node_field(node, "target"@) {
        Some(FieldValue::Str(s)) => s,
        _ => Seq::empty(),
    }
}

/// The preset a node of the preset table yields.
pub open spec fn spec_preset_of(node: PresetNode) -> PresetView {
    PresetView {
        no_default_features: spec_no_default_features(node),
        features: spec_features_of(node),
        target: spec_target_of(node),
    }
}

/// The map of presets a parsed document yields.
pub open spec fn node_map(entries: Seq<(Seq<char>, PresetNode)>) -> Map<Seq<char>, PresetView>
    decreases entries.len(),
{
    if entries.len() == 0 {
        Map::empty()
    } else {
        node_map(entries.drop_last()).insert(
            entries.last().0,
            spec_preset_of(entries.last().1),
        )
    }
}

/// The whole configuration a parsed document yields: the `default` entry
/// when it is a string, and one preset per entry of the `preset` table
/// when that entry is a table (no presets otherwise).
pub open spec fn spec_presets_of(doc: ConfigDoc) -> PresetsView {
    PresetsView {
        default: match spec_doc_str(doc, "default"@) {
            Some(s) => s,
            None => Seq::empty(),
        },
        presets: match spec_doc_table(doc, "preset"@) {
            Some(entries) => node_map(entries),
            None => Map::empty(),
        },
    }
}

/// Collects the elements of a `features` array; yields the empty list as
/// soon as one element is not a string.
fn read_features(a: &toml_edit::Array) -> (r: Vec<String>)
    ensures
        r@.map_values(|s: String| s@) == (if all_strings(array_model(*a)) {
            string_elems(array_model(*a))
        } else {
            Seq::<Seq<char>>::empty()
        }),
{
    let n = array_len(a);
    let mut out: Vec<String> = Vec::new();
    let mut i: usize = 0;
    while i < n
        invariant
            n == array_model(*a).len(),
            i <= n,
            out@.len() == i,
            forall|j: int| 0 <= j < i ==> array_model(*a)[j] == Some(#[trigger] out@[j]@),
        decreases n - i,
    {
        match array_str_at(a, i) {
            Some(s) => {
                out.push(s);
            },
            None => {
                let empty: Vec<String> = Vec::new();
                proof {
                    assert(!all_strings(array_model(*a)));
                    assert(empty@.map_values(|s: String| s@) =~= Seq::<Seq<char>>::empty());
                }
                return empty;
            },
        }
        i = i + 1;
    }
    proof {
        assert forall|j: int| 0 <= j < array_model(*a).len() implies array_model(*a)[j] is Some by {
            assert(array_model(*a)[j] == Some(out@[j]@));
        }
        assert(all_strings(array_model(*a)));
        assert(out@.map_values(|s: String| s@) =~= string_elems(array_model(*a)));
    }
    out
}

impl Default for Preset {
    /// A preset with no explicit values: default features kept, no extra
    /// features, no target override.
    fn default() -> (r: Preset)
        ensures
            r@ == (PresetView {
                no_default_features: false,
                features: Seq::<Seq<char>>::empty(),
                target: Seq::<char>::empty(),
            }),
    {
        let r = Preset { no_default_features: false, features: Vec::new(), target: String::new() };
        proof {
            assert(r@.features =~= Seq::<Seq<char>>::empty());
        }
        r
    }
}

impl Preset {
    /// Builds the preset a node of the preset table describes. Each field
    /// is validated independently; a missing or wrong-typed field falls
    /// back to its default and never fails the build.
    pub fn from_toml_item(item: &toml_edit::Item) -> (r: Preset)
        ensures
            r@ == spec_preset_of(item_model(*item)),
    {
        let features: Vec<String> = match item_get_array(item, "features") {
            Some(a) => read_features(a),
            None => {
                let v: Vec<String> = Vec::new();
                proof {
                    assert(v@.map_values(|s: String| s@) =~= Seq::<Seq<char>>::empty());
                }
                v
            },
        };
        let no_default_features: bool = match item_get_bool(item, "default-features") {
            Some(b) => !b,
            None => false,
        };
        let target: String = match item_get_str(item, "target") {
            Some(s) => s,
            None => String::new(),
        };
        Preset { no_default_features, features, target }
    }
}

impl Presets {
    /// Parses a configuration text. Fails exactly when the text is not
    /// well-formed configuration syntax; every field-level problem only
    /// degrades the affected value to its default.
    pub fn parse(toml: &str) -> (r: Result<Presets, ConfigError>)
        ensures
            (r is Ok) == (toml_doc_of(toml@) is Some),
            r matches Ok(p) ==> p.wf() && toml_doc_of(toml@) == Some(
                spec_doc_of_parse(toml@),
            ) && p@ == spec_presets_of(spec_doc_of_parse(toml@)),
    {
        let doc = match parse_document(toml) {
            Ok(d) => d,
            Err(_) => {
                return Err(ConfigError::Syntax);
            },
        };
        let ghost m: ConfigDoc = crate::toml_tree::doc_model(doc);
        let default: String = match doc_get_str(&doc, "default") {
            Some(s) => s,
            None => String::new(),
        };
        let mut presets: Vec<(String, Preset)> = Vec::new();
        match doc_table_keys(&doc, "preset") {
            Some(keys) => {
                let ghost entries = spec_doc_table(m, "preset"@).unwrap();
                proof {
                    lemma_assoc_found(m.entries, "preset"@);
                    let i = choose|i: int|
                        0 <= i < m.entries.len() && #[trigger] m.entries[i].0 == "preset"@
                            && m.entries[i].1 == assoc(m.entries, "preset"@).unwrap();
                    assert(m.entries[i].1 == TopValue::Table(entries));
                    assert(distinct_keys(entries));
                }
                let mut idx: usize = 0;
                while idx < keys.len()
                    invariant
                        m == doc_model(doc),
                        spec_doc_table(m, "preset"@) == Some(entries),
                        distinct_keys(entries),
                        keys@.len() == entries.len(),
                        forall|j: int| 0 <= j < entries.len() ==> #[trigger] keys@[j]@
                            == entries[j].0,
                        idx <= keys@.len(),
                        presets@.len() == idx,
                        forall|j: int| 0 <= j < idx ==> #[trigger] presets@[j].0@
                            == entries[j].0,
                        forall|j: int| 0 <= j < idx ==> #[trigger] presets@[j].1@
                            == spec_preset_of(entries[j].1),
                        preset_map(presets@) == node_map(entries.take(idx as int)),
                    decreases keys@.len() - idx,
                {
                    let name: String = keys[idx].clone();
                    proof {
                        assert(name@ == entries[idx as int].0);
                        lemma_assoc_of_entry(entries, idx as int);
                    }
                    let it = preset_entry(&doc, "preset", name.as_str()).unwrap();
                    let p = Preset::from_toml_item(it);
                    let ghost before = presets@;
                    let ghost nm = name@;
                    let ghost pv = p@;
                    presets.push((name, p));
                    proof {
                        assert(presets@.drop_last() =~= before);
                        assert(presets@.last().0@ == nm && presets@.last().1@ == pv);
                        assert(preset_map(presets@) == preset_map(before).insert(nm, pv));
                        assert(entries.take(idx as int + 1).drop_last() =~= entries.take(
                            idx as int,
                        ));
                        assert(entries.take(idx as int + 1).last() == entries[idx as int]);
                        assert(node_map(entries.take(idx as int + 1)) == node_map(
                            entries.take(idx as int),
                        ).insert(entries[idx as int].0, spec_preset_of(entries[idx as int].1)));
                    }
                    idx = idx + 1;
                }
                proof {
                    assert(entries.take(entries.len() as int) =~= entries);
                }
            },
            None => {
                proof {
                    assert(preset_map(presets@) =~= Map::<Seq<char>, PresetView>::empty());
                }
            },
        }
        let r = Presets { default, presets };
        Ok(r)
    }
}

/// The document a well-formed text parses to.
pub open spec fn spec_doc_of_parse(text: Seq<char>) -> ConfigDoc
    recommends
        toml_doc_of(text) is Some,
{
    toml_doc_of(text).unwrap()
}

/// The abstract value of an optional explicit override.
pub open spec fn spec_arg(arg: Option<&String>) -> Option<Seq<char>> {
    match arg {
        Some(a) => Some(a@),
        None => None,
    }
}

/// The key the resolution rules select: the explicit override
/// unconditionally when one is given, else the configured default when it
/// is non-empty, else none.
pub open spec fn resolved_key(v: PresetsView, arg: Option<Seq<char>>) -> Option<Seq<char>> {
    match arg {
        Some(a) => Some(a),
        None => if v.default.len() == 0 {
            None
        } else {
            Some(v.default)
        },
    }
}

/// The preset the resolution rules select: the one under the resolved
/// key, or none when no key resolves or the key names no preset.
pub open spec fn resolved_preset(v: PresetsView, arg: Option<Seq<char>>) -> Option<PresetView> {
    match resolved_key(v, arg) {
        None => None,
        Some(k) => if v.presets.contains_key(k) {
            Some(v.presets[k])
        } else {
            None
        },
    }
}

/// Override precedence: an explicit override that names a preset selects
/// exactly that preset, whatever default is configured.
pub proof fn lemma_override_precedence(v: PresetsView, name: Seq<char>)
    requires
        v.presets.contains_key(name),
    ensures
        resolved_preset(v, Some(name)) == Some(v.presets[name]),
{
}

/// A name found in the map corresponds to an entry of the sequence.
proof fn lemma_preset_map_contains(entries: Seq<(String, Preset)>, k: Seq<char>)
    ensures
        preset_map(entries).contains_key(k) <==> exists|i: int|
            0 <= i < entries.len() && #[trigger] entries[i].0@ == k,
    decreases entries.len(),
{
    if entries.len() > 0 {
        lemma_preset_map_contains(entries.drop_last(), k);
        assert(forall|i: int|
            0 <= i < entries.len() - 1 ==> #[trigger] entries.drop_last()[i] == entries[i]);
        if entries.last().0@ == k {
            assert(entries[entries.len() - 1].0@ == k);
        } else {
            if preset_map(entries).contains_key(k) {
                let i = choose|i: int|
                    0 <= i < entries.drop_last().len() && #[trigger] entries.drop_last()[i].0@
                        == k;
                assert(entries[i].0@ == k);
            }
            if exists|i: int| 0 <= i < entries.len() && #[trigger] entries[i].0@ == k {
                let i = choose|i: int| 0 <= i < entries.len() && #[trigger] entries[i].0@ == k;
                assert(entries.drop_last()[i].0@ == k);
            }
        }
    }
}

/// Under unique names, the map sends each entry's name to its preset.
proof fn lemma_preset_map_at(entries: Seq<(String, Preset)>, i: int)
    requires
        0 <= i < entries.len(),
        forall|x: int, y: int|
            0 <= x < y < entries.len() ==> entries[x].0@ != entries[y].0@,
    ensures
        preset_map(entries).contains_key(entries[i].0@),
        preset_map(entries)[entries[i].0@] == entries[i].1@,
    decreases entries.len(),
{
    if i < entries.len() - 1 {
        assert(entries.drop_last()[i] == entries[i]);
        lemma_preset_map_at(entries.drop_last(), i);
        assert(entries.last().0@ != entries[i].0@);
    }
}

/// Resolves the active preset: an explicit override always wins over the
/// configured default; an empty default means no preset; a resolved name
/// absent from the map means no preset, never an error.
pub fn determine_preset<'p>(presets: &'p Presets, preset_arg: Option<&String>) -> (r: Option<
    &'p Preset,
>)
    requires
        presets.wf(),
    ensures
        match r {
            Some(p) => resolved_preset(presets@, spec_arg(preset_arg)) == Some(p@),
            None => resolved_preset(presets@, spec_arg(preset_arg)) is None,
        },
{
    let key: &String = match preset_arg {
        Some(a) => a,
        None => {
            if presets.default.as_str().is_empty() {
                return None;
            }
            &presets.default
        },
    };
    let n = presets.presets.len();
    let mut idx: usize = 0;
    while idx < n
        invariant
            n == presets.presets@.len(),
            idx <= n,
            presets.wf(),
            resolved_key(presets@, spec_arg(preset_arg)) == Some(key@),
            forall|j: int| 0 <= j < idx ==> #[trigger] presets.presets@[j].0@ != key@,
        decreases n - idx,
    {
        let pair = &presets.presets[idx];
        if crate::commands::str_eq(pair.0.as_str(), key.as_str()) {
            proof {
                lemma_preset_map_at(presets.presets@, idx as int);
            }
            return Some(&pair.1);
        }
        idx = idx + 1;
    }
    proof {
        lemma_preset_map_contains(presets.presets@, key@);
    }
    None
}

} // verus!
