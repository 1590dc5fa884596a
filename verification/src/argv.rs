//! The live argument vector: stripping the explicit `--preset` override,
//! synthesizing the tokens a resolved preset contributes, and splicing
//! them in right after the sub-command token.

use vstd::prelude::*;
use crate::commands::{CommandMeta, command_meta, spec_features_cmd, spec_full_cmd, str_eq};
use crate::presets::{ConfigError, Preset, PresetView, Presets, determine_preset,
    resolved_preset, spec_arg, spec_presets_of};
use crate::toml_tree::toml_doc_of;

verus! {

/// The character sequences of an argument vector.
pub open spec fn toks(args: Seq<String>) -> Seq<Seq<char>> {
    args.map_values(|s: String| s@)
}

/// The single token that carries the feature list: every feature followed
/// by a comma, the last one included.
pub open spec fn joined_features(fs: Seq<Seq<char>>) -> Seq<char>
    decreases fs.len(),
{
    if fs.len() == 0 {
        Seq::empty()
    } else {
        joined_features(fs.drop_last()) + fs.last() + ","@
    }
}

/// The number of commas in a character sequence.
pub open spec fn comma_count(s: Seq<char>) -> nat
    decreases s.len(),
{
    if s.len() == 0 {
        0
    } else {
        comma_count(s.drop_last()) + (if s.last() == ',' {
            1nat
        } else {
            0nat
        })
    }
}

proof fn lemma_comma_count_concat(a: Seq<char>, b: Seq<char>)
    ensures
        comma_count(a + b) == comma_count(a) + comma_count(b),
    decreases b.len(),
{
    if b.len() == 0 {
        assert(a + b =~= a);
    } else {
        lemma_comma_count_concat(a, b.drop_last());
        assert((a + b).drop_last() =~= a + b.drop_last());
        assert((a + b).last() == b.last());
    }
}

/// The trailing-comma law: a feature list of length `n` whose features
/// contain no comma themselves yields a features token with exactly `n`
/// commas, one after each feature, the last included.
pub proof fn lemma_feature_token_commas(fs: Seq<Seq<char>>)
    requires
        forall|i: int| 0 <= i < fs.len() ==> comma_count(#[trigger] fs[i]) == 0,
    ensures
        comma_count(joined_features(fs)) == fs.len(),
    decreases fs.len(),
{
    reveal_strlit(",");
    reveal_with_fuel(comma_count, 2);
    assert(","@.len() == 1);
    assert(","@[0] == ',');
    assert(","@.drop_last() =~= Seq::<char>::empty());
    assert(comma_count(","@) == 1);
    if fs.len() > 0 {
        lemma_feature_token_commas(fs.drop_last());
        assert(fs[fs.len() - 1] == fs.last());
        lemma_comma_count_concat(joined_features(fs.drop_last()), fs.last());
        lemma_comma_count_concat(joined_features(fs.drop_last()) + fs.last(), ","@);
    }
}

/// The `--no-default-features` token, when the command accepts feature
/// flags and the preset suppresses default features.
pub open spec fn no_default_tokens(has_features: bool, p: PresetView) -> Seq<Seq<char>> {
    if has_features && p.no_default_features {
        seq!["--no-default-features"@]
    } else {
        Seq::empty()
    }
}

/// The `--features` flag and its list token, when the command accepts
/// feature flags and the preset names any feature.
pub open spec fn feature_tokens(has_features: bool, p: PresetView) -> Seq<Seq<char>> {
    if has_features && p.features.len() > 0 {
        seq!["--features"@, joined_features(p.features)]
    } else {
        Seq::empty()
    }
}

/// The `--target=<target>` token, when the command accepts a target flag
/// and the preset overrides the target.
pub open spec fn target_tokens(has_target: bool, p: PresetView) -> Seq<Seq<char>> {
    if has_target && p.target.len() > 0 {
        seq!["--target="@ + p.target]
    } else {
        Seq::empty()
    }
}

/// Everything a preset contributes, in its fixed order: the
/// default-features suppression, then the feature list, then the target.
pub open spec fn injected_tokens(has_target: bool, has_features: bool, p: PresetView) -> Seq<
    Seq<char>,
> {
    no_default_tokens(has_features, p) + feature_tokens(has_features, p) + target_tokens(
        has_target,
        p,
    )
}

/// Splices the tokens of a resolved preset into the argument vector,
/// immediately after the sub-command token: everything before and after
/// is preserved.
pub fn inject_args(cmd_meta: &CommandMeta, preset: &Preset, args: &mut Vec<String>)
    requires
        old(args).len() >= 1,
    ensures
        toks(final(args)@) == toks(old(args)@).take(1) + injected_tokens(
            cmd_meta.has_target,
            cmd_meta.has_features,
            preset@,
        ) + toks(old(args)@).skip(1),
{
    let ghost orig = args@;
    let mut additional: Vec<String> = Vec::new();
    if cmd_meta.has_features {
        if preset.no_default_features {
            additional.push("--no-default-features".to_owned());
        }
        proof {
            assert(toks(additional@) =~= no_default_tokens(cmd_meta.has_features, preset@));
        }
        let ghost base = additional@;
        if preset.features.len() > 0 {
            additional.push("--features".to_owned());
            let ghost fs = preset@.features;
            let mut feature_str = String::new();
            let n = preset.features.len();
            let mut i: usize = 0;
            while i < n
                invariant
                    n == preset.features@.len(),
                    fs == preset@.features,
                    i <= n,
                    feature_str@ == joined_features(fs.take(i as int)),
                decreases n - i,
            {
                feature_str.append(preset.features[i].as_str());
                feature_str.append(",");
                proof {
                    assert(fs.take(i as int + 1).drop_last() =~= fs.take(i as int));
                    assert(fs.take(i as int + 1).last() == fs[i as int]);
                    assert(fs[i as int] == preset.features@[i as int]@);
                }
                i = i + 1;
            }
            proof {
                assert(fs.take(n as int) =~= fs);
            }
            additional.push(feature_str);
            proof {
                assert(toks(additional@) =~= toks(base) + feature_tokens(
                    cmd_meta.has_features,
                    preset@,
                ));
            }
        }
        proof {
            assert(toks(additional@) =~= no_default_tokens(cmd_meta.has_features, preset@)
                + feature_tokens(cmd_meta.has_features, preset@));
        }
    } else {
        proof {
            assert(toks(additional@) =~= no_default_tokens(cmd_meta.has_features, preset@)
                + feature_tokens(cmd_meta.has_features, preset@));
        }
    }
    let ghost mid = additional@;
    if cmd_meta.has_target && !preset.target.as_str().is_empty() {
        let mut t: String = "--target=".to_owned();
        t.append(preset.target.as_str());
        additional.push(t);
    }
    proof {
        assert(toks(additional@) =~= toks(mid) + target_tokens(cmd_meta.has_target, preset@));
        assert(toks(additional@) =~= injected_tokens(
            cmd_meta.has_target,
            cmd_meta.has_features,
            preset@,
        ));
    }
    let mut result: Vec<String> = Vec::new();
    result.push(args[0].clone());
    let m = additional.len();
    let mut k: usize = 0;
    while k < m
        invariant
            m == additional@.len(),
            k <= m,
            result@.len() == 1 + k,
            result@[0] == orig[0],
            forall|j: int| 0 <= j < k ==> result@[1 + j] == additional@[j],
        decreases m - k,
    {
        result.push(additional[k].clone());
        k = k + 1;
    }
    let mut i: usize = 1;
    while i < args.len()
        invariant
            args@ == orig,
            m == additional@.len(),
            1 <= i <= orig.len(),
            result@.len() == m + i,
            result@[0] == orig[0],
            forall|j: int| 0 <= j < m ==> result@[1 + j] == additional@[j],
            forall|j: int| 1 <= j < i ==> result@[m + j] == orig[j],
        decreases args@.len() - i,
    {
        result.push(args[i].clone());
        i = i + 1;
    }
    *args = result;
    proof {
        assert(toks(args@) =~= toks(orig).take(1) + toks(additional@) + toks(orig).skip(1));
    }
}

/// The abstract value of an optional configuration text.
pub open spec fn spec_text(t: Option<&str>) -> Option<Seq<char>> {
    match t {
        Some(s) => Some(s@),
        None => None,
    }
}

/// Whether the pipeline attempts a parse and the parse fails: the only
/// way the pipeline as a whole fails.
pub open spec fn parse_failure(args: Seq<Seq<char>>, text: Option<Seq<char>>) -> bool {
    &&& args.len() > 0
    &&& (spec_full_cmd(args[0]) || spec_features_cmd(args[0]))
    &&& (match text {
        Some(t) => toml_doc_of(t) is None,
        None => false,
    })
}

/// The argument vector the pipeline hands to the underlying tool, given
/// the vector after override-stripping, the stripped override, and the
/// located configuration text: unchanged unless a sub-command that
/// accepts preset arguments, a well-formed text and a resolved preset
/// all come together.
pub open spec fn final_args_spec(
    args: Seq<Seq<char>>,
    arg: Option<Seq<char>>,
    text: Option<Seq<char>>,
) -> Seq<Seq<char>> {
    if args.len() == 0 {
        args
    } else if !(spec_full_cmd(args[0]) || spec_features_cmd(args[0])) {
        args
    } else {
        match text {
            None => args,
            Some(t) => match toml_doc_of(t) {
                None => args,
                Some(doc) => match resolved_preset(spec_presets_of(doc), arg) {
                    None => args,
                    Some(p) => args.take(1) + injected_tokens(
                        spec_full_cmd(args[0]),
                        spec_features_cmd(args[0]),
                        p,
                    ) + args.skip(1),
                },
            },
        }
    }
}

/// No configuration text found: the argument vector is passed through
/// unchanged.
pub proof fn lemma_no_config_passthrough(args: Seq<Seq<char>>, arg: Option<Seq<char>>)
    ensures
        final_args_spec(args, arg, None) == args,
{
}

/// A well-formed text whose resolved preset name selects no preset: the
/// argument vector is passed through unchanged.
pub proof fn lemma_missing_preset_passthrough(
    args: Seq<Seq<char>>,
    arg: Option<Seq<char>>,
    text: Seq<char>,
)
    requires
        toml_doc_of(text) is Some,
        resolved_preset(spec_presets_of(toml_doc_of(text).unwrap()), arg) is None,
    ensures
        final_args_spec(args, arg, Some(text)) == args,
{
}

/// Runs the pipeline after override-stripping: classifies the
/// sub-command, parses the located configuration text, resolves the
/// active preset and injects its tokens. Fails exactly when a parse is
/// attempted and the text is not well-formed; every other degraded
/// condition leaves the arguments unchanged.
pub fn apply_config(
    args: &mut Vec<String>,
    preset_arg: Option<&String>,
    config_text: Option<&str>,
) -> (r: Result<(), ConfigError>)
    ensures
        (r is Err) == parse_failure(toks(old(args)@), spec_text(config_text)),
        r is Err ==> final(args)@ == old(args)@,
        r is Ok ==> toks(final(args)@) == final_args_spec(
            toks(old(args)@),
            spec_arg(preset_arg),
            spec_text(config_text),
        ),
{
    if args.len() == 0 {
        return Ok(());
    }
    proof {
        assert(toks(args@)[0] == args@[0]@);
    }
    let meta = command_meta(args[0].as_str());
    if !meta.needs_config() {
        return Ok(());
    }
    let text = match config_text {
        Some(t) => t,
        None => {
            return Ok(());
        },
    };
    let presets = match Presets::parse(text) {
        Ok(p) => p,
        Err(e) => {
            return Err(e);
        },
    };
    match determine_preset(&presets, preset_arg) {
        Some(p) => {
            inject_args(&meta, p, args);
        },
        None => {},
    }
    Ok(())
}

/// The position of the first `--preset` token, if any.
pub open spec fn flag_index(ts: Seq<Seq<char>>) -> Option<int>
    decreases ts.len(),
{
    if ts.len() == 0 {
        None
    } else if ts[0] == "--preset"@ {
        Some(0)
    } else {
        match flag_index(ts.drop_first()) {
            Some(i) => Some(i + 1),
            None => None,
        }
    }
}

proof fn lemma_flag_index_at(ts: Seq<Seq<char>>, i: int)
    requires
        0 <= i < ts.len(),
        ts[i] == "--preset"@,
        forall|j: int| 0 <= j < i ==> ts[j] != "--preset"@,
    ensures
        flag_index(ts) == Some(i),
    decreases ts.len(),
{
    if i > 0 {
        lemma_flag_index_at(ts.drop_first(), i - 1);
    }
}

proof fn lemma_flag_index_none(ts: Seq<Seq<char>>)
    requires
        forall|j: int| 0 <= j < ts.len() ==> ts[j] != "--preset"@,
    ensures
        flag_index(ts) is None,
    decreases ts.len(),
{
    if ts.len() > 0 {
        lemma_flag_index_none(ts.drop_first());
    }
}

/// Strips the first `--preset` flag and the token after it, returning
/// that token as the explicit override; the relative order of every
/// remaining token is untouched. A trailing `--preset` with no value is
/// removed and yields no override.
pub fn strip_preset_arg(args: &mut Vec<String>) -> (r: Option<String>)
    ensures
        match flag_index(toks(old(args)@)) {
            None => final(args)@ == old(args)@ && r is None,
            Some(i) => if i + 1 < old(args)@.len() {
                (r matches Some(s) && s@ == toks(old(args)@)[i + 1]) && toks(final(args)@)
                    == toks(old(args)@).take(i) + toks(old(args)@).skip(i + 2)
            } else {
                (r is None) && toks(final(args)@) == toks(old(args)@).take(i)
            },
        },
{
    let n = args.len();
    let mut i: usize = 0;
    while i < n
        invariant
            args@ == old(args)@,
            n == old(args)@.len(),
            i <= n,
            forall|j: int| 0 <= j < i ==> toks(old(args)@)[j] != "--preset"@,
        decreases n - i,
    {
        let ghost orig = args@;
        if str_eq(args[i].as_str(), "--preset") {
            proof {
                assert(toks(orig)[i as int] == orig[i as int]@);
                lemma_flag_index_at(toks(orig), i as int);
            }
            args.remove(i);
            if i < args.len() {
                let s = args.remove(i);
                proof {
                    assert(s@ == toks(orig)[i as int + 1]);
                    assert(toks(args@) =~= toks(orig).take(i as int) + toks(orig).skip(
                        i as int + 2,
                    ));
                }
                return Some(s);
            } else {
                proof {
                    assert(toks(args@) =~= toks(orig).take(i as int));
                }
                return None;
            }
        }
        i = i + 1;
    }
    proof {
        lemma_flag_index_none(toks(old(args)@));
    }
    None
}

} // verus!
