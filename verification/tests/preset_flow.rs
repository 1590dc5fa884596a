use cargo_preset::argv::{apply_config, inject_args, strip_preset_arg};
use cargo_preset::commands::command_meta;
use cargo_preset::locate::first_existing_ancestor;
use cargo_preset::presets::{ConfigError, Preset, Presets, determine_preset};

#[test]
fn test_inject_args() {
    let mut args: Vec<String> = vec!["build".into(), "--preset".into(), "foo".into()];
    let preset = strip_preset_arg(&mut args);
    assert_eq!(preset, Some("foo".into()));
    let meta = command_meta(args[0].as_str());
    assert!(meta.needs_config());
    inject_args(
        &meta,
        &Preset {
            no_default_features: true,
            features: vec!["foo".into(), "bar".into()],
            target: "wasm32-unknown-unknown".into(),
        },
        &mut args,
    );
    assert_eq!(
        args,
        [
            "build",
            "--no-default-features",
            "--features",
            "foo,bar,",
            "--target=wasm32-unknown-unknown"
        ]
    );
}

#[test]
fn locator_finds_ancestor_at_any_depth() {
    // Only the third directory up has the file.
    let has_file = vec![false, false, false, true, false];
    assert_eq!(first_existing_ancestor(&has_file), Some(3));
    // The starting directory itself has it.
    assert_eq!(first_existing_ancestor(&vec![true, true]), Some(0));
    // Deeper start, same ancestor: still found.
    let deep = vec![false, false, false, false, false, false, true];
    assert_eq!(first_existing_ancestor(&deep), Some(6));
}

#[test]
fn locator_reports_not_found() {
    assert_eq!(first_existing_ancestor(&vec![false, false, false]), None);
    assert_eq!(first_existing_ancestor(&Vec::new()), None);
}

#[test]
fn classifier_table_is_complete() {
    for name in ["check", "c", "build", "b", "test", "t", "run", "r", "rustc", "clippy"] {
        let meta = command_meta(name);
        assert!(meta.has_target, "{name}");
        assert!(meta.has_features, "{name}");
        assert!(meta.needs_config());
    }
    let metadata = command_meta("metadata");
    assert!(!metadata.has_target);
    assert!(metadata.has_features);
    assert!(metadata.needs_config());
    let other = command_meta("foo");
    assert!(!other.has_target);
    assert!(!other.has_features);
    assert!(!other.needs_config());
}

fn named(target: &str) -> Preset {
    Preset { no_default_features: false, features: Vec::new(), target: target.into() }
}

#[test]
fn override_wins_over_default() {
    let presets = Presets {
        default: "a".into(),
        presets: vec![("a".into(), named("ta")), ("b".into(), named("tb"))],
    };
    let arg = String::from("b");
    let chosen = determine_preset(&presets, Some(&arg)).expect("preset b should resolve");
    assert_eq!(chosen.target, "tb");
}

#[test]
fn default_resolves_without_override() {
    let presets = Presets {
        default: "a".into(),
        presets: vec![("a".into(), named("ta")), ("b".into(), named("tb"))],
    };
    let chosen = determine_preset(&presets, None).expect("default should resolve");
    assert_eq!(chosen.target, "ta");
}

#[test]
fn empty_default_resolves_to_nothing() {
    let presets = Presets {
        default: String::new(),
        presets: vec![("a".into(), named("ta"))],
    };
    assert!(determine_preset(&presets, None).is_none());
}

#[test]
fn missing_override_resolves_to_nothing() {
    let presets = Presets { default: "a".into(), presets: vec![("a".into(), named("ta"))] };
    let arg = String::from("nope");
    assert!(determine_preset(&presets, Some(&arg)).is_none());
}

const FULL_CONFIG: &str = "default = \"other\"\n\
[preset.other]\n\
target = \"x\"\n\
[preset.foo]\n\
features = [\"foo\", \"bar\"]\n\
default-features = false\n\
target = \"wasm32-unknown-unknown\"\n";

#[test]
fn end_to_end_injection_order_and_format() {
    let mut args: Vec<String> = vec!["build".into(), "--preset".into(), "foo".into()];
    let arg = strip_preset_arg(&mut args);
    assert_eq!(args, ["build"]);
    assert_eq!(arg, Some("foo".into()));
    let r = apply_config(&mut args, arg.as_ref(), Some(FULL_CONFIG));
    assert!(r.is_ok());
    assert_eq!(
        args,
        [
            "build",
            "--no-default-features",
            "--features",
            "foo,bar,",
            "--target=wasm32-unknown-unknown"
        ]
    );
}

#[test]
fn no_config_file_passes_arguments_through() {
    let mut args: Vec<String> = vec!["build".into(), "--preset".into(), "foo".into()];
    let arg = strip_preset_arg(&mut args);
    let r = apply_config(&mut args, arg.as_ref(), None);
    assert!(r.is_ok());
    assert_eq!(args, ["build"]);
}

#[test]
fn unknown_preset_name_passes_arguments_through() {
    let mut args: Vec<String> = vec!["build".into(), "--release".into()];
    let arg = Some(String::from("absent"));
    let r = apply_config(&mut args, arg.as_ref(), Some(FULL_CONFIG));
    assert!(r.is_ok());
    assert_eq!(args, ["build", "--release"]);
}

#[test]
fn missing_default_preset_passes_arguments_through() {
    let text = "default = \"ghost\"\n[preset.real]\ntarget = \"x\"\n";
    let mut args: Vec<String> = vec!["check".into()];
    let r = apply_config(&mut args, None, Some(text));
    assert!(r.is_ok());
    assert_eq!(args, ["check"]);
}

#[test]
fn unrecognized_command_is_left_alone() {
    let mut args: Vec<String> = vec!["publish".into(), "--dry-run".into()];
    let r = apply_config(&mut args, None, Some(FULL_CONFIG));
    assert!(r.is_ok());
    assert_eq!(args, ["publish", "--dry-run"]);
}

#[test]
fn metadata_gets_features_but_no_target() {
    let mut args: Vec<String> = vec!["metadata".into()];
    let arg = Some(String::from("foo"));
    let r = apply_config(&mut args, arg.as_ref(), Some(FULL_CONFIG));
    assert!(r.is_ok());
    assert_eq!(args, ["metadata", "--no-default-features", "--features", "foo,bar,"]);
}

#[test]
fn feature_token_has_one_comma_per_feature() {
    let text = "[preset.p]\nfeatures = [\"a\", \"b\", \"c\"]\n";
    let mut args: Vec<String> = vec!["test".into()];
    let arg = Some(String::from("p"));
    apply_config(&mut args, arg.as_ref(), Some(text)).unwrap();
    assert_eq!(args, ["test", "--features", "a,b,c,"]);
    let commas = args[2].chars().filter(|c| *c == ',').count();
    assert_eq!(commas, 3);
}

#[test]
fn single_feature_keeps_trailing_comma() {
    let text = "[preset.p]\nfeatures = [\"solo\"]\n";
    let mut args: Vec<String> = vec!["run".into()];
    let arg = Some(String::from("p"));
    apply_config(&mut args, arg.as_ref(), Some(text)).unwrap();
    assert_eq!(args, ["run", "--features", "solo,"]);
}

#[test]
fn fields_default_independently() {
    let parsed = Presets::parse("[preset.p]\ntarget = \"x\"\n").unwrap();
    assert_eq!(parsed.default, "");
    assert_eq!(parsed.presets.len(), 1);
    let (name, preset) = &parsed.presets[0];
    assert_eq!(name, "p");
    assert!(!preset.no_default_features);
    assert!(preset.features.is_empty());
    assert_eq!(preset.target, "x");
}

#[test]
fn default_preset_is_all_defaults() {
    let p = Preset::default();
    assert!(!p.no_default_features);
    assert!(p.features.is_empty());
    assert_eq!(p.target, "");
}

#[test]
fn malformed_text_is_the_only_hard_failure() {
    let r = Presets::parse("= definitely not toml [");
    assert!(matches!(r, Err(ConfigError::Syntax)));
    let mut args: Vec<String> = vec!["build".into()];
    let r = apply_config(&mut args, None, Some("= definitely not toml ["));
    assert!(matches!(r, Err(ConfigError::Syntax)));
    assert_eq!(args, ["build"]);
}

#[test]
fn wrong_typed_fields_degrade_to_defaults() {
    let text = "default = 5\n\
[preset.p]\n\
features = \"not-an-array\"\n\
default-features = \"not-a-bool\"\n\
target = 7\n";
    let parsed = Presets::parse(text).unwrap();
    assert_eq!(parsed.default, "");
    let (_, preset) = &parsed.presets[0];
    assert!(!preset.no_default_features);
    assert!(preset.features.is_empty());
    assert_eq!(preset.target, "");
}

#[test]
fn non_string_feature_element_empties_the_list() {
    let parsed = Presets::parse("[preset.p]\nfeatures = [\"a\", 3]\n").unwrap();
    let (_, preset) = &parsed.presets[0];
    assert!(preset.features.is_empty());
}

#[test]
fn preset_entry_that_is_no_table_yields_no_presets() {
    let parsed = Presets::parse("preset = 3\n").unwrap();
    assert!(parsed.presets.is_empty());
    let parsed = Presets::parse("default = \"a\"\n").unwrap();
    assert!(parsed.presets.is_empty());
    assert_eq!(parsed.default, "a");
}

#[test]
fn parse_keeps_feature_order_and_duplicates() {
    let parsed = Presets::parse("[preset.p]\nfeatures = [\"b\", \"a\", \"b\"]\n").unwrap();
    let (_, preset) = &parsed.presets[0];
    assert_eq!(preset.features, ["b", "a", "b"]);
}

#[test]
fn empty_argument_vector_is_left_alone() {
    let mut args: Vec<String> = Vec::new();
    let r = apply_config(&mut args, None, Some(FULL_CONFIG));
    assert!(r.is_ok());
    assert!(args.is_empty());
}

#[test]
fn empty_config_text_means_no_injection() {
    let parsed = Presets::parse("").unwrap();
    assert_eq!(parsed.default, "");
    assert!(parsed.presets.is_empty());
    let mut args: Vec<String> = vec!["build".into()];
    let r = apply_config(&mut args, None, Some(""));
    assert!(r.is_ok());
    assert_eq!(args, ["build"]);
}

#[test]
fn strip_handles_trailing_flag_and_absence() {
    let mut args: Vec<String> = vec!["build".into(), "--preset".into()];
    assert_eq!(strip_preset_arg(&mut args), None);
    assert_eq!(args, ["build"]);

    let mut args: Vec<String> = vec!["build".into(), "--release".into()];
    assert_eq!(strip_preset_arg(&mut args), None);
    assert_eq!(args, ["build", "--release"]);

    let mut args: Vec<String> = vec!["--preset".into(), "x".into(), "build".into()];
    assert_eq!(strip_preset_arg(&mut args), Some("x".into()));
    assert_eq!(args, ["build"]);
}
