use apcore_cli::builtin_group::{
    effective_reserved_group_names, is_reserved_group_name, set_reserved_group_names,
    validate_builtin_group_name, ApcliConfig, ApcliGroup, ApcliGroupError, ApcliMode,
    ReservedGroupNames, APCLI_SUBCOMMAND_NAMES, RESERVED_GROUP_NAMES,
};
use apcore_cli::json::{Json, JsonNumber};
use apcore_cli::should_register_subcommand;

fn to_json(v: &serde_json::Value) -> Json {
    match v {
        serde_json::Value::Null => Json::Null,
        serde_json::Value::Bool(b) => Json::Bool(*b),
        serde_json::Value::Number(n) => {
            if let Some(u) = n.as_u64() {
                Json::Number(JsonNumber::PosInt(u))
            } else if let Some(i) = n.as_i64() {
                Json::Number(JsonNumber::NegInt(i))
            } else {
                Json::Number(JsonNumber::Float(n.to_string()))
            }
        }
        serde_json::Value::String(s) => Json::Str(s.clone()),
        serde_json::Value::Array(a) => Json::Array(a.iter().map(to_json).collect()),
        serde_json::Value::Object(o) => {
            Json::Object(o.iter().map(|(k, v)| (k.clone(), to_json(v))).collect())
        }
    }
}

fn j(text: &str) -> Json {
    to_json(&serde_json::from_str::<serde_json::Value>(text).unwrap())
}

#[test]
fn apcli_subcommand_names_has_13_entries() {
    assert_eq!(APCLI_SUBCOMMAND_NAMES.len(), 13);
}

#[test]
fn apcli_subcommand_names_contents() {
    for expected in &[
        "list",
        "describe",
        "exec",
        "validate",
        "init",
        "health",
        "usage",
        "enable",
        "disable",
        "reload",
        "config",
        "completion",
        "describe-pipeline",
    ] {
        assert!(
            APCLI_SUBCOMMAND_NAMES.contains(expected),
            "missing: {expected}"
        );
    }
}

#[test]
fn reserved_group_names_contents() {
    assert_eq!(&RESERVED_GROUP_NAMES, &["apcli"]);
}

#[test]
fn tier1_non_auto_mode_wins_over_env() {
    let g = ApcliGroup::from_cli_config(
        Some(ApcliConfig { mode: ApcliMode::All, disable_env: false }),
        true,
    );
    assert_eq!(g.resolve_visibility(Some("hide")), "all");
    assert!(g.is_group_visible(Some("0")));
}

#[test]
fn env_var_overrides_yaml_unless_sealed() {
    let g = ApcliGroup::try_from_yaml(Some(j(r#"{"mode": "none"}"#)), false).unwrap();
    assert_eq!(g.resolve_visibility(None), "none");
    assert_eq!(g.resolve_visibility(Some("  SHOW ")), "all");
    assert_eq!(g.resolve_visibility(Some("bogus")), "none");
    let sealed = ApcliGroup::try_from_yaml(
        Some(j(r#"{"mode": "none", "disable_env": true}"#)),
        false,
    )
    .unwrap();
    assert!(sealed.disable_env());
    assert_eq!(sealed.resolve_visibility(Some("show")), "none");
}

#[test]
fn auto_detect_depends_on_registry_injection() {
    let injected = ApcliGroup::try_from_yaml(None, true).unwrap();
    assert_eq!(injected.resolve_visibility(None), "none");
    let standalone = ApcliGroup::try_from_yaml(Some(Json::Null), false).unwrap();
    assert_eq!(standalone.resolve_visibility(None), "all");
    assert_eq!(standalone.name(), "apcli");
}

#[test]
fn parse_env_spellings() {
    assert_eq!(ApcliGroup::parse_env(Some("1")), Some("all"));
    assert_eq!(ApcliGroup::parse_env(Some("True")), Some("all"));
    assert_eq!(ApcliGroup::parse_env(Some(" hide ")), Some("none"));
    assert_eq!(ApcliGroup::parse_env(Some("0")), Some("none"));
    assert_eq!(ApcliGroup::parse_env(Some("")), None);
    assert_eq!(ApcliGroup::parse_env(Some("   ")), None);
    assert_eq!(ApcliGroup::parse_env(Some("maybe")), None);
    assert_eq!(ApcliGroup::parse_env(None), None);
}

#[test]
fn yaml_shapes_and_errors() {
    let t = ApcliGroup::try_from_yaml(Some(Json::Bool(true)), true).unwrap();
    assert_eq!(t.resolve_visibility(None), "all");
    let f = ApcliGroup::try_from_yaml(Some(Json::Bool(false)), false).unwrap();
    assert_eq!(f.resolve_visibility(None), "none");
    assert_eq!(
        ApcliGroup::try_from_yaml(Some(j("[1]")), false).unwrap_err(),
        ApcliGroupError::InvalidShape("array".to_string())
    );
    assert_eq!(
        ApcliGroup::try_from_yaml(Some(j("\"x\"")), false).unwrap_err(),
        ApcliGroupError::InvalidShape("string".to_string())
    );
    assert_eq!(
        ApcliGroup::try_from_yaml(Some(j(r#"{"mode": 3}"#)), false).unwrap_err(),
        ApcliGroupError::ModeNotString("number".to_string())
    );
    let e = ApcliGroup::try_from_yaml(Some(j(r#"{"mode": "auto"}"#)), false).unwrap_err();
    assert_eq!(e, ApcliGroupError::ModeInvalid("auto".to_string()));
    assert_eq!(
        e.message(),
        "Error: apcli.mode 'auto' is invalid. Expected one of all|none|include|exclude."
    );
    assert_eq!(e.exit_code(), 2);
}

#[test]
fn include_list_filters_subcommands() {
    let g = ApcliGroup::try_from_yaml(
        Some(j(r#"{"mode": "include", "include": ["list", "", 7, "health"], "disableEnv": true}"#)),
        false,
    )
    .unwrap();
    assert_eq!(g.included(None), vec!["list".to_string(), "health".to_string()]);
    assert!(g.is_subcommand_included("list", None));
    assert!(!g.is_subcommand_included("init", None));
    assert!(should_register_subcommand(&g, None, "exec"));
    assert!(should_register_subcommand(&g, None, "health"));
    assert!(!should_register_subcommand(&g, None, "usage"));
}

#[test]
fn exclude_list_filters_subcommands() {
    let g = ApcliGroup::from_cli_config(
        Some(ApcliConfig {
            mode: ApcliMode::Exclude(vec!["init".to_string()]),
            disable_env: true,
        }),
        false,
    );
    assert!(!g.is_subcommand_included("init", Some("show")));
    assert!(g.is_subcommand_included("list", None));
    assert_eq!(g.exclude(None), vec!["init".to_string()]);
}

#[test]
fn hidden_group_keeps_subcommands_registered() {
    let g = ApcliGroup::from_cli_config(
        Some(ApcliConfig { mode: ApcliMode::Hidden, disable_env: false }),
        false,
    );
    assert!(!g.is_group_visible(None));
    assert!(should_register_subcommand(&g, None, "usage"));
}

#[test]
fn group_names_are_validated() {
    assert!(validate_builtin_group_name("apcli").is_ok());
    assert!(validate_builtin_group_name("my-tools_2").is_ok());
    assert_eq!(
        validate_builtin_group_name("Bad").unwrap_err(),
        ApcliGroupError::InvalidName("Bad".to_string())
    );
    assert!(validate_builtin_group_name("").is_err());
    assert!(validate_builtin_group_name("1abc").is_err());
    let r = ApcliGroup::from_cli_config_with_name(None, false, Some("has space".to_string()));
    assert!(matches!(r, Err(ApcliGroupError::InvalidName(_))));
    let ok = ApcliGroup::from_cli_config_with_name(None, false, Some("tools".to_string())).unwrap();
    assert_eq!(ok.name(), "tools");
    let y = ApcliGroup::try_from_yaml_with_name(None, false, Some("X".to_string()));
    assert!(matches!(y, Err(ApcliGroupError::InvalidName(_))));
}

#[test]
fn reserved_names_can_be_replaced() {
    let mut reserved = ReservedGroupNames::new();
    assert!(is_reserved_group_name(&reserved, "apcli"));
    set_reserved_group_names(&mut reserved, vec!["tools".to_string()]);
    assert!(!is_reserved_group_name(&reserved, "apcli"));
    assert!(is_reserved_group_name(&reserved, "tools"));
    assert_eq!(effective_reserved_group_names(&reserved), vec!["tools".to_string()]);
}

/// A YAML text as the parsed value the config file hands over.
fn yaml(text: &str) -> Json {
    to_json(&serde_yaml_ng::from_str::<serde_json::Value>(text).unwrap())
}

/// The group a valid config section yields (the command line reports an
/// invalid one and exits before any group is built).
fn from_yaml(v: Option<Json>, registry_injected: bool) -> ApcliGroup {
    ApcliGroup::try_from_yaml(v, registry_injected).unwrap()
}

#[test]
fn from_cli_config_all_wins_in_embedded() {
    let group = ApcliGroup::from_cli_config(
        Some(ApcliConfig { mode: ApcliMode::All, disable_env: false }),
        true,
    );
    assert_eq!(group.resolve_visibility(None), "all");
}

#[test]
fn from_cli_config_none_default_standalone_autodetect_all() {
    let group = ApcliGroup::from_cli_config(None, false);
    assert_eq!(group.resolve_visibility(None), "all");
}

#[test]
fn from_cli_config_none_default_embedded_autodetect_none() {
    let group = ApcliGroup::from_cli_config(None, true);
    assert_eq!(group.resolve_visibility(None), "none");
}

#[test]
fn from_cli_config_none_mode_beats_env_show() {
    let group = ApcliGroup::from_cli_config(
        Some(ApcliConfig { mode: ApcliMode::Hidden, disable_env: false }),
        false,
    );
    assert_eq!(group.resolve_visibility(Some("show")), "none");
}

#[test]
fn from_yaml_bool_true_embedded_all() {
    let group = from_yaml(Some(Json::Bool(true)), true);
    assert_eq!(group.resolve_visibility(None), "all");
}

#[test]
fn from_yaml_bool_false_standalone_none() {
    let group = from_yaml(Some(Json::Bool(false)), false);
    assert_eq!(group.resolve_visibility(None), "none");
}

#[test]
fn from_yaml_null_value_auto() {
    let group = from_yaml(Some(Json::Null), false);
    assert_eq!(group.resolve_visibility(None), "all");
}

#[test]
fn from_yaml_none_auto() {
    let group = from_yaml(None, true);
    assert_eq!(group.resolve_visibility(None), "none");
}

#[test]
fn from_yaml_null_env_show_all() {
    let group = from_yaml(None, true);
    assert_eq!(group.resolve_visibility(Some("show")), "all");
}

#[test]
fn from_yaml_null_env_hide_none() {
    let group = from_yaml(None, false);
    assert_eq!(group.resolve_visibility(Some("hide")), "none");
}

#[test]
fn from_yaml_mode_none_env_show_env_wins() {
    let group = from_yaml(Some(yaml("mode: none")), true);
    assert_eq!(group.resolve_visibility(Some("show")), "all");
}

#[test]
fn from_yaml_mode_none_disable_env_env_show_yaml_wins() {
    let group = from_yaml(Some(yaml("mode: none\ndisable_env: true")), true);
    assert_eq!(group.resolve_visibility(Some("show")), "none");
}

#[test]
fn from_yaml_disable_env_camel_case_also_accepted() {
    let group = from_yaml(Some(yaml("mode: none\ndisableEnv: true")), true);
    assert_eq!(group.resolve_visibility(Some("show")), "none");
}

#[test]
fn env_case_insensitive_show() {
    for raw in &["SHOW", "Show", "sHoW"] {
        let group = from_yaml(None, true);
        assert_eq!(group.resolve_visibility(Some(raw)), "all", "raw={raw}");
    }
}

#[test]
fn env_case_insensitive_true_hide_false_numeric() {
    for (raw, expected) in &[
        ("True", "all"),
        ("TRUE", "all"),
        ("HIDE", "none"),
        ("False", "none"),
        ("1", "all"),
        ("0", "none"),
    ] {
        let group = from_yaml(None, true);
        assert_eq!(group.resolve_visibility(Some(raw)), *expected, "raw={raw}");
    }
}

#[test]
fn env_unknown_value_falls_through() {
    let group = from_yaml(None, true);
    assert_eq!(group.resolve_visibility(Some("bogus")), "none");
}

#[test]
fn env_empty_string_treated_as_unset() {
    let group = from_yaml(None, false);
    assert_eq!(group.resolve_visibility(Some("")), "all");
}

#[test]
fn env_value_is_trimmed_on_read() {
    for (raw, expected) in &[
        ("  show  ", "all"),
        ("\tshow\n", "all"),
        (" hide ", "none"),
        ("  TRUE  ", "all"),
        ("  false  ", "none"),
        ("  1  ", "all"),
        ("  0  ", "none"),
    ] {
        let group = from_yaml(None, true);
        assert_eq!(group.resolve_visibility(Some(raw)), *expected, "raw={raw:?}");
    }
}

#[test]
fn env_whitespace_only_treated_as_unset() {
    let group = from_yaml(None, false);
    assert_eq!(group.resolve_visibility(Some("   ")), "all");
}

#[test]
fn include_mode_filters_correctly() {
    let group = from_yaml(Some(yaml("mode: include\ninclude:\n  - list\n  - describe")), true);
    assert_eq!(group.resolve_visibility(None), "include");
    assert!(group.is_subcommand_included("list", None));
    assert!(group.is_subcommand_included("describe", None));
    assert!(!group.is_subcommand_included("init", None));
    assert!(!group.is_subcommand_included("exec", None));
    assert_eq!(group.included(None), vec!["list".to_string(), "describe".to_string()]);
    assert!(group.exclude(None).is_empty());
}

#[test]
fn exclude_mode_filters_correctly() {
    let group = from_yaml(Some(yaml("mode: exclude\nexclude:\n  - init")), true);
    assert_eq!(group.resolve_visibility(None), "exclude");
    assert!(!group.is_subcommand_included("init", None));
    assert!(group.is_subcommand_included("list", None));
    assert!(group.is_subcommand_included("describe", None));
    assert!(group.included(None).is_empty());
    assert_eq!(group.exclude(None), vec!["init".to_string()]);
}

#[test]
fn from_cli_config_include_variant_filters_correctly() {
    let group = ApcliGroup::from_cli_config(
        Some(ApcliConfig {
            mode: ApcliMode::Include(vec!["list".into(), "describe".into()]),
            disable_env: false,
        }),
        true,
    );
    assert_eq!(group.resolve_visibility(None), "include");
    assert!(group.is_subcommand_included("list", None));
    assert!(!group.is_subcommand_included("init", None));
}

#[test]
fn is_group_visible_false_only_for_none_mode() {
    let hidden = ApcliGroup::from_cli_config(
        Some(ApcliConfig { mode: ApcliMode::Hidden, disable_env: false }),
        true,
    );
    assert!(!hidden.is_group_visible(None));
    let shown = ApcliGroup::from_cli_config(
        Some(ApcliConfig { mode: ApcliMode::All, disable_env: false }),
        true,
    );
    assert!(shown.is_group_visible(None));
    let listed = ApcliGroup::from_cli_config(
        Some(ApcliConfig { mode: ApcliMode::Include(vec!["list".into()]), disable_env: false }),
        true,
    );
    assert!(listed.is_group_visible(None));
}

#[test]
fn try_from_yaml_rejects_mode_auto() {
    let err = ApcliGroup::try_from_yaml(Some(yaml("mode: auto")), true).unwrap_err();
    assert!(matches!(err, ApcliGroupError::ModeInvalid(ref s) if s == "auto"));
}

#[test]
fn try_from_yaml_rejects_unknown_mode() {
    let err = ApcliGroup::try_from_yaml(Some(yaml("mode: whitelist")), true).unwrap_err();
    assert!(matches!(err, ApcliGroupError::ModeInvalid(_)));
}

#[test]
fn try_from_yaml_rejects_non_string_mode() {
    let err = ApcliGroup::try_from_yaml(Some(yaml("mode: 42")), true).unwrap_err();
    assert!(matches!(err, ApcliGroupError::ModeNotString(_)));
}

#[test]
fn try_from_yaml_rejects_array_shape() {
    let err = ApcliGroup::try_from_yaml(Some(yaml("- a\n- b")), true).unwrap_err();
    assert!(matches!(err, ApcliGroupError::InvalidShape(ref s) if s == "array"));
}

#[test]
fn try_from_yaml_rejects_string_shape() {
    let err = ApcliGroup::try_from_yaml(Some(Json::Str("oops".into())), true).unwrap_err();
    assert!(matches!(err, ApcliGroupError::InvalidShape(ref s) if s == "string"));
}

#[test]
fn try_from_yaml_object_without_mode_is_auto() {
    let group = ApcliGroup::try_from_yaml(Some(yaml("disable_env: true")), false).unwrap();
    assert_eq!(group.resolve_visibility(None), "all");
    assert!(group.disable_env());
}

#[test]
fn try_from_yaml_include_non_array_warns_and_empty() {
    let group = ApcliGroup::try_from_yaml(Some(yaml("mode: include\ninclude: not-a-list")), true).unwrap();
    assert_eq!(group.resolve_visibility(None), "include");
    assert!(group.included(None).is_empty());
}

#[test]
fn try_from_yaml_unknown_include_entry_retained() {
    let group =
        ApcliGroup::try_from_yaml(Some(yaml("mode: include\ninclude:\n  - list\n  - bogus")), true).unwrap();
    assert_eq!(group.included(None), vec!["list".to_string(), "bogus".to_string()]);
}

#[test]
fn try_from_yaml_disable_env_non_bool_treated_as_false() {
    let group =
        ApcliGroup::try_from_yaml(Some(yaml("mode: none\ndisable_env: \"yes-please\"")), true).unwrap();
    assert!(!group.disable_env());
}

#[test]
fn effective_lists_follow_the_resolved_mode() {
    let g = from_yaml(Some(yaml("mode: all\ninclude:\n  - list")), false);
    assert_eq!(g.resolve_visibility(None), "all");
    assert!(g.included(None).is_empty());
    let inc = from_yaml(Some(yaml("mode: include\ninclude:\n  - list")), false);
    assert_eq!(inc.included(None), vec!["list".to_string()]);
    // the environment can override the mode, and with it the list
    assert!(inc.included(Some("show")).is_empty());
    let exc = from_yaml(Some(yaml("mode: exclude\nexclude:\n  - init")), false);
    assert_eq!(exc.exclude(None), vec!["init".to_string()]);
    assert!(exc.included(None).is_empty());
}
