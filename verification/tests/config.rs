use apcore_cli::config::ConfigResolver;
use apcore_cli::json::{to_json_text, Json, JsonNumber};

fn to_json(v: &serde_json::Value) -> Json {
    match v {
        serde_json::Value::Null => Json::Null,
        serde_json::Value::Bool(b) => Json::Bool(*b),
        serde_json::Value::Number(n) => {
            if let Some(u) = n.as_u64() {
                Json::Number(JsonNumber::PosInt(u))
            } else if let Some(i) = n.as_i64() {
                Json::Number(JsonNumber::NegInt(i))
            } else {
                Json::Number(JsonNumber::Float(n.to_string()))
            }
        }
        serde_json::Value::String(s) => Json::Str(s.clone()),
        serde_json::Value::Array(a) => Json::Array(a.iter().map(to_json).collect()),
        serde_json::Value::Object(o) => {
            Json::Object(o.iter().map(|(k, v)| (k.clone(), to_json(v))).collect())
        }
    }
}

fn j(text: &str) -> Json {
    to_json(&serde_json::from_str::<serde_json::Value>(text).unwrap())
}

fn get<'a>(m: &'a [(String, String)], k: &str) -> Option<&'a str> {
    m.iter().find(|(a, _)| a == k).map(|(_, v)| v.as_str())
}

#[test]
fn tier_precedence() {
    let flags = vec![("--ext".to_string(), Some("/cli".to_string())), ("--none".to_string(), None)];
    let file = vec![("extensions.root".to_string(), "/file".to_string())];
    let c = ConfigResolver::new(Some(flags), Some(file), None);
    assert_eq!(c.resolve("extensions.root", Some("--ext"), Some("/env")).as_deref(), Some("/cli"));
    assert_eq!(c.resolve("extensions.root", Some("--none"), Some("/env")).as_deref(), Some("/env"));
    assert_eq!(c.resolve("extensions.root", None, Some("")).as_deref(), Some("/file"));
    assert_eq!(c.resolve("logging.level", None, None).as_deref(), Some("WARNING"));
    assert_eq!(c.resolve("nope", None, None), None);
}

#[test]
fn defaults_are_present() {
    let c = ConfigResolver::new(None, None, None);
    assert_eq!(c.resolve("cli.approval_timeout", None, None).as_deref(), Some("60"));
    assert_eq!(c.resolve("expose.mode", None, None).as_deref(), Some("all"));
    assert_eq!(c.resolve("cli.help_text_max_length", None, None).as_deref(), Some("1000"));
}

#[test]
fn alternate_keys_are_consulted() {
    assert_eq!(ConfigResolver::alternate_key("apcore-cli.logging_level"), Some("logging.level"));
    assert_eq!(ConfigResolver::alternate_key("cli.auto_approve"), Some("apcore-cli.auto_approve"));
    assert_eq!(ConfigResolver::alternate_key("x"), None);
    let file = vec![("cli.stdin_buffer_limit".to_string(), "5".to_string())];
    let c = ConfigResolver::new(None, Some(file), None);
    assert_eq!(c.resolve("apcore-cli.stdin_buffer_limit", None, None).as_deref(), Some("5"));
    let both = vec![
        ("logging.level".to_string(), "DEBUG".to_string()),
        ("apcore-cli.logging_level".to_string(), "INFO".to_string()),
    ];
    let c = ConfigResolver::new(None, Some(both), None);
    assert_eq!(c.resolve("apcore-cli.logging_level", None, None).as_deref(), Some("INFO"));
}

#[test]
fn object_lookup_walks_mappings() {
    let doc = j(r#"{"apcli": {"mode": "include"}, "flag": true}"#);
    let c = ConfigResolver::new(None, None, Some(doc));
    assert_eq!(to_json_text(&c.resolve_object("apcli").unwrap()), r#"{"mode":"include"}"#);
    assert_eq!(to_json_text(&c.resolve_object("apcli.mode").unwrap()), "\"include\"");
    assert!(matches!(c.resolve_object("flag"), Some(Json::Bool(true))));
    assert!(c.resolve_object("flag.x").is_none());
    assert!(c.resolve_object("missing").is_none());
    assert!(ConfigResolver::new(None, None, None).resolve_object("apcli").is_none());
}

#[test]
fn flatten_dict_nests_with_dots() {
    let c = ConfigResolver::new(None, None, None);
    let m = c.flatten_dict(&j(r#"{"extensions": {"root": "/p", "deep": {"n": 3}}, "on": true, "nil": null, "arr": [1, "a"]}"#));
    assert_eq!(get(&m, "extensions.root"), Some("/p"));
    assert_eq!(get(&m, "extensions.deep.n"), Some("3"));
    assert_eq!(get(&m, "on"), Some("true"));
    assert_eq!(get(&m, "nil"), Some(""));
    assert_eq!(get(&m, "arr"), Some(r#"[1,"a"]"#));
    assert_eq!(m.len(), 5);
}

fn has_default(c: &ConfigResolver, key: &str) -> bool {
    c.defaults.iter().any(|(k, _)| k == key)
}

fn default_of<'a>(c: &'a ConfigResolver, key: &str) -> Option<&'a str> {
    get(&c.defaults, key)
}

/// The parsed config document, as the caller hands it over: `None` when
/// the text is not YAML.
fn yaml_doc(body: &str) -> Option<Json> {
    serde_yaml::from_str::<serde_json::Value>(body).ok().map(|v| to_json(&v))
}

#[test]
fn test_config_resolver_instantiation() {
    let resolver = ConfigResolver::new(None, None, None);
    assert!(!resolver.defaults.is_empty());
}

#[test]
fn test_defaults_contains_expected_keys() {
    let resolver = ConfigResolver::new(None, None, None);
    for key in [
        "extensions.root",
        "logging.level",
        "cli.help_text_max_length",
        "cli.approval_timeout",
        "cli.strategy",
        "cli.group_depth",
        "expose.mode",
    ] {
        assert!(has_default(&resolver, key), "missing default: {key}");
    }
}

#[test]
fn test_deleted_keys_absent() {
    let resolver = ConfigResolver::new(None, None, None);
    for key in [
        "sandbox.enabled",
        "cli.auto_approve",
        "cli.stdin_buffer_limit",
        "apcore-cli.stdin_buffer_limit",
        "apcore-cli.auto_approve",
        "apcore-cli.help_text_max_length",
        "apcore-cli.logging_level",
    ] {
        assert!(!has_default(&resolver, key), "deleted key reintroduced: {key}");
    }
}

#[test]
fn test_default_logging_level_is_warning() {
    let resolver = ConfigResolver::new(None, None, None);
    assert_eq!(
        default_of(&resolver, "logging.level"),
        Some("WARNING"),
        "logging.level default must be WARNING"
    );
}

#[test]
fn test_fe11_defaults_present() {
    let resolver = ConfigResolver::new(None, None, None);
    assert_eq!(default_of(&resolver, "cli.approval_timeout"), Some("60"));
    assert_eq!(default_of(&resolver, "cli.strategy"), Some("standard"));
    assert_eq!(default_of(&resolver, "cli.group_depth"), Some("1"));
}

#[test]
fn test_resolve_tier1_cli_flag_wins() {
    let flags = vec![("--extensions-dir".to_string(), Some("/cli-path".to_string()))];
    let resolver = ConfigResolver::new(Some(flags), None, None);
    // the environment variable's value, as the caller read it
    let result = resolver.resolve("extensions.root", Some("--extensions-dir"), None);
    assert_eq!(result, Some("/cli-path".to_string()));
}

#[test]
fn test_resolve_tier2_env_var_wins() {
    let resolver = ConfigResolver::new(None, None, None);
    let result = resolver.resolve("extensions.root", None, Some("/env-path"));
    assert_eq!(result, Some("/env-path".to_string()));
}

#[test]
fn test_resolve_tier3_config_file_wins() {
    let resolver = ConfigResolver::new(None, None, None);
    let result = resolver.resolve("extensions.root", None, None);
    assert_eq!(result, Some("./extensions".to_string()));
}

#[test]
fn test_resolve_tier4_default_wins() {
    let resolver = ConfigResolver::new(None, None, None);
    let result = resolver.resolve("extensions.root", None, None);
    assert_eq!(result, Some("./extensions".to_string()));
}

#[test]
fn test_flatten_dict_nested() {
    let resolver = ConfigResolver::new(None, None, None);
    let map = j(r#"{"extensions": {"root": "/path"}}"#);
    let result = resolver.flatten_dict(&map);
    assert_eq!(get(&result, "extensions.root"), Some("/path"));
}

#[test]
fn test_flatten_dict_deeply_nested() {
    let resolver = ConfigResolver::new(None, None, None);
    let map = j(r#"{"a": {"b": {"c": "deep"}}}"#);
    let result = resolver.flatten_dict(&map);
    assert_eq!(get(&result, "a.b.c"), Some("deep"));
}

#[test]
fn test_namespace_alternate_key_map_intact() {
    for ns_key in [
        "apcore-cli.stdin_buffer_limit",
        "apcore-cli.auto_approve",
        "apcore-cli.help_text_max_length",
        "apcore-cli.logging_level",
    ] {
        assert!(
            ConfigResolver::alternate_key(ns_key).is_some(),
            "alternate_key map must still resolve {ns_key}"
        );
    }
}

#[test]
fn test_alternate_key_namespace_to_legacy() {
    assert_eq!(
        ConfigResolver::alternate_key("apcore-cli.stdin_buffer_limit"),
        Some("cli.stdin_buffer_limit")
    );
    assert_eq!(ConfigResolver::alternate_key("apcore-cli.auto_approve"), Some("cli.auto_approve"));
    assert_eq!(ConfigResolver::alternate_key("apcore-cli.logging_level"), Some("logging.level"));
}

#[test]
fn test_alternate_key_legacy_to_namespace() {
    assert_eq!(
        ConfigResolver::alternate_key("cli.stdin_buffer_limit"),
        Some("apcore-cli.stdin_buffer_limit")
    );
    assert_eq!(ConfigResolver::alternate_key("cli.auto_approve"), Some("apcore-cli.auto_approve"));
    assert_eq!(ConfigResolver::alternate_key("logging.level"), Some("apcore-cli.logging_level"));
}

#[test]
fn test_alternate_key_unknown_returns_none() {
    assert_eq!(ConfigResolver::alternate_key("unknown.key"), None);
    assert_eq!(ConfigResolver::alternate_key("extensions.root"), None);
}

#[test]
fn test_resolve_namespace_key_from_legacy_file() {
    let file_map = vec![("cli.stdin_buffer_limit".to_string(), "5242880".to_string())];
    let resolver = ConfigResolver::new(None, Some(file_map), None);
    let result = resolver.resolve("apcore-cli.stdin_buffer_limit", None, None);
    assert_eq!(result, Some("5242880".to_string()));
}

#[test]
fn test_resolve_legacy_key_from_namespace_file() {
    let file_map = vec![("apcore-cli.auto_approve".to_string(), "true".to_string())];
    let resolver = ConfigResolver::new(None, Some(file_map), None);
    let result = resolver.resolve("cli.auto_approve", None, None);
    assert_eq!(result, Some("true".to_string()));
}

#[test]
fn test_resolve_object_returns_bool_shorthand() {
    let resolver = ConfigResolver::new(None, None, yaml_doc("apcli: false\n"));
    let v = resolver.resolve_object("apcli").expect("apcli key present");
    assert!(matches!(v, Json::Bool(false)));
}

#[test]
fn test_resolve_object_returns_mapping() {
    let doc = yaml_doc("apcli:\n  mode: include\n  include:\n    - list\n    - describe\n");
    let resolver = ConfigResolver::new(None, None, doc);
    let v = resolver.resolve_object("apcli").expect("apcli key present");
    assert!(matches!(v, Json::Object(_)), "expected mapping");
    let mode = v.get("mode").unwrap();
    assert!(matches!(mode, Json::Str(s) if s == "include"));
}

#[test]
fn test_resolve_object_missing_key_returns_none() {
    let resolver = ConfigResolver::new(None, None, yaml_doc("other: 42\n"));
    assert!(resolver.resolve_object("apcli").is_none());
}

#[test]
fn test_resolve_object_no_config_file_returns_none() {
    let resolver = ConfigResolver::new(None, None, None);
    assert!(resolver.resolve_object("apcli").is_none());
}

#[test]
fn test_resolve_object_malformed_yaml_returns_none() {
    let doc = yaml_doc("apcli: {unclosed\n");
    assert!(doc.is_none());
    let resolver = ConfigResolver::new(None, None, doc);
    assert!(resolver.resolve_object("apcli").is_none());
}

#[test]
fn test_direct_key_takes_precedence_over_alternate() {
    let file_map = vec![
        ("cli.help_text_max_length".to_string(), "500".to_string()),
        ("apcore-cli.help_text_max_length".to_string(), "2000".to_string()),
    ];
    let resolver = ConfigResolver::new(None, Some(file_map), None);
    assert_eq!(resolver.resolve("cli.help_text_max_length", None, None), Some("500".to_string()));
    assert_eq!(
        resolver.resolve("apcore-cli.help_text_max_length", None, None),
        Some("2000".to_string())
    );
}

#[test]
fn config_text_is_parsed_and_flattened() {
    let text = "extensions:\n  root: /srv/ext\ncli:\n  approval_timeout: 30\napcli:\n  mode: include\n  include:\n    - list\n";
    let c = ConfigResolver::from_config_text(None, Some(text));
    assert_eq!(c.resolve("extensions.root", None, None).as_deref(), Some("/srv/ext"));
    assert_eq!(c.resolve("cli.approval_timeout", None, None).as_deref(), Some("30"));
    let apcli = c.resolve_object("apcli").unwrap();
    assert_eq!(to_json_text(&apcli), r#"{"mode":"include","include":["list"]}"#);
}

#[test]
fn malformed_or_non_mapping_config_text_gives_no_file_tier() {
    let bad = ConfigResolver::from_config_text(None, Some("a: [unclosed"));
    assert!(bad.config_file.is_none());
    assert_eq!(bad.resolve("extensions.root", None, None).as_deref(), Some("./extensions"));
    let scalar = ConfigResolver::from_config_text(None, Some("just text"));
    assert!(scalar.config_file.is_none());
    let none = ConfigResolver::from_config_text(None, None);
    assert!(none.config_file.is_none());
    assert!(none.resolve_object("apcli").is_none());
}

#[test]
fn yaml_tags_and_non_string_keys_survive_parsing() {
    let c = ConfigResolver::from_config_text(None, Some("expose:\n  1: one\n  tagged: !custom value\n"));
    let expose = c.resolve_object("expose").unwrap();
    match expose {
        Json::Object(entries) => {
            assert_eq!(entries[0].0, "Number(1)");
            assert!(matches!(&entries[1].1, Json::Tagged(t, inner) if t == "!custom" && matches!(&**inner, Json::Str(s) if s == "value")));
        }
        _ => panic!("mapping expected"),
    }
}
