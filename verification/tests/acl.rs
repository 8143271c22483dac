use apcore_cli::acl::{
    resolve_acl_file, conventional_acl_path, describe_load_error, acl_audit_enabled, acl_audit_include_denied, check_exit_code, cli_identity, condition_keys,
    non_empty, parse_config_bool, resolve_acl_root, set_cli_identity, status_exit_code,
    strategy_bypass_warning, validate_exit_code, yes_no, CliIdentity, IdentityCell, ACL_AUDIT_FIELDS,
    ACL_BYPASSING_STRATEGIES, DEFAULT_ACL_ROOT, DEFAULT_CALLER, DEFAULT_IDENTITY_ID, DEFAULT_IDENTITY_TYPE,
};
use apcore_cli::config::ConfigResolver;
use apcore_cli::json::{Json, JsonNumber};

fn to_json(v: &serde_json::Value) -> Json {
    match v {
        serde_json::Value::Null => Json::Null,
        serde_json::Value::Bool(b) => Json::Bool(*b),
        serde_json::Value::Number(n) => {
            if let Some(u) = n.as_u64() {
                Json::Number(JsonNumber::PosInt(u))
            } else if let Some(i) = n.as_i64() {
                Json::Number(JsonNumber::NegInt(i))
            } else {
                Json::Number(JsonNumber::Float(n.to_string()))
            }
        }
        serde_json::Value::String(s) => Json::Str(s.clone()),
        serde_json::Value::Array(a) => Json::Array(a.iter().map(to_json).collect()),
        serde_json::Value::Object(o) => {
            Json::Object(o.iter().map(|(k, v)| (k.clone(), to_json(v))).collect())
        }
    }
}

fn j(text: &str) -> Json {
    to_json(&serde_json::from_str::<serde_json::Value>(text).unwrap())
}

/// Top-level keys of a one-line JSON object, in the order they appear.
fn ordered_keys(line: &str) -> Vec<String> {
    let mut keys = Vec::new();
    let mut depth = 0i32;
    let mut in_string = false;
    let mut escaped = false;
    let mut current = String::new();
    let mut pending: Option<String> = None;
    for c in line.chars() {
        if in_string {
            if escaped {
                escaped = false;
                current.push(c);
            } else if c == '\\' {
                escaped = true;
            } else if c == '"' {
                in_string = false;
                if depth == 1 {
                    pending = Some(std::mem::take(&mut current));
                } else {
                    current.clear();
                }
            } else {
                current.push(c);
            }
            continue;
        }
        match c {
            '"' => {
                in_string = true;
                current.clear();
            }
            ':' if depth == 1 => {
                if let Some(key) = pending.take() {
                    keys.push(key);
                }
            }
            '{' | '[' => {
                depth += 1;
                pending = None;
            }
            '}' | ']' => {
                depth -= 1;
                pending = None;
            }
            _ => {}
        }
    }
    keys
}

#[test]
fn the_identity_sentinel_is_not_a_caller_id() {
    assert_ne!(DEFAULT_IDENTITY_ID, DEFAULT_CALLER);
}

#[test]
fn default_caller_is_apcores_external_caller() {
    assert_eq!(DEFAULT_CALLER, apcore::acl::EXTERNAL_CALLER);
}

#[test]
fn parse_config_bool_accepts_the_section_4_8_spelling_table() {
    for raw in ["true", "TRUE", " 1 ", "yes", "On"] {
        assert!(
            parse_config_bool(raw, "acl.audit.enabled", false),
            "should parse true: {raw:?}"
        );
    }
    for raw in ["false", "FALSE", " 0 ", "no", "Off"] {
        assert!(
            !parse_config_bool(raw, "acl.audit.enabled", true),
            "should parse false: {raw:?}"
        );
    }
}

#[test]
fn zero_switches_a_flag_off_even_though_rust_cannot_parse_it_as_bool() {
    assert!("0".parse::<bool>().is_err(), "premise of this test");
    assert!(!parse_config_bool("0", "acl.audit.enabled", true));
    assert!(parse_config_bool("1", "acl.audit.enabled", false));
}

#[test]
fn ordered_keys_reads_order_off_the_raw_text() {
    let line = r#"{"b":"12:00","a":{"z":1},"c":["x:y"],"d":null}"#;
    assert_eq!(ordered_keys(line), vec!["b", "a", "c", "d"]);
}

#[test]
fn unknown_spelling_keeps_the_default() {
    assert!(parse_config_bool("maybe", "k", true));
    assert!(!parse_config_bool("maybe", "k", false));
}

#[test]
fn acl_root_tiers() {
    let file = vec![("acl.root".to_string(), " ./from-file ".to_string())];
    let cfg = ConfigResolver::new(None, Some(file), None);
    assert_eq!(resolve_acl_root(&cfg, Some(" ./flag "), Some("./env"), true).as_deref(), Some("./flag"));
    assert_eq!(resolve_acl_root(&cfg, Some("  "), Some("./env"), true).as_deref(), Some("./env"));
    assert_eq!(resolve_acl_root(&cfg, None, Some(""), true).as_deref(), Some("./from-file"));
    let bare = ConfigResolver::new(None, None, None);
    assert_eq!(resolve_acl_root(&bare, None, None, true).as_deref(), Some("./acl"));
    assert_eq!(resolve_acl_root(&bare, None, None, false), None);
    assert_eq!(non_empty(Some("  ")), None);
}

#[test]
fn audit_switches_default_on() {
    let cfg = ConfigResolver::new(None, None, None);
    assert!(acl_audit_enabled(&cfg, None));
    assert!(!acl_audit_enabled(&cfg, Some("off")));
    assert!(acl_audit_enabled(&cfg, Some("maybe")));
    let file = vec![("acl.audit.include_denied".to_string(), "no".to_string())];
    let cfg = ConfigResolver::new(None, Some(file), None);
    assert!(!acl_audit_include_denied(&cfg, None));
    assert!(acl_audit_include_denied(&cfg, Some("yes")));
}

#[test]
fn identity_assertion() {
    let empty = CliIdentity { id: None, identity_type: None, roles: vec![] };
    assert!(empty.is_empty());
    let roles_only = CliIdentity { id: None, identity_type: None, roles: vec!["admin".into()] };
    let (id, t, roles) = roles_only.identity_parts();
    assert_eq!(id, "@cli");
    assert_eq!(t, "user");
    assert_eq!(roles, vec!["admin".to_string()]);
    let mut cell = IdentityCell::new();
    set_cli_identity(&mut cell, Some(empty));
    assert!(cli_identity(&cell).is_none());
    set_cli_identity(&mut cell, Some(roles_only));
    assert_eq!(cli_identity(&cell).unwrap().roles, vec!["admin".to_string()]);
    assert!(CliIdentity::default().is_empty());
    assert_eq!(CliIdentity::default().clone(), CliIdentity { id: None, identity_type: None, roles: vec![] });
}

#[test]
fn exit_codes_and_labels() {
    assert_eq!(validate_exit_code(0), 0);
    assert_eq!(validate_exit_code(2), 47);
    assert_eq!(check_exit_code("deny"), 77);
    assert_eq!(check_exit_code("allow"), 0);
    assert_eq!(status_exit_code(true, true), 47);
    assert_eq!(status_exit_code(true, false), 0);
    assert_eq!(yes_no(true), "yes");
    assert_eq!(ACL_AUDIT_FIELDS.len(), 13);
    assert_eq!(
        strategy_bypass_warning(Some("testing"), true).as_deref(),
        Some("Warning: Using 'testing' strategy - the configured ACL is not enforced.")
    );
    assert!(strategy_bypass_warning(Some("testing"), false).is_none());
    assert!(strategy_bypass_warning(Some("standard"), true).is_none());
}

#[test]
fn condition_keys_are_sorted() {
    assert_eq!(
        condition_keys(Some(&j(r#"{"roles": [], "identity_types": [], "max_call_depth": 2}"#))),
        vec!["identity_types".to_string(), "max_call_depth".to_string(), "roles".to_string()]
    );
    assert!(condition_keys(None).is_empty());
    assert!(condition_keys(Some(&j("[1]"))).is_empty());
}

fn resolver_with_file(entries: &[(&str, &str)]) -> ConfigResolver {
    let file = entries.iter().map(|(k, v)| (k.to_string(), v.to_string())).collect();
    ConfigResolver::new(None, Some(file), None)
}

#[test]
fn tier1_cli_flag_wins_over_everything() {
    let resolver = resolver_with_file(&[("acl.root", "./from-yaml")]);
    assert_eq!(
        resolve_acl_root(&resolver, Some("./custom.yaml"), Some("./from-env"), true),
        Some("./custom.yaml".to_string())
    );
}

#[test]
fn tier2_env_wins_over_yaml() {
    let resolver = resolver_with_file(&[("acl.root", "./from-yaml")]);
    assert_eq!(resolve_acl_root(&resolver, None, Some("./other"), true), Some("./other".to_string()));
}

#[test]
fn tier3_yaml_used_when_no_flag_or_env() {
    let resolver = resolver_with_file(&[("acl.root", "./from-yaml")]);
    assert_eq!(resolve_acl_root(&resolver, None, None, true), Some("./from-yaml".to_string()));
}

#[test]
fn tier4_default_is_none_when_absent() {
    let resolver = ConfigResolver::new(None, None, None);
    // the working directory holds no ./acl
    assert_eq!(resolve_acl_root(&resolver, None, None, false), None);
}

#[test]
fn tier4_default_is_reported_when_present() {
    let resolver = ConfigResolver::new(None, None, None);
    assert_eq!(resolve_acl_root(&resolver, None, None, true), Some(DEFAULT_ACL_ROOT.to_string()));
}

#[test]
fn empty_values_fall_through_to_the_next_tier() {
    let resolver = resolver_with_file(&[("acl.root", "./from-yaml")]);
    assert_eq!(
        resolve_acl_root(&resolver, Some(""), Some("   "), false),
        Some("./from-yaml".to_string())
    );
}

#[test]
fn audit_flags_default_to_true() {
    let resolver = ConfigResolver::new(None, None, None);
    assert!(acl_audit_enabled(&resolver, None));
    assert!(acl_audit_include_denied(&resolver, None));
}

#[test]
fn audit_flags_read_the_environment() {
    let resolver = ConfigResolver::new(None, None, None);
    assert!(!acl_audit_enabled(&resolver, Some("false")));
    assert!(!acl_audit_include_denied(&resolver, Some("0")));
}

#[test]
fn audit_flags_read_apcore_yaml() {
    let resolver = resolver_with_file(&[
        ("acl.audit.enabled", "false"),
        ("acl.audit.include_denied", "false"),
    ]);
    assert!(!acl_audit_enabled(&resolver, None));
    assert!(!acl_audit_include_denied(&resolver, None));
}

#[test]
fn audit_flag_env_beats_apcore_yaml() {
    let resolver = resolver_with_file(&[("acl.audit.enabled", "false")]);
    assert!(acl_audit_enabled(&resolver, Some("true")));
}

#[test]
fn an_unparseable_audit_flag_keeps_the_default() {
    let resolver = ConfigResolver::new(None, None, None);
    assert!(acl_audit_enabled(&resolver, Some("maybe")));
}

#[test]
fn empty_identity_builds_no_context() {
    let identity = CliIdentity { id: None, identity_type: None, roles: vec![] };
    assert!(identity.is_empty());
}

#[test]
fn identity_type_defaults_to_user() {
    let identity = CliIdentity {
        id: Some("alice".to_string()),
        identity_type: None,
        roles: vec!["admin".to_string()],
    };
    let (id, identity_type, roles) = identity.identity_parts();
    assert_eq!(id, "alice");
    assert_eq!(identity_type, DEFAULT_IDENTITY_TYPE);
    assert_eq!(roles, ["admin".to_string()]);
}

#[test]
fn roles_only_form_gets_the_pinned_identity_sentinel() {
    assert_eq!(DEFAULT_IDENTITY_ID, "@cli");
    let identity = CliIdentity { id: None, identity_type: None, roles: vec!["admin".to_string()] };
    let (id, identity_type, roles) = identity.identity_parts();
    assert_eq!(id, DEFAULT_IDENTITY_ID);
    assert_eq!(identity_type, DEFAULT_IDENTITY_TYPE);
    assert_eq!(roles, ["admin".to_string()]);
}

#[test]
fn condition_keys_are_lexicographic() {
    let conditions = j(r#"{"roles": [], "$or": [], "max_call_depth": 3}"#);
    assert_eq!(
        condition_keys(Some(&conditions)),
        vec!["$or".to_string(), "max_call_depth".to_string(), "roles".to_string()]
    );
    assert!(condition_keys(None).is_empty());
}

#[test]
fn strategy_warning_only_fires_with_an_acl_and_a_bypassing_strategy() {
    assert!(ACL_BYPASSING_STRATEGIES.contains(&"testing"));
    assert!(ACL_BYPASSING_STRATEGIES.contains(&"internal"));
    assert!(ACL_BYPASSING_STRATEGIES.contains(&"minimal"));
    assert!(!ACL_BYPASSING_STRATEGIES.contains(&"standard"));
    assert!(strategy_bypass_warning(Some("testing"), false).is_none());
    assert!(strategy_bypass_warning(Some("standard"), true).is_none());
    assert_eq!(
        strategy_bypass_warning(Some("testing"), true).as_deref(),
        Some("Warning: Using 'testing' strategy - the configured ACL is not enforced.")
    );
}

#[test]
fn missing_root_attaches_nothing() {
    // the root does not exist on disk
    assert_eq!(resolve_acl_file("/tmp/x/nope", false, false, false), None);
}

#[test]
fn describe_load_error_names_a_missing_file() {
    assert_eq!(describe_load_error("/nope/acl.yaml", true, "gone"), "ACL file not found: /nope/acl.yaml");
}

#[test]
fn acl_file_resolution_follows_the_disk() {
    assert_eq!(resolve_acl_file("./acl", true, true, false), None);
    assert_eq!(resolve_acl_file("./acl", true, true, true).as_deref(), Some("./acl/global_acl.yaml"));
    assert_eq!(resolve_acl_file("./acl/", true, true, true).as_deref(), Some("./acl/global_acl.yaml"));
    assert_eq!(resolve_acl_file("custom.yaml", true, false, false).as_deref(), Some("custom.yaml"));
    assert_eq!(conventional_acl_path("/etc/acl"), "/etc/acl/global_acl.yaml");
    assert_eq!(
        describe_load_error("bad.yaml", false, "unknown effect 'permit'"),
        "Invalid ACL configuration in bad.yaml: unknown effect 'permit'"
    );
}
