use apcore::acl::{ACLRule, ApprovalRequirement};
use apcore::{Context, Identity, ACL};
use apcore_cli::acl::{set_cli_identity, CliIdentity, IdentityCell, DEFAULT_CALLER};
use apcore_cli::acl_report::{
    build_check_context, check_payload, delegated_gate_identity, list_payload, parse_depth,
    render_check_table, render_list, render_list_table, render_status_table,
    render_validate_table, resolve_acl_format, status_payload, validate_payload, value_rows,
    finding_grid, rule_grid, AclInfo, AclRuleInfo, DecisionInfo, FindingInfo, GovernanceInfo,
};
use apcore_cli::json::{Json, JsonNumber};
use serde_json::Value;

fn to_json(v: &Value) -> Json {
    match v {
        Value::Null => Json::Null,
        Value::Bool(b) => Json::Bool(*b),
        Value::Number(n) => {
            if let Some(u) = n.as_u64() {
                Json::Number(JsonNumber::PosInt(u))
            } else if let Some(i) = n.as_i64() {
                Json::Number(JsonNumber::NegInt(i))
            } else {
                Json::Number(JsonNumber::Float(n.to_string()))
            }
        }
        Value::String(s) => Json::Str(s.clone()),
        Value::Array(a) => Json::Array(a.iter().map(to_json).collect()),
        Value::Object(o) => Json::Object(o.iter().map(|(k, v)| (k.clone(), to_json(v))).collect()),
    }
}

fn from_json(v: &Json) -> Value {
    match v {
        Json::Null => Value::Null,
        Json::Bool(b) => Value::Bool(*b),
        Json::Number(JsonNumber::PosInt(u)) => Value::from(*u),
        Json::Number(JsonNumber::NegInt(i)) => Value::from(*i),
        Json::Number(JsonNumber::Float(t)) => serde_json::from_str(t).unwrap(),
        Json::Str(s) => Value::String(s.clone()),
        Json::Array(a) => Value::Array(a.iter().map(from_json).collect()),
        Json::Object(o) => {
            Value::Object(o.iter().map(|(k, v)| (k.clone(), from_json(v))).collect())
        }
        Json::Tagged(_, b) => from_json(b),
    }
}

fn rule(callers: &[&str], targets: &[&str], effect: &str) -> ACLRule {
    ACLRule::new(
        callers.iter().map(|s| (*s).to_string()).collect(),
        targets.iter().map(|s| (*s).to_string()).collect(),
        effect,
    )
}

fn sample_acl() -> ACL {
    let mut deny_control = rule(&["@external"], &["system.control.*"], "deny");
    deny_control.description = Some("no external control".to_string());

    let mut migrate = rule(&["*"], &["db.migrate"], "allow");
    migrate.approval = Some(ApprovalRequirement::Required);
    migrate.description = Some("migrations need a human".to_string());
    migrate.conditions = Some(serde_json::from_str(r#"{"roles": ["admin"]}"#).unwrap());

    let read = rule(&["*"], &["db.read"], "allow");

    ACL::try_new(vec![deny_control, migrate, read], "deny", None).expect("well-formed ACL")
}

fn rule_info(r: &ACLRule) -> AclRuleInfo {
    AclRuleInfo {
        callers: r.callers.clone(),
        targets: r.targets.clone(),
        effect: r.effect.clone(),
        approval_required: matches!(r.approval, Some(a) if a.is_required()),
        description: r.description.clone(),
        conditions: r.conditions.as_ref().map(to_json),
    }
}

fn info(acl: &ACL) -> AclInfo {
    AclInfo {
        rules: acl.rules().iter().map(rule_info).collect(),
        default_effect: acl.default_effect().to_string(),
    }
}

fn decision_info(d: &apcore::AccessDecision) -> DecisionInfo {
    DecisionInfo {
        access: d.access.clone(),
        approval_required: d.approval_required,
        matched_rule_index: d.matched_rule_index,
        reason: d.reason.clone(),
    }
}

fn findings(acl: &ACL) -> Vec<FindingInfo> {
    acl.validate_rules()
        .iter()
        .map(|f| FindingInfo {
            rule_index: f.rule_index,
            condition_path: f.condition_path.clone(),
            condition_key: f.condition_key.clone(),
            effect: f.effect.clone(),
            sync_resolvable: f.sync_resolvable,
            async_resolvable: f.async_resolvable,
        })
        .collect()
}

// ----- list -----

#[test]
fn list_json_preserves_definition_order() {
    let acl = info(&sample_acl());
    let payload = from_json(&list_payload(Some(&acl), Some("./acl/global_acl.yaml")));
    let rules = payload["rules"].as_array().expect("rules array");
    assert_eq!(rules.len(), 3);
    for (i, r) in rules.iter().enumerate() {
        assert_eq!(r["index"].as_u64(), Some(i as u64));
    }
    assert_eq!(payload["default_effect"], "deny");
    assert_eq!(payload["source"], "./acl/global_acl.yaml");
    assert_eq!(rules[0]["effect"], "deny");
    assert_eq!(rules[1]["approval"], "required");
    assert_eq!(rules[2]["approval"], "not_required");
}

#[test]
fn list_json_with_no_acl_is_the_documented_empty_shape() {
    let payload = from_json(&list_payload(None, None));
    assert_eq!(payload["source"], Value::Null);
    assert_eq!(payload["default_effect"], Value::Null);
    assert_eq!(payload["rules"].as_array().map(Vec::len), Some(0));
}

#[test]
fn list_table_with_no_acl_says_so() {
    assert_eq!(render_list(None, None, "table", None), "No ACL configured.");
}

#[test]
fn list_table_shows_condition_keys_only() {
    let acl = info(&sample_acl());
    let out = render_list(Some(&acl), Some("./acl/global_acl.yaml"), "table", None);
    assert!(out.contains("Default effect: deny"));
    assert!(out.contains("3 rules"));
    assert!(out.contains("roles"), "condition key column: {out}");
    assert!(
        !out.contains("admin"),
        "condition bodies belong in --format json only: {out}"
    );
}

#[test]
fn list_csv_and_jsonl_render_the_rule_rows() {
    let acl = info(&sample_acl());
    let payload = list_payload(Some(&acl), Some("s"));
    let rows: Vec<serde_json::Map<String, Value>> = value_rows(&payload, "rules")
        .iter()
        .map(|r| r.iter().map(|(k, v)| (k.clone(), from_json(v))).collect())
        .collect();
    let csv = apcore_toolkit::format_csv(&rows, false);
    assert!(csv.starts_with("index,effect,approval"), "{csv}");
    assert_eq!(render_list(Some(&acl), Some("s"), "csv", None), csv.trim_end_matches("\r\n"));
    let jsonl = apcore_toolkit::format_jsonl(&rows);
    assert_eq!(render_list(Some(&acl), Some("s"), "jsonl", None), jsonl.trim_end_matches('\n'));
    assert_eq!(jsonl.trim_end_matches('\n').lines().count(), 3);
}

#[test]
fn list_table_header_is_exact() {
    let empty = AclInfo { rules: Vec::new(), default_effect: "allow".to_string() };
    assert_eq!(
        render_list_table(Some(&empty), None, None),
        "Default effect: allow   (source: <unknown>, 0 rules)"
    );
    let one = AclInfo {
        rules: vec![rule_info(&rule(&["*"], &["x"], "allow"))],
        default_effect: "deny".to_string(),
    };
    assert!(render_list_table(Some(&one), Some("f.yaml"), None)
        .starts_with("Default effect: deny   (source: f.yaml, 1 rule)\n\n"));
}

#[test]
fn list_json_format_is_pretty_json() {
    let out = render_list(None, None, "json", None);
    let v: Value = serde_json::from_str(&out).unwrap();
    assert!(v["rules"].as_array().unwrap().is_empty());
    assert!(out.contains('\n'));
}

// ----- check -----

#[test]
fn check_allow_reports_the_matched_rule() {
    let acl = sample_acl();
    let decision = acl.check_access(Some("@external"), "db.read", None, None);
    assert_eq!(decision.access, "allow");
    let d = decision_info(&decision);
    let payload = from_json(&check_payload("db.read", "@external", &d));
    assert_eq!(payload["access"], "allow");
    assert_eq!(payload["matched_rule_index"], 2);
    let table = render_check_table("db.read", "@external", &d, &info(&acl).rules);
    assert!(table.contains("Decision: ALLOW"), "{table}");
    assert!(table.contains("Approval: NOT REQUIRED"), "{table}");
}

#[test]
fn check_deny_is_reported_on_the_access_axis() {
    let acl = sample_acl();
    let decision = acl.check_access(Some("@external"), "system.control.disable", None, None);
    assert_eq!(decision.access, "deny");
    assert_eq!(decision.matched_rule_index, Some(0));
    let table = render_check_table(
        "system.control.disable",
        "@external",
        &decision_info(&decision),
        &info(&acl).rules,
    );
    assert_eq!(
        table,
        format!(
            "Target:   system.control.disable\nCaller:   @external\nDecision: DENY  (rule #0: \"no external control\")\nApproval: NOT REQUIRED\nReason:   {}",
            decision.reason
        )
    );
}

#[test]
fn allow_with_approval_is_still_an_allow() {
    let acl = sample_acl();
    let identity = Identity::new(
        "alice".to_string(),
        "user".to_string(),
        vec!["admin".to_string()],
        std::collections::HashMap::new(),
    );
    let ctx = Context::<Value>::new(identity);
    let decision = acl.check_access(Some("@external"), "db.migrate", Some(&ctx), None);
    assert_eq!(decision.access, "allow");
    assert!(decision.approval_required);
    let payload = from_json(&check_payload("db.migrate", "@external", &decision_info(&decision)));
    assert_eq!(payload["approval_required"], true);
}

#[test]
fn missing_role_falls_through_to_the_default_effect() {
    let acl = sample_acl();
    let decision = acl.check_access(Some("@external"), "db.migrate", None, None);
    assert_eq!(decision.access, "deny");
    assert_eq!(decision.matched_rule_index, None);
    let table = render_check_table("db.migrate", "@external", &decision_info(&decision), &info(&acl).rules);
    assert!(table.contains("Decision: DENY  (no rule matched; default_effect)"), "{table}");
    let payload = from_json(&check_payload("db.migrate", "@external", &decision_info(&decision)));
    assert!(payload["matched_rule_index"].is_null());
}

#[test]
fn depth_builds_a_synthetic_call_chain() {
    let cell = IdentityCell::new();
    let ctx = build_check_context(&cell, Some(3), false).expect("depth alone builds a context");
    assert_eq!(ctx.call_chain.len(), 3);
    assert_eq!(ctx.call_chain[2], "synthetic.frame.2");
    assert!(ctx.identity.is_none(), "no identity flag was given");
}

#[test]
fn input_alone_builds_a_context() {
    let cell = IdentityCell::new();
    assert!(build_check_context(&cell, None, true).is_some());
}

#[test]
fn no_flags_means_no_context() {
    let cell = IdentityCell::new();
    assert!(build_check_context(&cell, None, false).is_none());
}

#[test]
fn an_asserted_identity_alone_builds_a_context() {
    let mut cell = IdentityCell::new();
    set_cli_identity(
        &mut cell,
        Some(CliIdentity { id: None, identity_type: None, roles: vec!["admin".to_string()] }),
    );
    let ctx = build_check_context(&cell, None, false).expect("identity builds a context");
    let (id, kind, roles) = ctx.identity.expect("identity");
    assert_eq!(id, "@cli");
    assert_eq!(kind, "user");
    assert_eq!(roles, vec!["admin".to_string()]);
    assert!(ctx.call_chain.is_empty());
}

#[test]
fn the_delegated_gate_context_is_never_absent() {
    let mut cell = IdentityCell::new();
    let (id, kind, roles) = delegated_gate_identity(&cell);
    assert_eq!(id, DEFAULT_CALLER);
    assert_eq!(kind, "external");
    assert!(roles.is_empty());

    set_cli_identity(
        &mut cell,
        Some(CliIdentity {
            id: Some("alice".to_string()),
            identity_type: Some("service".to_string()),
            roles: vec!["admin".to_string()],
        }),
    );
    let (id, kind, roles) = delegated_gate_identity(&cell);
    assert_eq!(id, "alice");
    assert_eq!(kind, "service");
    assert_eq!(roles, vec!["admin".to_string()]);
}

#[test]
fn depth_must_be_a_non_negative_integer() {
    assert_eq!(parse_depth("3"), Ok(3));
    assert_eq!(
        parse_depth("-1"),
        Err("Error: Invalid --depth value '-1': expected a non-negative integer.".to_string())
    );
}

#[test]
fn acl_formats_fall_back_to_the_first_allowed() {
    assert_eq!(resolve_acl_format(Some("yaml"), false, &vec!["table", "json"]), "table");
    assert_eq!(resolve_acl_format(Some("json"), true, &vec!["table", "json"]), "json");
    assert_eq!(resolve_acl_format(None, true, &vec!["table", "json"]), "table");
    assert_eq!(resolve_acl_format(None, false, &vec!["table", "json"]), "json");
}

// ----- validate -----

#[test]
fn validate_reports_zero_findings_on_a_clean_rule_set() {
    let acl = sample_acl();
    let f = findings(&acl);
    let payload = from_json(&validate_payload(&f));
    assert_eq!(payload["count"], 0);
    assert_eq!(render_validate_table(&f, None), "0 findings.");
}

#[test]
fn validate_names_an_unregistered_condition_key() {
    let mut bad = rule(&["*"], &["db.migrate"], "deny");
    bad.conditions = Some(serde_json::from_str(r#"{"mispelled": ["x"]}"#).unwrap());
    let acl = ACL::try_new(vec![bad], "deny", None).expect("loads with a warning");
    let f = findings(&acl);
    let payload = from_json(&validate_payload(&f));
    assert_eq!(payload["count"], 1);
    let finding = &payload["findings"][0];
    assert_eq!(finding["rule_index"], 0);
    assert_eq!(finding["condition_key"], "mispelled");
    assert_eq!(finding["effect"], "deny");
    assert!(finding.get("sync_resolvable").is_some());
    assert!(finding.get("async_resolvable").is_some());

    let table = render_validate_table(&f, None);
    assert!(table.contains("1 finding:"), "{table}");
    assert!(table.contains("mispelled"), "{table}");
    assert!(table.contains("Sync"), "{table}");
    assert!(table.contains("Async"), "{table}");
}

// ----- status -----

#[test]
fn status_renders_all_nine_observations() {
    let state = GovernanceInfo {
        control_modules_registered: true,
        read_modules_registered: true,
        acl_configured: true,
        builtin_acl_gate_wired: true,
        approval_handler_configured: true,
        builtin_approval_gate_wired: true,
        policy_strict: false,
        all_control_modules_require_approval: false,
        unprotected_control_surface: false,
    };
    let out = render_status_table(&state, Some("./acl/global_acl.yaml"));
    for label in [
        "Control modules registered:",
        "Read modules registered:",
        "ACL configured:",
        "Built-in ACL gate wired:",
        "Approval handler configured:",
        "Built-in approval gate wired:",
        "Policy strict:",
        "All control modules gated:",
        "Unprotected control surface:",
    ] {
        assert!(out.contains(label), "missing '{label}' in:\n{out}");
    }
    assert!(out.contains("yes  (./acl/global_acl.yaml)"), "{out}");
    assert!(out.ends_with("NO"), "{out}");

    let payload = from_json(&status_payload(&state, Some("./acl/global_acl.yaml")));
    assert_eq!(payload["unprotected_control_surface"], false);
    assert_eq!(payload["acl_source"], "./acl/global_acl.yaml");
}

#[test]
fn status_lines_are_aligned() {
    let state = GovernanceInfo {
        control_modules_registered: true,
        read_modules_registered: false,
        acl_configured: false,
        builtin_acl_gate_wired: false,
        approval_handler_configured: false,
        builtin_approval_gate_wired: false,
        policy_strict: true,
        all_control_modules_require_approval: false,
        unprotected_control_surface: true,
    };
    let out = render_status_table(&state, None);
    let lines: Vec<&str> = out.lines().collect();
    assert_eq!(lines.len(), 10);
    assert_eq!(lines[0], "Control modules registered:   yes");
    assert_eq!(lines[2], "ACL configured:               no");
    assert_eq!(lines[8], "-".repeat(35));
    assert_eq!(lines[9], "Unprotected control surface:  YES");
}

#[test]
fn rule_and_finding_rows_are_exact() {
    let rules = vec![
        AclRuleInfo {
            callers: vec!["*".to_string()],
            targets: vec!["db.read".to_string(), "db.list".to_string()],
            effect: "allow".to_string(),
            approval_required: false,
            description: None,
            conditions: Some(to_json(&serde_json::from_str::<Value>(r#"{"roles": ["admin"], "$or": []}"#).unwrap())),
        },
        AclRuleInfo {
            callers: vec!["@external".to_string()],
            targets: vec!["system.*".to_string()],
            effect: "deny".to_string(),
            approval_required: true,
            description: Some("no external control".to_string()),
            conditions: None,
        },
    ];
    let rows = rule_grid(&rules);
    assert_eq!(rows[0], vec!["0", "allow", "not_required", "*", "db.read, db.list", "$or, roles", ""]);
    assert_eq!(rows[1], vec!["1", "deny", "required", "@external", "system.*", "-", "no external control"]);
    let findings = vec![FindingInfo {
        rule_index: 3,
        condition_path: "rules[3].conditions".to_string(),
        condition_key: None,
        effect: "deny".to_string(),
        sync_resolvable: true,
        async_resolvable: false,
    }];
    assert_eq!(finding_grid(&findings), vec![vec!["3", "rules[3].conditions", "-", "deny", "yes", "no"]]);
}
