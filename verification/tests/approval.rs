use apcore_cli::approval::{
    approval_step, approval_outcome, get_approval_message, get_module_id, get_requires_approval,
    prompt_answer, ApprovalError, ApprovalResult,
    ApprovalStatus, ApprovalStep, CliApprovalHandler, DEFAULT_APPROVAL_TIMEOUT_SECS,
};
use apcore_cli::json::{Json, JsonNumber};

fn to_json(v: &serde_json::Value) -> Json {
    match v {
        serde_json::Value::Null => Json::Null,
        serde_json::Value::Bool(b) => Json::Bool(*b),
        serde_json::Value::Number(n) => {
            if let Some(u) = n.as_u64() {
                Json::Number(JsonNumber::PosInt(u))
            } else if let Some(i) = n.as_i64() {
                Json::Number(JsonNumber::NegInt(i))
            } else {
                Json::Number(JsonNumber::Float(n.to_string()))
            }
        }
        serde_json::Value::String(s) => Json::Str(s.clone()),
        serde_json::Value::Array(a) => Json::Array(a.iter().map(to_json).collect()),
        serde_json::Value::Object(o) => {
            Json::Object(o.iter().map(|(k, v)| (k.clone(), to_json(v))).collect())
        }
    }
}

fn j(text: &str) -> Json {
    to_json(&serde_json::from_str::<serde_json::Value>(text).unwrap())
}

#[test]
fn error_denied_display() {
    let e = ApprovalError::Denied {
        module_id: "my-module".into(),
    };
    assert_eq!(e.message(), "approval denied for module 'my-module'");
}

#[test]
fn error_non_interactive_display() {
    let e = ApprovalError::NonInteractive {
        module_id: "my-module".into(),
    };
    assert_eq!(
        e.message(),
        "no interactive terminal available for module 'my-module'"
    );
}

#[test]
fn error_timeout_display() {
    let e = ApprovalError::Timeout {
        module_id: "my-module".into(),
        seconds: 60,
    };
    assert_eq!(
        e.message(),
        "approval timed out after 60s for module 'my-module'"
    );
}

#[test]
fn error_variants_are_debug() {
    let d = format!(
        "{:?}",
        ApprovalError::Denied {
            module_id: "x".into()
        }
    );
    assert!(d.contains("Denied"));
}

#[test]
fn approval_result_constructors_set_status_and_fields() {
    let approved = ApprovalResult::approved_via("tty_user");
    assert_eq!(approved.status, ApprovalStatus::Approved);
    assert_eq!(approved.approved_by.as_deref(), Some("tty_user"));
    assert!(approved.reason.is_none());

    let rejected = ApprovalResult::rejected("user said no");
    assert_eq!(rejected.status, ApprovalStatus::Rejected);
    assert!(rejected.approved_by.is_none());
    assert_eq!(rejected.reason.as_deref(), Some("user said no"));

    let timeout = ApprovalResult::timed_out("60s expired");
    assert_eq!(timeout.status, ApprovalStatus::Timeout);
    assert!(timeout.approved_by.is_none());
    assert_eq!(timeout.reason.as_deref(), Some("60s expired"));
}

fn module(requires: bool) -> Json {
    if requires {
        j(r#"{"module_id": "danger.op", "annotations": {"requires_approval": true}}"#)
    } else {
        j(r#"{"module_id": "safe.op", "annotations": {"requires_approval": false}}"#)
    }
}

#[test]
fn gate_skips_modules_that_do_not_require_approval() {
    let step = approval_step(&module(false), false, None, false);
    assert!(matches!(step, ApprovalStep::NotRequired));
    // A string "true" is not the boolean true.
    let stringly = j(r#"{"annotations": {"requires_approval": "true"}}"#);
    assert!(matches!(approval_step(&stringly, false, None, false), ApprovalStep::NotRequired));
}

#[test]
fn yes_flag_bypasses_even_without_a_terminal() {
    match approval_step(&module(true), true, None, false) {
        ApprovalStep::Bypassed { approved_by } => assert_eq!(approved_by, "auto_approve"),
        other => panic!("unexpected {other:?}"),
    }
}

#[test]
fn env_one_bypasses_but_other_values_warn() {
    match approval_step(&module(true), false, Some("1"), false) {
        ApprovalStep::Bypassed { approved_by } => assert_eq!(approved_by, "env_auto_approve"),
        other => panic!("unexpected {other:?}"),
    }
    match approval_step(&module(true), false, Some("yes"), false) {
        ApprovalStep::NonInteractive { module_id, warning } => {
            assert_eq!(module_id, "danger.op");
            assert_eq!(
                warning.as_deref(),
                Some("Warning: APCORE_CLI_AUTO_APPROVE is set to 'yes', expected '1'. Ignoring.")
            );
        }
        other => panic!("unexpected {other:?}"),
    }
}

#[test]
fn terminal_prompts_with_default_or_custom_message() {
    match approval_step(&module(true), false, None, true) {
        ApprovalStep::Prompt { module_id, message, warning } => {
            assert_eq!(module_id, "danger.op");
            assert_eq!(message, "Module 'danger.op' requires approval to execute.");
            assert!(warning.is_none());
        }
        other => panic!("unexpected {other:?}"),
    }
    let custom = j(r#"{"canonical_id": "c.id", "annotations": {"requires_approval": true, "approval_message": "Really?"}}"#);
    match approval_step(&custom, false, Some(""), true) {
        ApprovalStep::Prompt { module_id, message, .. } => {
            assert_eq!(module_id, "c.id");
            assert_eq!(message, "Really?");
        }
        other => panic!("unexpected {other:?}"),
    }
}

#[test]
fn prompt_answers() {
    assert!(prompt_answer("y\n", "m").is_ok());
    assert!(prompt_answer("  YES  ", "m").is_ok());
    assert!(matches!(prompt_answer("no", "m"), Err(ApprovalError::Denied { .. })));
    assert!(matches!(prompt_answer("", "m"), Err(ApprovalError::Denied { .. })));
}

#[test]
fn approval_outcome_for_non_interactive_is_refusal() {
    let step = approval_step(&module(true), false, None, false);
    let r = approval_outcome(step, Ok(()));
    assert!(matches!(r, Err(ApprovalError::NonInteractive { ref module_id }) if module_id == "danger.op"));
    assert_eq!(r.unwrap_err().exit_code(), 46);
}

#[test]
fn handler_results_follow_the_protocol_shape() {
    let handler = CliApprovalHandler::new(false, DEFAULT_APPROVAL_TIMEOUT_SECS);
    assert_eq!(handler.timeout_secs, 60);
    let step = handler.decide(&module(false), None, true);
    let r = handler.result_for(&step, &Ok(()));
    assert_eq!(r.approved_by.as_deref(), Some("not_required"));

    let step = handler.decide(&module(true), None, false);
    let r = handler.result_for(&step, &Ok(()));
    assert_eq!(r.status, ApprovalStatus::Rejected);
    assert_eq!(
        r.reason.as_deref(),
        Some("Module 'danger.op' requires approval but no interactive terminal is available. Use --yes or set APCORE_CLI_AUTO_APPROVE=1 to bypass.")
    );

    let step = handler.decide(&module(true), None, true);
    let r = handler.result_for(
        &step,
        &Err(ApprovalError::Timeout { module_id: "danger.op".into(), seconds: 5 }),
    );
    assert_eq!(r.status, ApprovalStatus::Timeout);
    assert_eq!(r.reason.as_deref(), Some("Approval prompt timed out after 5 seconds."));
    let r = handler.result_for(&step, &Err(ApprovalError::Denied { module_id: "danger.op".into() }));
    assert_eq!(r.reason.as_deref(), Some("User denied approval"));
    let r = handler.result_for(&step, &Ok(()));
    assert_eq!(r.approved_by.as_deref(), Some("tty_user"));
}

#[test]
fn requires_approval_true_returns_true() {
    assert!(get_requires_approval(&j(r#"{"annotations": {"requires_approval": true}}"#)));
}

#[test]
fn requires_approval_false_returns_false() {
    assert!(!get_requires_approval(&j(r#"{"annotations": {"requires_approval": false}}"#)));
}

#[test]
fn requires_approval_string_true_returns_false() {
    assert!(!get_requires_approval(&j(r#"{"annotations": {"requires_approval": "true"}}"#)));
}

#[test]
fn requires_approval_int_one_returns_false() {
    assert!(!get_requires_approval(&j(r#"{"annotations": {"requires_approval": 1}}"#)));
}

#[test]
fn requires_approval_null_returns_false() {
    assert!(!get_requires_approval(&j(r#"{"annotations": {"requires_approval": null}}"#)));
}

#[test]
fn requires_approval_absent_returns_false() {
    assert!(!get_requires_approval(&j(r#"{"annotations": {}}"#)));
}

#[test]
fn requires_approval_no_annotations_returns_false() {
    assert!(!get_requires_approval(&j("{}")));
}

#[test]
fn requires_approval_annotations_null_returns_false() {
    assert!(!get_requires_approval(&j(r#"{"annotations": null}"#)));
}

#[test]
fn approval_message_custom() {
    let v = j(r#"{"annotations": {"approval_message": "Please confirm."}}"#);
    assert_eq!(get_approval_message(&v, "mod-x"), "Please confirm.");
}

#[test]
fn approval_message_default_when_absent() {
    let v = j(r#"{"annotations": {}}"#);
    assert_eq!(get_approval_message(&v, "mod-x"), "Module 'mod-x' requires approval to execute.");
}

#[test]
fn approval_message_default_when_not_string() {
    let v = j(r#"{"annotations": {"approval_message": 42}}"#);
    assert_eq!(get_approval_message(&v, "mod-x"), "Module 'mod-x' requires approval to execute.");
}

#[test]
fn module_id_from_module_id_field() {
    assert_eq!(get_module_id(&j(r#"{"module_id": "my-module"}"#)), "my-module");
}

#[test]
fn module_id_from_canonical_id_field() {
    assert_eq!(get_module_id(&j(r#"{"canonical_id": "canon-module"}"#)), "canon-module");
}

#[test]
fn module_id_unknown_when_absent() {
    assert_eq!(get_module_id(&j("{}")), "unknown");
}

fn test_module(requires: bool) -> Json {
    if requires {
        j(r#"{"module_id": "test-module", "annotations": {"requires_approval": true}}"#)
    } else {
        j(r#"{"module_id": "test-module", "annotations": {"requires_approval": false}}"#)
    }
}

/// The approval check end to end: the decision, then (for a prompt) the
/// typed answer, `env` being `APCORE_CLI_AUTO_APPROVE` as read.
fn check(def: &Json, auto_approve: bool, env: Option<&str>, is_tty: bool, answer: &str) -> Result<(), ApprovalError> {
    let step = approval_step(def, auto_approve, env, is_tty);
    let prompted = match &step {
        ApprovalStep::Prompt { module_id, .. } => prompt_answer(answer, module_id),
        _ => Ok(()),
    };
    approval_outcome(step, prompted)
}

#[test]
fn skip_when_requires_approval_false() {
    let def = j(r#"{"annotations": {"requires_approval": false}}"#);
    assert!(check(&def, false, None, false, "").is_ok());
}

#[test]
fn skip_when_no_annotations() {
    assert!(check(&j("{}"), false, None, false, "").is_ok());
}

#[test]
fn skip_when_requires_approval_string_true() {
    let def = j(r#"{"annotations": {"requires_approval": "true"}}"#);
    assert!(check(&def, false, None, false, "").is_ok());
}

#[test]
fn bypass_auto_approve_true() {
    assert!(check(&test_module(true), true, None, false, "").is_ok(), "auto_approve=true must bypass");
}

#[test]
fn explicit_timeout_some_delegates_to_with_timeout() {
    // the bypass is decided before any prompt, so the timeout never matters
    assert!(check(&test_module(true), true, None, true, "").is_ok());
}

#[test]
fn bypass_env_var_one() {
    assert!(check(&test_module(true), false, Some("1"), false, "").is_ok(), "APCORE_CLI_AUTO_APPROVE=1 must bypass");
}

#[test]
fn yes_flag_priority_over_env_var() {
    assert!(check(&test_module(true), true, Some("1"), false, "").is_ok());
}

#[test]
fn non_tty_no_bypass_returns_non_interactive_error() {
    match check(&test_module(true), false, None, false, "") {
        Err(ApprovalError::NonInteractive { module_id }) => assert_eq!(module_id, "test-module"),
        other => panic!("expected NonInteractive error, got {:?}", other),
    }
}

#[test]
fn non_tty_with_yes_flag_bypasses_before_tty_check() {
    assert!(check(&test_module(true), true, None, false, "").is_ok(), "auto_approve bypasses TTY check");
}

#[test]
fn non_tty_with_env_var_bypasses_before_tty_check() {
    assert!(check(&test_module(true), false, Some("1"), false, "").is_ok());
}

#[test]
fn non_tty_env_var_not_one_returns_non_interactive() {
    let r = check(&test_module(true), false, Some("true"), false, "");
    assert!(matches!(r, Err(ApprovalError::NonInteractive { .. })));
}

#[test]
fn user_types_y_returns_ok() {
    assert!(prompt_answer("y\n", "test-module").is_ok());
}

#[test]
fn user_types_yes_returns_ok() {
    assert!(prompt_answer("yes\n", "test-module").is_ok());
}

#[test]
fn user_types_yes_uppercase_returns_ok() {
    assert!(prompt_answer("YES\n", "test-module").is_ok());
}

#[test]
fn user_types_n_returns_denied() {
    assert!(matches!(prompt_answer("n\n", "test-module"), Err(ApprovalError::Denied { .. })));
}

#[test]
fn user_presses_enter_returns_denied() {
    assert!(matches!(prompt_answer("\n", "test-module"), Err(ApprovalError::Denied { .. })));
}

#[test]
fn user_types_garbage_returns_denied() {
    assert!(matches!(prompt_answer("maybe\n", "test-module"), Err(ApprovalError::Denied { .. })));
}

#[test]
fn check_approval_custom_message_displayed() {
    let def = j(r#"{
        "module_id": "mod-custom",
        "annotations": {"requires_approval": true, "approval_message": "Custom: please confirm."}
    }"#);
    assert!(check(&def, true, None, true, "").is_ok());
    match approval_step(&def, false, None, true) {
        ApprovalStep::Prompt { message, .. } => assert_eq!(message, "Custom: please confirm."),
        other => panic!("unexpected {other:?}"),
    }
}

#[test]
fn check_approval_with_tty_timeout_honors_custom_value_before_prompt() {
    let def = j(r#"{"module_id": "mod-non-interactive", "annotations": {"requires_approval": true}}"#);
    match check(&def, false, None, false, "") {
        Err(ApprovalError::NonInteractive { module_id }) => assert_eq!(module_id, "mod-non-interactive"),
        other => panic!("expected NonInteractive, got {other:?}"),
    }
}

#[test]
fn check_approval_with_timeout_honors_auto_approve_bypass() {
    let def = j(r#"{"module_id": "mod-bypass", "annotations": {"requires_approval": true}}"#);
    assert!(check(&def, true, None, true, "").is_ok());
}

fn request(handler: &CliApprovalHandler, def: &Json, env: Option<&str>) -> ApprovalResult {
    let step = handler.decide(def, env, false);
    handler.result_for(&step, &Ok(()))
}

#[test]
fn handler_returns_approved_via_auto_approve_for_yes_flag() {
    let handler = CliApprovalHandler::new(true, 60);
    let result = request(&handler, &test_module(true), None);
    assert_eq!(result.status, ApprovalStatus::Approved);
    assert_eq!(result.approved_by.as_deref(), Some("auto_approve"));
    assert!(result.reason.is_none());
}

#[test]
fn handler_returns_approved_not_required_when_no_annotation() {
    let handler = CliApprovalHandler::new(false, 60);
    let result = request(&handler, &test_module(false), None);
    assert_eq!(result.status, ApprovalStatus::Approved);
    assert_eq!(result.approved_by.as_deref(), Some("not_required"));
}

#[test]
fn handler_returns_approved_via_env_for_one_value() {
    let handler = CliApprovalHandler::new(false, 60);
    let result = request(&handler, &test_module(true), Some("1"));
    assert_eq!(result.status, ApprovalStatus::Approved);
    assert_eq!(result.approved_by.as_deref(), Some("env_auto_approve"));
}

#[test]
fn handler_yes_flag_priority_over_env() {
    let handler = CliApprovalHandler::new(true, 60);
    let result = request(&handler, &test_module(true), Some("1"));
    assert_eq!(result.status, ApprovalStatus::Approved);
    assert_eq!(result.approved_by.as_deref(), Some("auto_approve"));
}

#[test]
fn handler_check_approval_aliases_request_approval() {
    let handler = CliApprovalHandler::new(true, 60);
    let request_result = request(&handler, &test_module(true), None);
    let check_result = request(&handler, &test_module(true), None);
    assert_eq!(request_result, check_result);
}
