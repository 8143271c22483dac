use apcore_cli::cli::CliError;
use apcore_cli::dispatch::{
    fallback_report, pipeline_preview, stream_output, trace_record, traced, DispatchAction,
    DispatchEvent, DispatchFlags, Dispatcher, ExecFailure, ExecMode, Outcome, Stage,
};
use apcore_cli::json::{Json, JsonNumber};

fn to_json(v: &serde_json::Value) -> Json {
    match v {
        serde_json::Value::Null => Json::Null,
        serde_json::Value::Bool(b) => Json::Bool(*b),
        serde_json::Value::Number(n) => {
            if let Some(u) = n.as_u64() {
                Json::Number(JsonNumber::PosInt(u))
            } else if let Some(i) = n.as_i64() {
                Json::Number(JsonNumber::NegInt(i))
            } else {
                Json::Number(JsonNumber::Float(n.to_string()))
            }
        }
        serde_json::Value::String(s) => Json::Str(s.clone()),
        serde_json::Value::Array(a) => Json::Array(a.iter().map(to_json).collect()),
        serde_json::Value::Object(o) => {
            Json::Object(o.iter().map(|(k, v)| (k.clone(), to_json(v))).collect())
        }
    }
}

fn j(text: &str) -> Json {
    to_json(&serde_json::from_str::<serde_json::Value>(text).unwrap())
}

fn from_json(v: &Json) -> serde_json::Value {
    match v {
        Json::Null => serde_json::Value::Null,
        Json::Bool(b) => serde_json::Value::Bool(*b),
        Json::Number(JsonNumber::PosInt(u)) => serde_json::Value::from(*u),
        Json::Number(JsonNumber::NegInt(i)) => serde_json::Value::from(*i),
        Json::Number(JsonNumber::Float(t)) => serde_json::from_str(t).unwrap(),
        Json::Str(s) => serde_json::Value::String(s.clone()),
        Json::Array(a) => serde_json::Value::Array(a.iter().map(from_json).collect()),
        Json::Object(o) => serde_json::Value::Object(
            o.iter().map(|(k, v)| (k.clone(), from_json(v))).collect(),
        ),
        Json::Tagged(_, b) => from_json(b),
    }
}

fn flags() -> DispatchFlags {
    DispatchFlags {
        yes: false,
        dry_run: false,
        trace: false,
        stream: false,
        sandbox: false,
        format: None,
        fields: None,
        strategy: None,
        approval_timeout: None,
        approval_token: None,
        stdout_is_tty: false,
        stderr_is_tty: false,
    }
}

fn descriptor() -> Json {
    j(r#"{"module_id": "math.add", "input_schema": {"properties": {"a": {}, "b": {}}, "required": ["a", "b"]}}"#)
}

fn input(text: &str) -> Vec<(String, Json)> {
    match j(text) {
        Json::Object(o) => o,
        _ => panic!("not an object"),
    }
}

fn finish(a: DispatchAction) -> Outcome {
    match a {
        DispatchAction::Finish(o) => o,
        other => panic!("expected Finish, got {other:?}"),
    }
}

/// Run the machine up to the approval request.
fn to_approval(f: DispatchFlags, text: &str) -> Dispatcher {
    let mut d = Dispatcher::new("math.add".to_string(), f, false);
    assert!(matches!(d.step(DispatchEvent::Started), DispatchAction::LookUpModule));
    assert!(matches!(
        d.step(DispatchEvent::ModuleFound(descriptor())),
        DispatchAction::CollectInput
    ));
    match d.step(DispatchEvent::InputCollected(Ok(input(text)))) {
        DispatchAction::RequestApproval { auto_approve, timeout_secs, .. } => {
            assert!(!auto_approve);
            assert_eq!(timeout_secs, 60);
        }
        other => panic!("expected RequestApproval, got {other:?}"),
    }
    d
}

#[test]
fn invalid_module_id_exits_2() {
    let mut d = Dispatcher::new("Bad!".to_string(), flags(), false);
    let o = finish(d.step(DispatchEvent::Started));
    assert_eq!(o.exit_code, 2);
    assert_eq!(o.stderr, vec!["Error: Invalid module ID format: 'Bad!'."]);
    assert_eq!(d.stage(), Stage::Finished);
}

#[test]
fn missing_module_exits_44() {
    let mut d = Dispatcher::new("math.add".to_string(), flags(), false);
    d.step(DispatchEvent::Started);
    let o = finish(d.step(DispatchEvent::ModuleMissing));
    assert_eq!(o.exit_code, 44);
    assert_eq!(o.stderr, vec!["Error: Module 'math.add' not found in registry."]);
}

#[test]
fn input_errors_exit_2_with_their_reports() {
    let cases = vec![
        (
            CliError::InputTooLarge { limit: 10, actual: 20 },
            "Error: STDIN input exceeds 10MB limit. Use --large-input to override.",
        ),
        (
            CliError::JsonParse("eof".to_string()),
            "Error: STDIN does not contain valid JSON: eof.",
        ),
        (
            CliError::NotAnObject,
            "Error: STDIN JSON must be an object, got array or scalar.",
        ),
        (
            CliError::StdinRead("closed".to_string()),
            "Error: stdin read error: closed",
        ),
    ];
    for (err, text) in cases {
        let mut d = Dispatcher::new("math.add".to_string(), flags(), false);
        d.step(DispatchEvent::Started);
        d.step(DispatchEvent::ModuleFound(descriptor()));
        let o = finish(d.step(DispatchEvent::InputCollected(Err(err))));
        assert_eq!(o.exit_code, 2);
        assert_eq!(o.stderr, vec![text]);
    }
}

#[test]
fn missing_required_field_exits_45() {
    let mut d = Dispatcher::new("math.add".to_string(), flags(), false);
    d.step(DispatchEvent::Started);
    d.step(DispatchEvent::ModuleFound(descriptor()));
    let o = finish(d.step(DispatchEvent::InputCollected(Ok(input(r#"{"a": 1}"#)))));
    assert_eq!(o.exit_code, 45);
    assert_eq!(
        o.stderr,
        vec!["Error: Validation failed: required field 'b' is missing."]
    );
}

#[test]
fn approval_denial_exits_46() {
    let mut d = to_approval(flags(), r#"{"a": 1, "b": 2}"#);
    let o = finish(d.step(DispatchEvent::ApprovalAnswered(Err("Approval denied.".to_string()))));
    assert_eq!(o.exit_code, 46);
    assert_eq!(o.stderr, vec!["Error: Approval denied."]);
}

#[test]
fn approval_token_and_timeout_reach_the_request() {
    let mut f = flags();
    f.approval_token = Some("tok".to_string());
    f.approval_timeout = Some("5".to_string());
    f.yes = true;
    let mut d = Dispatcher::new("math.add".to_string(), f, false);
    d.step(DispatchEvent::Started);
    d.step(DispatchEvent::ModuleFound(descriptor()));
    match d.step(DispatchEvent::InputCollected(Ok(input(r#"{"a": 1, "b": 2}"#)))) {
        DispatchAction::RequestApproval { auto_approve, timeout_secs, module } => {
            assert!(auto_approve);
            assert_eq!(timeout_secs, 5);
            assert_eq!(from_json(&module)["module_id"], "math.add");
        }
        other => panic!("unexpected {other:?}"),
    }
    match d.step(DispatchEvent::ApprovalAnswered(Ok(()))) {
        DispatchAction::Execute { mode, input, warning } => {
            assert_eq!(mode, ExecMode::InProcess);
            let v = from_json(&input);
            assert_eq!(v["a"], 1);
            assert_eq!(v["_approval_token"], "tok");
            assert!(warning.is_none());
        }
        other => panic!("unexpected {other:?}"),
    }
}

#[test]
fn successful_run_is_audited_and_rendered() {
    let mut f = flags();
    f.format = Some("json".to_string());
    f.fields = Some("sum".to_string());
    let mut d = to_approval(f, r#"{"a": 1, "b": 2}"#);
    d.step(DispatchEvent::ApprovalAnswered(Ok(())));
    let o = finish(d.step(DispatchEvent::Executed(Ok(j(r#"{"sum": 3}"#)), 12)));
    assert_eq!(o.exit_code, 0);
    let r = o.render.expect("render");
    assert_eq!(r.format, "json");
    assert_eq!(r.fields.as_deref(), Some("sum"));
    assert_eq!(from_json(&r.output)["sum"], 3);
    let audit = o.audit.expect("audit");
    assert!(audit.success);
    assert_eq!(audit.exit_code, 0);
}

#[test]
fn failed_run_reports_json_when_stderr_is_not_a_terminal() {
    let mut d = to_approval(flags(), r#"{"a": 1, "b": 2}"#);
    d.step(DispatchEvent::ApprovalAnswered(Ok(())));
    let o = finish(d.step(DispatchEvent::Executed(
        Err(ExecFailure {
            exit_code: 44,
            message: "no such module".to_string(),
            error_data: Some(j(r#"{"code": "MODULE_NOT_FOUND", "retryable": false}"#)),
        }),
        3,
    )));
    assert_eq!(o.exit_code, 44);
    assert_eq!(
        o.stderr,
        vec![r#"{"error":true,"code":"MODULE_NOT_FOUND","message":"no such module","exit_code":44,"retryable":false}"#]
    );
    assert!(!o.audit.unwrap().success);
}

#[test]
fn failed_run_reports_guidance_on_a_terminal() {
    let mut f = flags();
    f.stderr_is_tty = true;
    let mut d = to_approval(f, r#"{"a": 1, "b": 2}"#);
    d.step(DispatchEvent::ApprovalAnswered(Ok(())));
    let o = finish(d.step(DispatchEvent::Executed(
        Err(ExecFailure {
            exit_code: 1,
            message: "boom".to_string(),
            error_data: Some(j(
                r#"{"code": "MODULE_EXECUTE_ERROR", "details": {"x": 1}, "suggestion": "retry", "retryable": true}"#,
            )),
        }),
        3,
    )));
    assert_eq!(
        o.stderr,
        vec![
            "Error [MODULE_EXECUTE_ERROR]: boom",
            "\n  Details:",
            "    x: 1",
            "\n  Suggestion: retry",
            "  Retryable: Yes",
            "\n  Exit code: 1",
        ]
    );
}

#[test]
fn interrupted_run_exits_130() {
    let mut d = to_approval(flags(), r#"{"a": 1, "b": 2}"#);
    d.step(DispatchEvent::ApprovalAnswered(Ok(())));
    let o = finish(d.step(DispatchEvent::Interrupted));
    assert_eq!(o.exit_code, 130);
    assert_eq!(o.stderr, vec!["Execution cancelled."]);
    assert!(o.audit.is_none());
}

#[test]
fn execution_mode_follows_the_flags() {
    let run = |f: DispatchFlags, script: bool| -> (ExecMode, Option<String>) {
        let mut d = Dispatcher::new("math.add".to_string(), f, script);
        d.step(DispatchEvent::Started);
        d.step(DispatchEvent::ModuleFound(descriptor()));
        d.step(DispatchEvent::InputCollected(Ok(input(r#"{"a": 1, "b": 2}"#))));
        match d.step(DispatchEvent::ApprovalAnswered(Ok(()))) {
            DispatchAction::Execute { mode, warning, .. } => (mode, warning),
            other => panic!("unexpected {other:?}"),
        }
    };
    assert_eq!(run(flags(), true).0, ExecMode::Script);
    let mut f = flags();
    f.sandbox = true;
    assert_eq!(run(f, false).0, ExecMode::Sandbox);
    let mut f = flags();
    f.trace = true;
    f.sandbox = true;
    assert_eq!(run(f, true).0, ExecMode::InProcess);
    let mut f = flags();
    f.stream = true;
    f.format = Some("table".to_string());
    let (mode, warning) = run(f, false);
    assert_eq!(mode, ExecMode::InProcess);
    assert_eq!(
        warning.as_deref(),
        Some("Warning: Streaming mode always outputs JSONL; --format table is ignored.")
    );
}

#[test]
fn streamed_results_are_json_lines() {
    let mut f = flags();
    f.stream = true;
    let mut d = to_approval(f, r#"{"a": 1, "b": 2}"#);
    d.step(DispatchEvent::ApprovalAnswered(Ok(())));
    let o = finish(d.step(DispatchEvent::Executed(Ok(j(r#"[{"x": 1}, 2]"#)), 1)));
    assert_eq!(o.stdout, vec![r#"{"x":1}"#, "2"]);
    assert_eq!(stream_output(&j(r#"{"y": "z"}"#)), vec![r#"{"y":"z"}"#]);
}

#[test]
fn streamed_script_failure_exits_1() {
    let mut f = flags();
    f.stream = true;
    let mut d = Dispatcher::new("math.add".to_string(), f, true);
    d.step(DispatchEvent::Started);
    d.step(DispatchEvent::ModuleFound(descriptor()));
    d.step(DispatchEvent::InputCollected(Ok(input(r#"{"a": 1, "b": 2}"#))));
    d.step(DispatchEvent::ApprovalAnswered(Ok(())));
    let o = finish(d.step(DispatchEvent::Executed(
        Err(ExecFailure { exit_code: 9, message: "exit 3".to_string(), error_data: None }),
        1,
    )));
    assert_eq!(o.exit_code, 1);
    assert_eq!(o.stderr, vec!["Error: exit 3"]);
}

#[test]
fn traced_json_run_attaches_the_trace() {
    let mut f = flags();
    f.trace = true;
    f.format = Some("json".to_string());
    let mut d = to_approval(f, r#"{"a": 1, "b": 2}"#);
    d.step(DispatchEvent::ApprovalAnswered(Ok(())));
    let o = finish(d.step(DispatchEvent::Executed(Ok(j(r#"{"sum": 3}"#)), 7)));
    let v: serde_json::Value = serde_json::from_str(&o.stdout[0]).unwrap();
    assert_eq!(v["sum"], 3);
    assert_eq!(v["_trace"]["strategy"], "standard");
    assert_eq!(v["_trace"]["total_duration_ms"], 7);
    assert_eq!(v["_trace"]["success"], true);
}

#[test]
fn traced_table_run_notes_the_trace_on_stderr() {
    let mut f = flags();
    f.trace = true;
    f.format = Some("table".to_string());
    f.strategy = Some("fast".to_string());
    let mut d = to_approval(f, r#"{"a": 1, "b": 2}"#);
    d.step(DispatchEvent::ApprovalAnswered(Ok(())));
    let o = finish(d.step(DispatchEvent::Executed(Ok(j("5")), 7)));
    assert_eq!(o.stderr, vec!["\nPipeline Trace (strategy: fast, 7ms)"]);
    assert_eq!(o.render.unwrap().format, "table");
}

#[test]
fn trace_helpers_wrap_non_objects() {
    let t = trace_record("standard", 4);
    let v = from_json(&traced(j("[1]"), t));
    assert_eq!(v["result"][0], 1);
    assert_eq!(v["_trace"]["total_duration_ms"], 4);
}

#[test]
fn dry_run_reports_the_preflight_answer() {
    let mut f = flags();
    f.dry_run = true;
    f.trace = true;
    let mut d = Dispatcher::new("math.add".to_string(), f, false);
    d.step(DispatchEvent::Started);
    d.step(DispatchEvent::ModuleFound(descriptor()));
    match d.step(DispatchEvent::InputCollected(Ok(input(r#"{"a": 1}"#)))) {
        DispatchAction::Preflight(req) => {
            let v = from_json(&req);
            assert_eq!(v["module_id"], "math.add");
            assert_eq!(v["input"]["a"], 1);
        }
        other => panic!("unexpected {other:?}"),
    }
    let o = finish(d.step(DispatchEvent::PreflightAnswered(Some(j(r#"{"valid": false}"#)))));
    assert_eq!(o.exit_code, 1);
    assert_eq!(o.stderr.len(), 12);
    assert_eq!(o.stderr[0], "\nPipeline preview (dry-run):");
}

#[test]
fn dry_run_falls_back_to_the_schema_check() {
    let mut f = flags();
    f.dry_run = true;
    let mut d = Dispatcher::new("math.add".to_string(), f, false);
    d.step(DispatchEvent::Started);
    d.step(DispatchEvent::ModuleFound(descriptor()));
    d.step(DispatchEvent::InputCollected(Ok(input(r#"{"a": 1}"#))));
    let o = finish(d.step(DispatchEvent::PreflightAnswered(None)));
    assert_eq!(o.exit_code, 45);
    let report = from_json(&o.preflight.unwrap());
    assert_eq!(report["valid"], false);
    assert_eq!(report["checks"][2]["check"], "schema");
    assert_eq!(report["checks"][2]["passed"], false);
    assert!(o.stderr.is_empty());
    assert_eq!(from_json(&fallback_report(true))["valid"], true);
}

#[test]
fn pipeline_preview_marks_pure_steps() {
    let lines = pipeline_preview();
    assert_eq!(lines.len(), 12);
    assert_eq!(lines[1], "  v context_creation         (pure -- would execute)");
    assert_eq!(lines[5], "  o approval_gate            (impure -- skipped in dry-run)");
}

#[test]
fn finished_machine_accepts_nothing() {
    let mut d = Dispatcher::new("math.add".to_string(), flags(), false);
    d.step(DispatchEvent::Started);
    d.step(DispatchEvent::ModuleMissing);
    assert!(!d.accepts(&DispatchEvent::Started));
    assert!(!d.accepts(&DispatchEvent::Interrupted));
}
