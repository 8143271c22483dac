//! Running a module command, as a state machine.
//!
//! The caller performs each action the machine asks for (look the module up,
//! collect its input, ask the executor for a preflight check, ask for
//! approval, run the module) and reports what came back as the next event.
//! The machine decides every step in between and, at the end, what is
//! printed, what is audited and which exit code the process returns.
use vstd::prelude::*;
use crate::json::{
    Json, JsonV, JsonNumber, NumV, entries_view, entries_insert, entries_set, json_text,
    pretty_text, to_json_text, to_pretty_text, lemma_object_view, lemma_array_view, json_seq_view,
};
use crate::text::{owned, concat2, concat3, push_str, str_eq, decimal, pad_right, pad_right_seq};
use crate::cli::{
    CliError, cli_error_text, ModuleIdCheck, module_id_check, required_check, error_payload_spec,
    error_tty_spec, validate_module_id, validate_against_schema, schema_check_applies,
    approval_timeout_secs, error_payload, error_tty_lines,
};
use crate::output::{resolved_format, resolve_format_inner};
use crate::text::parse_u64_spec;

use crate::text::{strings_view, opt_view};

verus! {

// ---------------------------------------------------------------------------
// Values exchanged with the caller
// ---------------------------------------------------------------------------

/// The execution flags of a module command, and whether standard output and
/// standard error are terminals.
#[derive(Debug)]
pub struct DispatchFlags {
    pub yes: bool,
    pub dry_run: bool,
    pub trace: bool,
    pub stream: bool,
    pub sandbox: bool,
    pub format: Option<String>,
    pub fields: Option<String>,
    pub strategy: Option<String>,
    pub approval_timeout: Option<String>,
    pub approval_token: Option<String>,
    pub stdout_is_tty: bool,
    pub stderr_is_tty: bool,
}

/// Where the machine stands.
#[derive(Debug, Clone, Copy, PartialEq, Eq, Structural)]
pub enum Stage {
    Start,
    Lookup,
    Input,
    Preflight,
    Approval,
    Execution,
    Finished,
}

/// How the module is run: its executable script, the sandbox, or the
/// in-process executor.
#[derive(Debug, Clone, Copy, PartialEq, Eq, Structural)]
pub enum ExecMode {
    Script,
    Sandbox,
    InProcess,
}

/// A failed run: its exit code, message and structured error, if any.
#[derive(Debug)]
pub struct ExecFailure {
    pub exit_code: i32,
    pub message: String,
    pub error_data: Option<Json>,
}

/// What the caller reports back.
#[derive(Debug)]
pub enum DispatchEvent {
    /// The command was invoked.
    Started,
    /// The registry knows the module; its descriptor as JSON.
    ModuleFound(Json),
    ModuleMissing,
    /// The merged input, or why it could not be collected.
    InputCollected(Result<Vec<(String, Json)>, CliError>),
    /// The executor's preflight answer, or `None` when the preflight call
    /// itself failed.
    PreflightAnswered(Option<Json>),
    /// The approval decision; a refusal carries its message.
    ApprovalAnswered(Result<(), String>),
    /// The run's result and how long it took, in milliseconds.
    Executed(Result<Json, ExecFailure>, u64),
    /// The user interrupted the run.
    Interrupted,
}

/// A result the caller renders with [`crate::output::format_exec_result`].
#[derive(Debug)]
pub struct ResultRender {
    pub output: Json,
    pub format: String,
    pub fields: Option<String>,
}

/// An audit-log entry: success or error, with the exit code.
#[derive(Debug)]
pub struct AuditNote {
    pub success: bool,
    pub exit_code: i32,
}

/// How the command ends. The caller shows the preflight report, then the
/// rendered result, then the `stdout` lines, then the `stderr` lines,
/// writes the audit entry and exits with `exit_code`.
#[derive(Debug)]
pub struct Outcome {
    pub exit_code: i32,
    pub preflight: Option<Json>,
    pub render: Option<ResultRender>,
    pub stdout: Vec<String>,
    pub stderr: Vec<String>,
    pub audit: Option<AuditNote>,
}

/// What the machine asks the caller to do next.
#[derive(Debug)]
pub enum DispatchAction {
    LookUpModule,
    CollectInput,
    /// Ask the executor's `system.validate` module about this request.
    Preflight(Json),
    RequestApproval { module: Json, auto_approve: bool, timeout_secs: u64 },
    /// Run the module on `input`, after printing `warning` if there is one.
    Execute { mode: ExecMode, input: Json, warning: Option<String> },
    Finish(Outcome),
}

// ---------------------------------------------------------------------------
// Views
// ---------------------------------------------------------------------------

pub open spec fn opt_json(o: Option<Json>) -> Option<JsonV> {
    match o {
        Some(j) => Some(j@),
        None => None,
    }
}

pub struct FlagsV {
    pub yes: bool,
    pub dry_run: bool,
    pub trace: bool,
    pub stream: bool,
    pub sandbox: bool,
    pub format: Option<Seq<char>>,
    pub fields: Option<Seq<char>>,
    pub strategy: Option<Seq<char>>,
    pub approval_timeout: Option<Seq<char>>,
    pub approval_token: Option<Seq<char>>,
    pub stdout_is_tty: bool,
    pub stderr_is_tty: bool,
}

impl View for DispatchFlags {
    type V = FlagsV;

    open spec fn view(&self) -> FlagsV {
        FlagsV {
            yes: self.yes,
            dry_run: self.dry_run,
            trace: self.trace,
            stream: self.stream,
            sandbox: self.sandbox,
            format: opt_view(self.format),
            fields: opt_view(self.fields),
            strategy: opt_view(self.strategy),
            approval_timeout: opt_view(self.approval_timeout),
            approval_token: opt_view(self.approval_token),
            stdout_is_tty: self.stdout_is_tty,
            stderr_is_tty: self.stderr_is_tty,
        }
    }
}

pub struct OutcomeV {
    pub exit_code: i32,
    pub preflight: Option<JsonV>,
    pub render: Option<(JsonV, Seq<char>, Option<Seq<char>>)>,
    pub stdout: Seq<Seq<char>>,
    pub stderr: Seq<Seq<char>>,
    pub audit: Option<(bool, i32)>,
}

impl View for Outcome {
    type V = OutcomeV;

    open spec fn view(&self) -> OutcomeV {
        OutcomeV {
            exit_code: self.exit_code,
            preflight: opt_json(self.preflight),
            render: match self.render {
                Some(r) => Some((r.output@, r.format@, opt_view(r.fields))),
                None => None,
            },
            stdout: strings_view(self.stdout@),
            stderr: strings_view(self.stderr@),
            audit: match self.audit {
                Some(a) => Some((a.success, a.exit_code)),
                None => None,
            },
        }
    }
}

pub enum ActionV {
    LookUpModule,
    CollectInput,
    Preflight(JsonV),
    RequestApproval(JsonV, bool, u64),
    Execute(ExecMode, JsonV, Option<Seq<char>>),
    Finish(OutcomeV),
}

impl View for DispatchAction {
    type V = ActionV;

    open spec fn view(&self) -> ActionV {
        match self {
            DispatchAction::LookUpModule => ActionV::LookUpModule,
            DispatchAction::CollectInput => ActionV::CollectInput,
            DispatchAction::Preflight(j) => ActionV::Preflight(j@),
            DispatchAction::RequestApproval { module, auto_approve, timeout_secs } =>
                ActionV::RequestApproval(module@, *auto_approve, *timeout_secs),
            DispatchAction::Execute { mode, input, warning } => ActionV::Execute(
                *mode,
                input@,
                opt_view(*warning),
            ),
            DispatchAction::Finish(o) => ActionV::Finish(o@),
        }
    }
}

pub enum EventV {
    Started,
    ModuleFound(JsonV),
    ModuleMissing,
    InputCollected(Result<Seq<(Seq<char>, JsonV)>, CliError>),
    PreflightAnswered(Option<JsonV>),
    ApprovalAnswered(Result<(), Seq<char>>),
    Executed(Result<JsonV, (i32, Seq<char>, Option<JsonV>)>, u64),
    Interrupted,
}

impl View for DispatchEvent {
    type V = EventV;

    open spec fn view(&self) -> EventV {
        match self {
            DispatchEvent::Started => EventV::Started,
            DispatchEvent::ModuleFound(d) => EventV::ModuleFound(d@),
            DispatchEvent::ModuleMissing => EventV::ModuleMissing,
            DispatchEvent::InputCollected(r) => EventV::InputCollected(
                match r {
                    Ok(m) => Ok(entries_view(m@)),
                    Err(e) => Err(*e),
                },
            ),
            DispatchEvent::PreflightAnswered(p) => EventV::PreflightAnswered(opt_json(*p)),
            DispatchEvent::ApprovalAnswered(r) => EventV::ApprovalAnswered(
                match r {
                    Ok(()) => Ok(()),
                    Err(m) => Err(m@),
                },
            ),
            DispatchEvent::Executed(r, ms) => EventV::Executed(
                match r {
                    Ok(v) => Ok(v@),
                    Err(f) => Err((f.exit_code, f.message@, opt_json(f.error_data))),
                },
                *ms,
            ),
            DispatchEvent::Interrupted => EventV::Interrupted,
        }
    }
}

pub struct DispatcherV {
    pub module_id: Seq<char>,
    pub flags: FlagsV,
    pub has_script: bool,
    pub stage: Stage,
    pub descriptor: JsonV,
    pub merged: Seq<(Seq<char>, JsonV)>,
    pub mode: ExecMode,
}

// ---------------------------------------------------------------------------
// The decisions
// ---------------------------------------------------------------------------

/// Which events each stage waits for.
pub open spec fn accepts(stage: Stage, e: EventV) -> bool {
    match stage {
        Stage::Start => e is Started,
        Stage::Lookup => e is ModuleFound || e is ModuleMissing,
        Stage::Input => e is InputCollected,
        Stage::Preflight => e is PreflightAnswered,
        Stage::Approval => e is ApprovalAnswered,
        Stage::Execution => e is Executed || e is Interrupted,
        Stage::Finished => false,
    }
}

pub open spec fn finish_with(exit_code: i32, stderr: Seq<Seq<char>>) -> ActionV {
    ActionV::Finish(
        OutcomeV {
            exit_code,
            preflight: None,
            render: None,
            stdout: Seq::empty(),
            stderr,
            audit: None,
        },
    )
}

pub open spec fn invalid_id_line(id: Seq<char>) -> Seq<char> {
    "Error: Invalid module ID format: '"@ + id + "'."@
}

pub open spec fn missing_module_line(id: Seq<char>) -> Seq<char> {
    "Error: Module '"@ + id + "' not found in registry."@
}

/// The report for input that could not be collected.
pub open spec fn input_error_line(e: CliError) -> Seq<char> {
    match e {
        CliError::InputTooLarge { .. } =>
            "Error: STDIN input exceeds 10MB limit. Use --large-input to override."@,
        CliError::JsonParse(d) => "Error: STDIN does not contain valid JSON: "@ + d@ + "."@,
        CliError::NotAnObject => "Error: STDIN JSON must be an object, got array or scalar."@,
        _ => "Error: "@ + cli_error_text(e),
    }
}

pub open spec fn or_null(v: Option<JsonV>) -> JsonV {
    match v {
        Some(x) => x,
        None => JsonV::Null,
    }
}

/// The module's input schema, as its descriptor states it.
pub open spec fn input_schema_of(descriptor: JsonV) -> JsonV {
    or_null(descriptor.get("input_schema"@))
}

/// Whether the schema's `required` check applies to the input at all.
pub open spec fn check_applies(schema: JsonV) -> bool {
    schema is Object && schema.get("properties"@) is Some
}

/// The first required field missing from the input, when the check applies.
pub open spec fn missing_field(merged: Seq<(Seq<char>, JsonV)>, schema: JsonV) -> Option<Seq<char>> {
    if check_applies(schema) {
        required_check(merged, schema)
    } else {
        None
    }
}

/// The request sent for a preflight check.
pub open spec fn preflight_request(id: Seq<char>, merged: Seq<(Seq<char>, JsonV)>) -> JsonV {
    JsonV::Object(seq![("module_id"@, JsonV::Str(id)), ("input"@, JsonV::Object(merged))])
}

pub open spec fn check_json(name: Seq<char>, passed: bool) -> JsonV {
    JsonV::Object(seq![("check"@, JsonV::Str(name)), ("passed"@, JsonV::Bool(passed))])
}

/// The report of a dry run whose preflight call failed: only the schema was
/// checked.
pub open spec fn fallback_preflight(ok: bool) -> JsonV {
    JsonV::Object(
        seq![
            ("valid"@, JsonV::Bool(ok)),
            ("requires_approval"@, JsonV::Bool(false)),
            (
                "checks"@,
                JsonV::Array(
                    seq![
                        check_json("module_id"@, true),
                        check_json("module_lookup"@, true),
                        check_json("schema"@, ok),
                    ],
                ),
            ),
        ],
    )
}

/// One line of the dry-run pipeline preview.
pub open spec fn preview_line(step: Seq<char>, pure: bool) -> Seq<char> {
    if pure {
        "  v "@ + pad_right_seq(step, 24) + " (pure -- would execute)"@
    } else {
        "  o "@ + pad_right_seq(step, 24) + " (impure -- skipped in dry-run)"@
    }
}

/// The pipeline preview of `--trace --dry-run`: which steps a dry run
/// performs and which it skips.
pub open spec fn preview_lines() -> Seq<Seq<char>> {
    seq![
        "\nPipeline preview (dry-run):"@,
        preview_line("context_creation"@, true),
        preview_line("call_chain_guard"@, true),
        preview_line("module_lookup"@, true),
        preview_line("acl_check"@, true),
        preview_line("approval_gate"@, false),
        preview_line("middleware_before"@, false),
        preview_line("input_validation"@, true),
        preview_line("execute"@, false),
        preview_line("output_validation"@, false),
        preview_line("middleware_after"@, false),
        preview_line("return_result"@, false),
    ]
}

pub open spec fn dry_run_finish(f: FlagsV, report: JsonV, exit_code: i32) -> ActionV {
    ActionV::Finish(
        OutcomeV {
            exit_code,
            preflight: Some(report),
            render: None,
            stdout: Seq::empty(),
            stderr: if f.trace {
                preview_lines()
            } else {
                Seq::empty()
            },
            audit: None,
        },
    )
}

pub open spec fn approval_timeout_of(arg: Option<Seq<char>>) -> u64 {
    match arg {
        Some(s) => match parse_u64_spec(s) {
            Some(n) => n,
            None => crate::approval::DEFAULT_APPROVAL_TIMEOUT_SECS,
        },
        None => crate::approval::DEFAULT_APPROVAL_TIMEOUT_SECS,
    }
}

/// The input with the approval token added, when one was given.
pub open spec fn with_token(merged: Seq<(Seq<char>, JsonV)>, token: Option<Seq<char>>) -> Seq<
    (Seq<char>, JsonV),
> {
    match token {
        Some(t) => entries_insert(merged, "_approval_token"@, JsonV::Str(t)),
        None => merged,
    }
}

/// Streaming runs the script when there is one and the executor otherwise;
/// tracing always uses the executor; otherwise a script comes first, then
/// the sandbox when asked for, then the executor.
pub open spec fn exec_mode_of(f: FlagsV, has_script: bool) -> ExecMode {
    if f.stream {
        if has_script {
            ExecMode::Script
        } else {
            ExecMode::InProcess
        }
    } else if f.trace {
        ExecMode::InProcess
    } else if has_script {
        ExecMode::Script
    } else if f.sandbox {
        ExecMode::Sandbox
    } else {
        ExecMode::InProcess
    }
}

pub open spec fn stream_warning(f: FlagsV) -> Option<Seq<char>> {
    if f.stream && f.format == Some("table"@) {
        Some("Warning: Streaming mode always outputs JSONL; --format table is ignored."@)
    } else {
        None
    }
}

pub open spec fn exec_failed_line(id: Seq<char>, msg: Seq<char>) -> Seq<char> {
    "Error: Module '"@ + id + "' execution failed: "@ + msg + "."@
}

/// A streamed result: one JSON line per element of an array, else one line.
pub open spec fn stream_lines(v: JsonV) -> Seq<Seq<char>> {
    match v {
        JsonV::Array(a) => a.map_values(|x: JsonV| json_text(x)),
        _ => seq![json_text(v)],
    }
}

pub open spec fn strategy_of(f: FlagsV) -> Seq<char> {
    match f.strategy {
        Some(s) => s,
        None => "standard"@,
    }
}

/// The `_trace` record of a traced run.
pub open spec fn trace_data(strategy: Seq<char>, ms: u64) -> JsonV {
    JsonV::Object(
        seq![
            ("strategy"@, JsonV::Str(strategy)),
            ("total_duration_ms"@, JsonV::Number(NumV::PosInt(ms))),
            ("success"@, JsonV::Bool(true)),
        ],
    )
}

/// A traced JSON result: an object gains a `_trace` member; anything else
/// is wrapped as `{"result": .., "_trace": ..}`.
pub open spec fn traced_output(output: JsonV, td: JsonV) -> JsonV {
    match output {
        JsonV::Object(o) => JsonV::Object(entries_insert(o, "_trace"@, td)),
        _ => JsonV::Object(seq![("result"@, output), ("_trace"@, td)]),
    }
}

pub open spec fn trace_line(strategy: Seq<char>, ms: u64) -> Seq<char> {
    "\nPipeline Trace (strategy: "@ + strategy + ", "@ + decimal(ms as nat) + "ms)"@
}

pub open spec fn out_format(f: FlagsV) -> Seq<char> {
    resolved_format(f.format, f.stdout_is_tty)
}

pub open spec fn plain_outcome(
    exit_code: i32,
    stdout: Seq<Seq<char>>,
    stderr: Seq<Seq<char>>,
    audit: Option<(bool, i32)>,
) -> OutcomeV {
    OutcomeV { exit_code, preflight: None, render: None, stdout, stderr, audit }
}

/// How a run ends, by its result.
pub open spec fn executed_outcome(
    s: DispatcherV,
    res: Result<JsonV, (i32, Seq<char>, Option<JsonV>)>,
    ms: u64,
) -> OutcomeV {
    let f = s.flags;
    let id = s.module_id;
    if f.stream && s.mode == ExecMode::Script {
        match res {
            Ok(v) => plain_outcome(0, seq![json_text(v)], Seq::empty(), Some((true, 0))),
            Err(e) => plain_outcome(1, Seq::empty(), seq!["Error: "@ + e.1], Some((false, 1))),
        }
    } else if f.stream {
        match res {
            Ok(v) => plain_outcome(0, stream_lines(v), Seq::empty(), Some((true, 0))),
            Err(e) => plain_outcome(
                e.0,
                Seq::empty(),
                seq![exec_failed_line(id, e.1)],
                Some((false, e.0)),
            ),
        }
    } else if f.trace {
        match res {
            Ok(v) => if out_format(f) == "json"@ {
                plain_outcome(
                    0,
                    seq![pretty_text(traced_output(v, trace_data(strategy_of(f), ms)))],
                    Seq::empty(),
                    Some((true, 0)),
                )
            } else {
                OutcomeV {
                    exit_code: 0,
                    preflight: None,
                    render: Some((v, out_format(f), f.fields)),
                    stdout: Seq::empty(),
                    stderr: seq![trace_line(strategy_of(f), ms)],
                    audit: Some((true, 0)),
                }
            },
            Err(e) => plain_outcome(
                e.0,
                Seq::empty(),
                seq![exec_failed_line(id, e.1)],
                Some((false, e.0)),
            ),
        }
    } else {
        match res {
            Ok(v) => OutcomeV {
                exit_code: 0,
                preflight: None,
                render: Some((v, out_format(f), f.fields)),
                stdout: Seq::empty(),
                stderr: Seq::empty(),
                audit: Some((true, 0)),
            },
            Err(e) => plain_outcome(
                e.0,
                Seq::empty(),
                if f.format == Some("json"@) || !f.stderr_is_tty {
                    seq![json_text(JsonV::Object(error_payload_spec(e.1, e.0, e.2)))]
                } else {
                    error_tty_spec(e.1, e.0, e.2)
                },
                Some((false, e.0)),
            ),
        }
    }
}

pub open spec fn finished(s: DispatcherV) -> DispatcherV {
    DispatcherV { stage: Stage::Finished, ..s }
}

/// The next state and action, for a state and an event it accepts.
pub open spec fn transition(s: DispatcherV, e: EventV) -> (DispatcherV, ActionV) {
    let f = s.flags;
    match e {
        EventV::Started => if module_id_check(s.module_id) is Valid {
            (DispatcherV { stage: Stage::Lookup, ..s }, ActionV::LookUpModule)
        } else {
            (finished(s), finish_with(2, seq![invalid_id_line(s.module_id)]))
        },
        EventV::ModuleMissing => (finished(s), finish_with(44, seq![missing_module_line(s.module_id)])),
        EventV::ModuleFound(d) => (
            DispatcherV { stage: Stage::Input, descriptor: d, ..s },
            ActionV::CollectInput,
        ),
        EventV::InputCollected(Err(err)) => (finished(s), finish_with(2, seq![input_error_line(err)])),
        EventV::InputCollected(Ok(m)) => if f.dry_run {
            (
                DispatcherV { stage: Stage::Preflight, merged: m, ..s },
                ActionV::Preflight(preflight_request(s.module_id, m)),
            )
        } else {
            match missing_field(m, input_schema_of(s.descriptor)) {
                Some(field) => (
                    finished(s),
                    finish_with(
                        45,
                        seq![
                            "Error: Validation failed: "@ + ("required field '"@ + field
                                + "' is missing"@) + "."@,
                        ],
                    ),
                ),
                None => (
                    DispatcherV {
                        stage: Stage::Approval,
                        merged: with_token(m, f.approval_token),
                        ..s
                    },
                    ActionV::RequestApproval(
                        s.descriptor,
                        f.yes,
                        approval_timeout_of(f.approval_timeout),
                    ),
                ),
            }
        },
        EventV::PreflightAnswered(Some(report)) => (
            finished(s),
            dry_run_finish(
                f,
                report,
                if crate::json::get_bool(report, "valid"@) == Some(true) {
                    0
                } else {
                    1
                },
            ),
        ),
        EventV::PreflightAnswered(None) => {
            let ok = missing_field(s.merged, input_schema_of(s.descriptor)) is None;
            (
                finished(s),
                dry_run_finish(
                    f,
                    fallback_preflight(ok),
                    if ok {
                        0
                    } else {
                        45
                    },
                ),
            )
        },
        EventV::ApprovalAnswered(Err(m)) => (finished(s), finish_with(46, seq!["Error: "@ + m])),
        EventV::ApprovalAnswered(Ok(())) => (
            DispatcherV { stage: Stage::Execution, mode: exec_mode_of(f, s.has_script), ..s },
            ActionV::Execute(
                exec_mode_of(f, s.has_script),
                JsonV::Object(s.merged),
                stream_warning(f),
            ),
        ),
        EventV::Executed(res, ms) => (finished(s), ActionV::Finish(executed_outcome(s, res, ms))),
        EventV::Interrupted => (finished(s), finish_with(130, seq!["Execution cancelled."@])),
    }
}

// ---------------------------------------------------------------------------
// The machine
// ---------------------------------------------------------------------------

/// One module command's run.
pub struct Dispatcher {
    module_id: String,
    flags: DispatchFlags,
    has_script: bool,
    stage: Stage,
    descriptor: Json,
    merged: Vec<(String, Json)>,
    mode: ExecMode,
}

impl View for Dispatcher {
    type V = DispatcherV;

    closed spec fn view(&self) -> DispatcherV {
        DispatcherV {
            module_id: self.module_id@,
            flags: self.flags@,
            has_script: self.has_script,
            stage: self.stage,
            descriptor: self.descriptor@,
            merged: entries_view(self.merged@),
            mode: self.mode,
        }
    }
}

fn line(s: String) -> (r: Vec<String>)
    ensures
        strings_view(r@) == seq![s@],
{
    let mut v: Vec<String> = Vec::new();
    v.push(s);
    assert(strings_view(v@) =~= seq![s@]);
    v
}

fn no_lines() -> (r: Vec<String>)
    ensures
        strings_view(r@) == Seq::<Seq<char>>::empty(),
{
    let v: Vec<String> = Vec::new();
    assert(strings_view(v@) =~= Seq::<Seq<char>>::empty());
    v
}

fn clone_opt(o: &Option<String>) -> (r: Option<String>)
    ensures
        opt_view(r) == opt_view(*o),
{
    match o {
        Some(s) => Some(s.clone()),
        None => None,
    }
}

fn finish_lines(exit_code: i32, stderr: Vec<String>) -> (r: DispatchAction)
    ensures
        r@ == finish_with(exit_code, strings_view(stderr@)),
{
    let r = DispatchAction::Finish(
        Outcome {
            exit_code,
            preflight: None,
            render: None,
            stdout: no_lines(),
            stderr,
            audit: None,
        },
    );
    r
}

fn preview_text(step: &str, pure: bool) -> (r: String)
    ensures
        r@ == preview_line(step@, pure),
{
    let padded = pad_right(step, 24);
    if pure {
        concat3("  v ", padded.as_str(), " (pure -- would execute)")
    } else {
        concat3("  o ", padded.as_str(), " (impure -- skipped in dry-run)")
    }
}

/// The pipeline preview printed by `--trace --dry-run`.
pub fn pipeline_preview() -> (r: Vec<String>)
    ensures
        strings_view(r@) == preview_lines(),
{
    let mut v: Vec<String> = Vec::new();
    v.push(owned("\nPipeline preview (dry-run):"));
    v.push(preview_text("context_creation", true));
    v.push(preview_text("call_chain_guard", true));
    v.push(preview_text("module_lookup", true));
    v.push(preview_text("acl_check", true));
    v.push(preview_text("approval_gate", false));
    v.push(preview_text("middleware_before", false));
    v.push(preview_text("input_validation", true));
    v.push(preview_text("execute", false));
    v.push(preview_text("output_validation", false));
    v.push(preview_text("middleware_after", false));
    v.push(preview_text("return_result", false));
    assert(strings_view(v@) =~= preview_lines());
    v
}

fn check_entry(name: &str, passed: bool) -> (r: Json)
    ensures
        r@ == check_json(name@, passed),
{
    let mut e: Vec<(String, Json)> = Vec::new();
    e.push((owned("check"), Json::Str(owned(name))));
    e.push((owned("passed"), Json::Bool(passed)));
    proof {
        lemma_object_view(&e);
    }
    let r = Json::Object(e);
    assert(entries_view(e@) =~= check_json(name@, passed)->Object_0);
    r
}

/// The dry-run report when the preflight call failed.
pub fn fallback_report(ok: bool) -> (r: Json)
    ensures
        r@ == fallback_preflight(ok),
{
    let mut checks: Vec<Json> = Vec::new();
    checks.push(check_entry("module_id", true));
    checks.push(check_entry("module_lookup", true));
    checks.push(check_entry("schema", ok));
    proof {
        lemma_array_view(&checks);
    }
    let ghost cv = json_seq_view(checks@);
    let arr = Json::Array(checks);
    let mut e: Vec<(String, Json)> = Vec::new();
    e.push((owned("valid"), Json::Bool(ok)));
    e.push((owned("requires_approval"), Json::Bool(false)));
    e.push((owned("checks"), arr));
    proof {
        lemma_object_view(&e);
    }
    let r = Json::Object(e);
    assert(cv =~= seq![
        check_json("module_id"@, true),
        check_json("module_lookup"@, true),
        check_json("schema"@, ok),
    ]);
    assert(entries_view(e@) =~= fallback_preflight(ok)->Object_0);
    r
}

/// The `_trace` record of a traced run.
pub fn trace_record(strategy: &str, ms: u64) -> (r: Json)
    ensures
        r@ == trace_data(strategy@, ms),
{
    let mut e: Vec<(String, Json)> = Vec::new();
    e.push((owned("strategy"), Json::Str(owned(strategy))));
    e.push((owned("total_duration_ms"), Json::Number(JsonNumber::PosInt(ms))));
    e.push((owned("success"), Json::Bool(true)));
    proof {
        lemma_object_view(&e);
    }
    let r = Json::Object(e);
    assert(entries_view(e@) =~= trace_data(strategy@, ms)->Object_0);
    r
}

/// A traced JSON result: the result with its `_trace` record attached.
pub fn traced(output: Json, td: Json) -> (r: Json)
    ensures
        r@ == traced_output(output@, td@),
{
    match output {
        Json::Object(o) => {
            proof {
                lemma_object_view(&o);
            }
            let mut o2 = o;
            entries_set(&mut o2, owned("_trace"), td);
            proof {
                lemma_object_view(&o2);
            }
            Json::Object(o2)
        },
        other => {
            let ghost ov = other@;
            let ghost tv = td@;
            let mut e: Vec<(String, Json)> = Vec::new();
            e.push((owned("result"), other));
            e.push((owned("_trace"), td));
            proof {
                lemma_object_view(&e);
            }
            let r = Json::Object(e);
            assert(entries_view(e@) =~= seq![("result"@, ov), ("_trace"@, tv)]);
            r
        },
    }
}

/// The lines of a streamed result.
pub fn stream_output(v: &Json) -> (r: Vec<String>)
    ensures
        strings_view(r@) == stream_lines(v@),
{
    match v {
        Json::Array(a) => {
            proof {
                lemma_array_view(a);
            }
            let ghost av = json_seq_view(a@);
            let mut out: Vec<String> = Vec::new();
            let mut i: usize = 0;
            while i < a.len()
                invariant
                    0 <= i <= a.len(),
                    av == json_seq_view(a@),
                    strings_view(out@) == av.take(i as int).map_values(|x: JsonV| json_text(x)),
                decreases a.len() - i,
            {
                let ghost before = strings_view(out@);
                let t = to_json_text(&a[i]);
                let ghost tv = t@;
                out.push(t);
                assert(strings_view(out@) =~= before.push(tv));
                assert(av.take(i + 1) =~= av.take(i as int).push(av[i as int]));
                assert(strings_view(out@) =~= av.take(i + 1).map_values(|x: JsonV| json_text(x)));
                i = i + 1;
            }
            assert(av.take(i as int) == av);
            out
        },
        _ => line(to_json_text(v)),
    }
}

impl Dispatcher {
    /// A run of `module_id` with these flags; `has_script` tells whether the
    /// module has an executable script.
    pub fn new(module_id: String, flags: DispatchFlags, has_script: bool) -> (r: Self)
        ensures
            r@.module_id == module_id@,
            r@.flags == flags@,
            r@.has_script == has_script,
            r@.stage == Stage::Start,
    {
        Dispatcher {
            module_id,
            flags,
            has_script,
            stage: Stage::Start,
            descriptor: Json::Null,
            merged: Vec::new(),
            mode: ExecMode::InProcess,
        }
    }

    pub fn stage(&self) -> (r: Stage)
        ensures
            r == self@.stage,
    {
        self.stage
    }

    /// Whether the machine waits for this event now.
    pub fn accepts(&self, event: &DispatchEvent) -> (r: bool)
        ensures
            r == accepts(self@.stage, event@),
    {
        match self.stage {
            Stage::Start => matches!(event, DispatchEvent::Started),
            Stage::Lookup => matches!(event, DispatchEvent::ModuleFound(_))
                || matches!(event, DispatchEvent::ModuleMissing),
            Stage::Input => matches!(event, DispatchEvent::InputCollected(_)),
            Stage::Preflight => matches!(event, DispatchEvent::PreflightAnswered(_)),
            Stage::Approval => matches!(event, DispatchEvent::ApprovalAnswered(_)),
            Stage::Execution => matches!(event, DispatchEvent::Executed(_, _))
                || matches!(event, DispatchEvent::Interrupted),
            Stage::Finished => false,
        }
    }

    fn finish(&mut self)
        ensures
            final(self)@ == finished(old(self)@),
    {
        self.stage = Stage::Finished;
    }

    fn preflight_json(&self, m: &Vec<(String, Json)>) -> (r: Json)
        ensures
            r@ == preflight_request(self@.module_id, entries_view(m@)),
    {
        let dup = crate::json::dup_entries(m);
        proof {
            lemma_object_view(&dup);
        }
        let input = Json::Object(dup);
        let ghost iv = input@;
        let mut e: Vec<(String, Json)> = Vec::new();
        e.push((owned("module_id"), Json::Str(self.module_id.clone())));
        e.push((owned("input"), input));
        proof {
            lemma_object_view(&e);
        }
        let r = Json::Object(e);
        assert(entries_view(e@) =~= preflight_request(self@.module_id, entries_view(m@))->Object_0);
        r
    }

    /// Why the input fails the schema's `required` check, if it does.
    fn schema_failure(&self, m: &Vec<(String, Json)>) -> (r: Option<String>)
        ensures
            match missing_field(entries_view(m@), input_schema_of(self@.descriptor)) {
                Some(f) => r matches Some(d) && d@ == "required field '"@ + f + "' is missing"@,
                None => r is None,
            },
    {
        let null = Json::Null;
        let schema: &Json = match self.descriptor.get("input_schema") {
            Some(x) => x,
            None => &null,
        };
        if !schema_check_applies(schema) {
            return None;
        }
        match validate_against_schema(m, schema) {
            Ok(()) => None,
            Err(d) => Some(d),
        }
    }

    fn dry_run_outcome(&self, report: Json, code: i32) -> (r: DispatchAction)
        ensures
            r@ == dry_run_finish(self@.flags, report@, code),
    {
        let stderr = if self.flags.trace {
            pipeline_preview()
        } else {
            no_lines()
        };
        let r = DispatchAction::Finish(
            Outcome {
                exit_code: code,
                preflight: Some(report),
                render: None,
                stdout: no_lines(),
                stderr,
                audit: None,
            },
        );
        r
    }

    fn exec_mode(&self) -> (r: ExecMode)
        ensures
            r == exec_mode_of(self@.flags, self@.has_script),
    {
        if self.flags.stream {
            if self.has_script {
                ExecMode::Script
            } else {
                ExecMode::InProcess
            }
        } else if self.flags.trace {
            ExecMode::InProcess
        } else if self.has_script {
            ExecMode::Script
        } else if self.flags.sandbox {
            ExecMode::Sandbox
        } else {
            ExecMode::InProcess
        }
    }

    fn failed(&self, e: ExecFailure) -> (r: Outcome)
        ensures
            r@ == plain_outcome(
                e.exit_code,
                Seq::empty(),
                seq![exec_failed_line(self@.module_id, e.message@)],
                Some((false, e.exit_code)),
            ),
    {
        let mut msg = owned("Error: Module '");
        push_str(&mut msg, self.module_id.as_str());
        push_str(&mut msg, "' execution failed: ");
        push_str(&mut msg, e.message.as_str());
        push_str(&mut msg, ".");
        let r = Outcome {
            exit_code: e.exit_code,
            preflight: None,
            render: None,
            stdout: no_lines(),
            stderr: line(msg),
            audit: Some(AuditNote { success: false, exit_code: e.exit_code }),
        };
        r
    }

    fn format_text(&self) -> (r: &'static str)
        ensures
            r@ == out_format(self@.flags),
    {
        resolve_format_inner(
            match &self.flags.format {
                Some(f) => Some(f.as_str()),
                None => None,
            },
            self.flags.stdout_is_tty,
        )
    }

    fn executed(&self, res: Result<Json, ExecFailure>, ms: u64) -> (r: Outcome)
        ensures
            r@ == executed_outcome(
                self@,
                match res {
                    Ok(v) => Ok(v@),
                    Err(f) => Err((f.exit_code, f.message@, opt_json(f.error_data))),
                },
                ms,
            ),
    {
        let ok = Some(AuditNote { success: true, exit_code: 0 });
        if self.flags.stream && self.mode == ExecMode::Script {
            match res {
                Ok(v) => Outcome {
                    exit_code: 0,
                    preflight: None,
                    render: None,
                    stdout: line(to_json_text(&v)),
                    stderr: no_lines(),
                    audit: ok,
                },
                Err(e) => Outcome {
                    exit_code: 1,
                    preflight: None,
                    render: None,
                    stdout: no_lines(),
                    stderr: line(concat2("Error: ", e.message.as_str())),
                    audit: Some(AuditNote { success: false, exit_code: 1 }),
                },
            }
        } else if self.flags.stream {
            match res {
                Ok(v) => Outcome {
                    exit_code: 0,
                    preflight: None,
                    render: None,
                    stdout: stream_output(&v),
                    stderr: no_lines(),
                    audit: ok,
                },
                Err(e) => self.failed(e),
            }
        } else if self.flags.trace {
            match res {
                Ok(v) => {
                    let fmt = self.format_text();
                    let strategy: &str = match &self.flags.strategy {
                        Some(s) => s.as_str(),
                        None => "standard",
                    };
                    if str_eq(fmt, "json") {
                        let td = trace_record(strategy, ms);
                        let combined = traced(v, td);
                        Outcome {
                            exit_code: 0,
                            preflight: None,
                            render: None,
                            stdout: line(to_pretty_text(&combined)),
                            stderr: no_lines(),
                            audit: ok,
                        }
                    } else {
                        let mut t = owned("\nPipeline Trace (strategy: ");
                        push_str(&mut t, strategy);
                        push_str(&mut t, ", ");
                        push_str(&mut t, crate::text::u64_to_string(ms).as_str());
                        push_str(&mut t, "ms)");
                        Outcome {
                            exit_code: 0,
                            preflight: None,
                            render: Some(
                                ResultRender {
                                    output: v,
                                    format: owned(fmt),
                                    fields: clone_opt(&self.flags.fields),
                                },
                            ),
                            stdout: no_lines(),
                            stderr: line(t),
                            audit: ok,
                        }
                    }
                },
                Err(e) => self.failed(e),
            }
        } else {
            match res {
                Ok(v) => {
                    let fmt = self.format_text();
                    Outcome {
                        exit_code: 0,
                        preflight: None,
                        render: Some(
                            ResultRender {
                                output: v,
                                format: owned(fmt),
                                fields: clone_opt(&self.flags.fields),
                            },
                        ),
                        stdout: no_lines(),
                        stderr: no_lines(),
                        audit: ok,
                    }
                },
                Err(e) => {
                    let json_fmt = match &self.flags.format {
                        Some(x) => str_eq(x.as_str(), "json"),
                        None => false,
                    };
                    let data: Option<&Json> = match &e.error_data {
                        Some(d) => Some(d),
                        None => None,
                    };
                    let stderr = if json_fmt || !self.flags.stderr_is_tty {
                        let p = error_payload(e.message.as_str(), e.exit_code, data);
                        line(to_json_text(&p))
                    } else {
                        error_tty_lines(e.message.as_str(), e.exit_code, data)
                    };
                    Outcome {
                        exit_code: e.exit_code,
                        preflight: None,
                        render: None,
                        stdout: no_lines(),
                        stderr,
                        audit: Some(AuditNote { success: false, exit_code: e.exit_code }),
                    }
                },
            }
        }
    }

    /// Take the caller's report and decide what comes next.
    pub fn step(&mut self, event: DispatchEvent) -> (r: DispatchAction)
        requires
            accepts(old(self)@.stage, event@),
        ensures
            (final(self)@, r@) == transition(old(self)@, event@),
    {
        match event {
            DispatchEvent::Started => {
                match validate_module_id(self.module_id.as_str()) {
                    Ok(()) => {
                        self.stage = Stage::Lookup;
                        DispatchAction::LookUpModule
                    },
                    Err(_) => {
                        self.finish();
                        let msg = concat3(
                            "Error: Invalid module ID format: '",
                            self.module_id.as_str(),
                            "'.",
                        );
                        finish_lines(2, line(msg))
                    },
                }
            },
            DispatchEvent::ModuleMissing => {
                self.finish();
                let msg = concat3("Error: Module '", self.module_id.as_str(), "' not found in registry.");
                finish_lines(44, line(msg))
            },
            DispatchEvent::ModuleFound(d) => {
                self.stage = Stage::Input;
                self.descriptor = d;
                DispatchAction::CollectInput
            },
            DispatchEvent::InputCollected(Err(err)) => {
                self.finish();
                let msg = match &err {
                    CliError::InputTooLarge { .. } => owned(
                        "Error: STDIN input exceeds 10MB limit. Use --large-input to override.",
                    ),
                    CliError::JsonParse(d) => concat3(
                        "Error: STDIN does not contain valid JSON: ",
                        d.as_str(),
                        ".",
                    ),
                    CliError::NotAnObject => owned(
                        "Error: STDIN JSON must be an object, got array or scalar.",
                    ),
                    _ => {
                        let t = err.message();
                        concat2("Error: ", t.as_str())
                    },
                };
                finish_lines(2, line(msg))
            },
            DispatchEvent::InputCollected(Ok(m)) => {
                if self.flags.dry_run {
                    let req = self.preflight_json(&m);
                    self.stage = Stage::Preflight;
                    self.merged = m;
                    DispatchAction::Preflight(req)
                } else {
                    match self.schema_failure(&m) {
                        Some(detail) => {
                            self.finish();
                            finish_lines(45, line(concat3("Error: Validation failed: ", detail.as_str(), ".")))
                        },
                        None => {
                            let mut merged = m;
                            match &self.flags.approval_token {
                                Some(t) => {
                                    entries_set(&mut merged, owned("_approval_token"), Json::Str(t.clone()));
                                },
                                None => {},
                            }
                            let timeout = approval_timeout_secs(
                                match &self.flags.approval_timeout {
                                    Some(a) => Some(a.as_str()),
                                    None => None,
                                },
                            );
                            self.stage = Stage::Approval;
                            self.merged = merged;
                            DispatchAction::RequestApproval {
                                module: self.descriptor.dup(),
                                auto_approve: self.flags.yes,
                                timeout_secs: timeout,
                            }
                        },
                    }
                }
            },
            DispatchEvent::PreflightAnswered(Some(report)) => {
                self.finish();
                let valid = match report.get("valid") {
                    Some(v) => v.as_bool(),
                    None => None,
                };
                let code: i32 = match valid {
                    Some(true) => 0,
                    _ => 1,
                };
                self.dry_run_outcome(report, code)
            },
            DispatchEvent::PreflightAnswered(None) => {
                let ok = self.schema_failure(&self.merged).is_none();
                self.finish();
                let code: i32 = if ok {
                    0
                } else {
                    45
                };
                self.dry_run_outcome(fallback_report(ok), code)
            },
            DispatchEvent::ApprovalAnswered(Err(m)) => {
                self.finish();
                finish_lines(46, line(concat2("Error: ", m.as_str())))
            },
            DispatchEvent::ApprovalAnswered(Ok(())) => {
                let mode = self.exec_mode();
                self.stage = Stage::Execution;
                self.mode = mode;
                let dup = crate::json::dup_entries(&self.merged);
                proof {
                    lemma_object_view(&dup);
                }
                let input = Json::Object(dup);
                let table = match &self.flags.format {
                    Some(f) => str_eq(f.as_str(), "table"),
                    None => false,
                };
                let warning = if self.flags.stream && table {
                    Some(owned("Warning: Streaming mode always outputs JSONL; --format table is ignored."))
                } else {
                    None
                };
                DispatchAction::Execute { mode, input, warning }
            },
            DispatchEvent::Executed(res, ms) => {
                let o = self.executed(res, ms);
                self.finish();
                DispatchAction::Finish(o)
            },
            DispatchEvent::Interrupted => {
                self.finish();
                finish_lines(130, line(owned("Execution cancelled.")))
            },
        }
    }
}


// ---------------------------------------------------------------------------
// Laws
// ---------------------------------------------------------------------------

/// A step keeps the command's module ID, flags and script availability.
pub proof fn lemma_step_keeps_request(s: DispatcherV, e: EventV)
    requires
        accepts(s.stage, e),
    ensures
        transition(s, e).0.module_id == s.module_id,
        transition(s, e).0.flags == s.flags,
        transition(s, e).0.has_script == s.has_script,
{
}

/// A step ends the command exactly when it answers with `Finish`, and a
/// finished command accepts no further event.
pub proof fn lemma_finish_is_final(s: DispatcherV, e: EventV, next: EventV)
    requires
        accepts(s.stage, e),
    ensures
        (transition(s, e).1 is Finish) <==> (transition(s, e).0.stage == Stage::Finished),
        transition(s, e).0.stage == Stage::Finished ==> !accepts(transition(s, e).0.stage, next),
{
}

/// With `--dry-run` no step reaches the approval or the execution stage,
/// and none asks for the module to run: a dry run only reports.
pub proof fn lemma_dry_run_never_executes(s: DispatcherV, e: EventV)
    requires
        s.flags.dry_run,
        s.stage != Stage::Approval,
        s.stage != Stage::Execution,
        accepts(s.stage, e),
    ensures
        !(transition(s, e).1 is Execute),
        !(transition(s, e).1 is RequestApproval),
        transition(s, e).0.stage != Stage::Approval,
        transition(s, e).0.stage != Stage::Execution,
{
}

/// An interrupted run ends with exit code 130.
pub proof fn lemma_interrupt_exits_130(s: DispatcherV)
    requires
        s.stage == Stage::Execution,
    ensures
        transition(s, EventV::Interrupted).1 matches ActionV::Finish(o) && o.exit_code == 130,
{
}

/// A refused approval ends the command with exit code 46 and runs nothing.
pub proof fn lemma_refused_approval_exits_46(s: DispatcherV, m: Seq<char>)
    requires
        s.stage == Stage::Approval,
    ensures
        transition(s, EventV::ApprovalAnswered(Err(m))).1 matches ActionV::Finish(o) && o.exit_code == 46,
{
}

/// A module the registry does not know ends the command with exit code 44.
pub proof fn lemma_missing_module_exits_44(s: DispatcherV)
    requires
        s.stage == Stage::Lookup,
    ensures
        transition(s, EventV::ModuleMissing).1 matches ActionV::Finish(o) && o.exit_code == 44,
{
}

} // verus!
