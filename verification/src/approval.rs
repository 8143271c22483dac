//! The human-in-the-loop approval gate.
//!
//! A module whose `annotations.requires_approval` is exactly `true` runs only
//! when approved. The decision order: not required → run; `--yes` → run;
//! `APCORE_CLI_AUTO_APPROVE` exactly `1` → run; no terminal → refuse;
//! otherwise prompt, where only `y` / `yes` (any case, surrounding
//! whitespace ignored) approves. Reading the terminal, the environment and
//! the clock is the caller's part; it hands in what it read.
use vstd::prelude::*;
use crate::json::{Json, JsonV, get_str};
use crate::text::{owned, concat3, str_eq, trim, trim_seq, to_lowercase, unicode_lowercase, u64_to_string, decimal, push_str};

use crate::text::{opt_view, opt_str};

verus! {

/// Default approval prompt timeout in seconds.
pub const DEFAULT_APPROVAL_TIMEOUT_SECS: u64 = 60;

/// Errors returned by the approval gate (all exit with code 46).
#[derive(Debug)]
pub enum ApprovalError {
    /// The operator denied execution.
    Denied { module_id: String },
    /// No interactive terminal is available to prompt on.
    NonInteractive { module_id: String },
    /// The prompt timed out.
    Timeout { module_id: String, seconds: u64 },
}

impl ApprovalError {
    /// The error's message.
    pub fn message(&self) -> (r: String)
        ensures
            r@ == match self {
                ApprovalError::Denied { module_id } => "approval denied for module '"@
                    + module_id@ + "'"@,
                ApprovalError::NonInteractive { module_id } =>
                    "no interactive terminal available for module '"@ + module_id@ + "'"@,
                ApprovalError::Timeout { module_id, seconds } => "approval timed out after "@
                    + decimal(*seconds as nat) + "s for module '"@ + module_id@ + "'"@,
            },
    {
        match self {
            ApprovalError::Denied { module_id } => concat3(
                "approval denied for module '",
                module_id.as_str(),
                "'",
            ),
            ApprovalError::NonInteractive { module_id } => concat3(
                "no interactive terminal available for module '",
                module_id.as_str(),
                "'",
            ),
            ApprovalError::Timeout { module_id, seconds } => {
                let mut r = owned("approval timed out after ");
                push_str(&mut r, u64_to_string(*seconds).as_str());
                push_str(&mut r, "s for module '");
                push_str(&mut r, module_id.as_str());
                push_str(&mut r, "'");
                r
            },
        }
    }

    /// The exit code of every approval failure.
    pub fn exit_code(&self) -> (r: i32)
        ensures
            r == crate::EXIT_APPROVAL_DENIED,
    {
        crate::EXIT_APPROVAL_DENIED
    }
}

// ---------------------------------------------------------------------------
// Annotation reading
// ---------------------------------------------------------------------------

/// `annotations.requires_approval` is exactly the boolean `true`.
pub open spec fn requires_approval(def: JsonV) -> bool {
    match def.get("annotations"@) {
        Some(a) => a.get("requires_approval"@) == Some(JsonV::Bool(true)),
        None => false,
    }
}

/// The module id: `module_id`, else `canonical_id`, when a string;
/// `unknown` otherwise.
pub open spec fn module_id_of(def: JsonV) -> Seq<char> {
    let v = match def.get("module_id"@) {
        Some(x) => Some(x),
        None => def.get("canonical_id"@),
    };
    match v {
        Some(JsonV::Str(s)) => s,
        _ => "unknown"@,
    }
}

/// The prompt message: a non-empty `annotations.approval_message`, else the
/// default one naming the module.
pub open spec fn approval_message(def: JsonV, module_id: Seq<char>) -> Seq<char> {
    let custom = match def.get("annotations"@) {
        Some(a) => get_str(a, "approval_message"@),
        None => None,
    };
    match custom {
        Some(m) if m.len() > 0 => m,
        _ => "Module '"@ + module_id + "' requires approval to execute."@,
    }
}

pub fn get_requires_approval(module_def: &Json) -> (r: bool)
    ensures
        r == requires_approval(module_def@),
{
    match module_def.get("annotations") {
        Some(a) => match a.get("requires_approval") {
            Some(v) => match v {
                Json::Bool(b) => *b,
                _ => false,
            },
            None => false,
        },
        None => false,
    }
}

pub fn get_module_id(module_def: &Json) -> (r: String)
    ensures
        r@ == module_id_of(module_def@),
{
    let v = match module_def.get("module_id") {
        Some(x) => Some(x),
        None => module_def.get("canonical_id"),
    };
    match v {
        Some(Json::Str(s)) => s.clone(),
        _ => owned("unknown"),
    }
}

pub fn get_approval_message(module_def: &Json, module_id: &str) -> (r: String)
    ensures
        r@ == approval_message(module_def@, module_id@),
{
    let custom: Option<&String> = match module_def.get("annotations") {
        Some(a) => match a.get("approval_message") {
            Some(m) => m.as_str(),
            None => None,
        },
        None => None,
    };
    match custom {
        Some(m) => {
            if !m.as_str().is_empty() {
                return m.clone();
            }
        },
        None => {},
    }
    concat3("Module '", module_id, "' requires approval to execute.")
}

// ---------------------------------------------------------------------------
// The decision
// ---------------------------------------------------------------------------

/// What the approval check does for a module.
#[derive(Debug)]
pub enum ApprovalStep {
    /// Approval is not required: run.
    NotRequired,
    /// Approval is bypassed; `approved_by` is `auto_approve` (`--yes`) or
    /// `env_auto_approve` (`APCORE_CLI_AUTO_APPROVE=1`).
    Bypassed { approved_by: String },
    /// No terminal to prompt on: refuse. `warning` is the notice about an
    /// ignored `APCORE_CLI_AUTO_APPROVE` value, if any.
    NonInteractive { module_id: String, warning: Option<String> },
    /// Prompt with `message`.
    Prompt { module_id: String, message: String, warning: Option<String> },
}

/// The notice for an `APCORE_CLI_AUTO_APPROVE` value that is set, non-empty
/// and not `1`.
pub open spec fn env_warning(env: Option<Seq<char>>) -> Option<Seq<char>> {
    match env {
        Some(v) if v.len() > 0 && v != "1"@ => Some(
            "Warning: APCORE_CLI_AUTO_APPROVE is set to '"@ + v + "', expected '1'. Ignoring."@,
        ),
        _ => None,
    }
}

/// The approval check's decision, `env` being `APCORE_CLI_AUTO_APPROVE` (`None`: unset)
/// and `is_tty` whether standard input is a terminal.
pub open spec fn step_spec(def: JsonV, auto_approve: bool, env: Option<Seq<char>>, is_tty: bool) -> ApprovalStepV {
    if !requires_approval(def) {
        ApprovalStepV::NotRequired
    } else if auto_approve {
        ApprovalStepV::Bypassed("auto_approve"@)
    } else if env == Some("1"@) {
        ApprovalStepV::Bypassed("env_auto_approve"@)
    } else if !is_tty {
        ApprovalStepV::NonInteractive(module_id_of(def), env_warning(env))
    } else {
        ApprovalStepV::Prompt(
            module_id_of(def),
            approval_message(def, module_id_of(def)),
            env_warning(env),
        )
    }
}

pub enum ApprovalStepV {
    NotRequired,
    Bypassed(Seq<char>),
    NonInteractive(Seq<char>, Option<Seq<char>>),
    Prompt(Seq<char>, Seq<char>, Option<Seq<char>>),
}

pub open spec fn step_view(s: ApprovalStep) -> ApprovalStepV {
    match s {
        ApprovalStep::NotRequired => ApprovalStepV::NotRequired,
        ApprovalStep::Bypassed { approved_by } => ApprovalStepV::Bypassed(approved_by@),
        ApprovalStep::NonInteractive { module_id, warning } => ApprovalStepV::NonInteractive(
            module_id@,
            opt_view(warning),
        ),
        ApprovalStep::Prompt { module_id, message, warning } => ApprovalStepV::Prompt(
            module_id@,
            message@,
            opt_view(warning),
        ),
    }
}

fn auto_approve_warning(env: Option<&str>) -> (r: Option<String>)
    ensures
        opt_view(r) == env_warning(opt_str(env)),
{
    match env {
        Some(v) => {
            if !v.is_empty() && !str_eq(v, "1") {
                Some(concat3("Warning: APCORE_CLI_AUTO_APPROVE is set to '", v, "', expected '1'. Ignoring."))
            } else {
                None
            }
        },
        None => None,
    }
}

/// Decide what the approval check does.
pub fn approval_step(module_def: &Json, auto_approve: bool, env: Option<&str>, is_tty: bool) -> (r: ApprovalStep)
    ensures
        step_view(r) == step_spec(module_def@, auto_approve, opt_str(env), is_tty),
{
    if !get_requires_approval(module_def) {
        return ApprovalStep::NotRequired;
    }
    let module_id = get_module_id(module_def);
    if auto_approve {
        return ApprovalStep::Bypassed { approved_by: owned("auto_approve") };
    }
    let env_is_one = match env {
        Some(v) => str_eq(v, "1"),
        None => false,
    };
    if env_is_one {
        return ApprovalStep::Bypassed { approved_by: owned("env_auto_approve") };
    }
    let warning = auto_approve_warning(env);
    if !is_tty {
        return ApprovalStep::NonInteractive { module_id, warning };
    }
    let message = get_approval_message(module_def, module_id.as_str());
    ApprovalStep::Prompt { module_id, message, warning }
}

/// Whether a prompt answer approves: after trimming and lower-casing it is
/// `y` or `yes`.
pub open spec fn answer_approves(line: Seq<char>) -> bool {
    let a = unicode_lowercase(trim_seq(line));
    a == "y"@ || a == "yes"@
}

/// Judge the line typed at the prompt.
pub fn prompt_answer(line: &str, module_id: &str) -> (r: Result<(), ApprovalError>)
    ensures
        answer_approves(line@) ==> r is Ok,
        !answer_approves(line@) ==> (r matches Err(ApprovalError::Denied { module_id: m }) && m@
            == module_id@),
{
    let t = trim(line);
    let a = to_lowercase(t.as_str());
    if str_eq(a.as_str(), "y") || str_eq(a.as_str(), "yes") {
        Ok(())
    } else {
        Err(ApprovalError::Denied { module_id: owned(module_id) })
    }
}

/// The approval check's outcome: `Ok` when it lets the module run. For a prompt,
/// `prompt_outcome` is what the prompt produced (see [`prompt_answer`]).
pub fn approval_outcome(step: ApprovalStep, prompt_outcome: Result<(), ApprovalError>) -> (r: Result<(), ApprovalError>)
    ensures
        match step {
            ApprovalStep::NotRequired => r is Ok,
            ApprovalStep::Bypassed { .. } => r is Ok,
            ApprovalStep::NonInteractive { module_id, .. } => r matches Err(
                ApprovalError::NonInteractive { module_id: m },
            ) && m@ == module_id@,
            ApprovalStep::Prompt { .. } => r == prompt_outcome,
        },
{
    match step {
        ApprovalStep::NotRequired => Ok(()),
        ApprovalStep::Bypassed { .. } => Ok(()),
        ApprovalStep::NonInteractive { module_id, .. } => Err(
            ApprovalError::NonInteractive { module_id },
        ),
        ApprovalStep::Prompt { .. } => prompt_outcome,
    }
}

// ---------------------------------------------------------------------------
// ApprovalResult and the protocol handler
// ---------------------------------------------------------------------------

/// Approval state.
#[derive(Debug, Clone, Copy, PartialEq, Eq, Structural)]
pub enum ApprovalStatus {
    Approved,
    Rejected,
    Timeout,
}

/// Result of an approval request: `{status, approved_by, reason}`.
#[derive(Debug, PartialEq, Eq)]
pub struct ApprovalResult {
    pub status: ApprovalStatus,
    /// Who approved, for an approved result.
    pub approved_by: Option<String>,
    /// Why not, for a rejected or timed-out result.
    pub reason: Option<String>,
}

impl ApprovalResult {
    /// An approval by `approved_by`.
    pub fn approved_via(approved_by: &str) -> (r: Self)
        ensures
            r.status == ApprovalStatus::Approved,
            opt_view(r.approved_by) == Some(approved_by@),
            r.reason is None,
    {
        ApprovalResult { status: ApprovalStatus::Approved, approved_by: Some(owned(approved_by)), reason: None }
    }

    /// A rejection for `reason`.
    pub fn rejected(reason: &str) -> (r: Self)
        ensures
            r.status == ApprovalStatus::Rejected,
            r.approved_by is None,
            opt_view(r.reason) == Some(reason@),
    {
        ApprovalResult { status: ApprovalStatus::Rejected, approved_by: None, reason: Some(owned(reason)) }
    }

    /// A timeout for `reason`.
    pub fn timed_out(reason: &str) -> (r: Self)
        ensures
            r.status == ApprovalStatus::Timeout,
            r.approved_by is None,
            opt_view(r.reason) == Some(reason@),
    {
        ApprovalResult { status: ApprovalStatus::Timeout, approved_by: None, reason: Some(owned(reason)) }
    }
}

/// A CLI-backed approval handler.
pub struct CliApprovalHandler {
    /// Approve without prompting.
    pub auto_approve: bool,
    /// Seconds to wait for an interactive answer.
    pub timeout_secs: u64,
}

impl CliApprovalHandler {
    pub fn new(auto_approve: bool, timeout_secs: u64) -> (r: Self)
        ensures
            r.auto_approve == auto_approve,
            r.timeout_secs == timeout_secs,
    {
        CliApprovalHandler { auto_approve, timeout_secs }
    }

    /// The handler's decision for a module.
    pub fn decide(&self, module_def: &Json, env: Option<&str>, is_tty: bool) -> (r: ApprovalStep)
        ensures
            step_view(r) == step_spec(module_def@, self.auto_approve, opt_str(env), is_tty),
    {
        approval_step(module_def, self.auto_approve, env, is_tty)
    }

    /// The protocol result for a decision (and, for a prompt, what the
    /// prompt produced).
    pub fn result_for(&self, step: &ApprovalStep, prompt_outcome: &Result<(), ApprovalError>) -> (r: ApprovalResult)
        ensures
            match step {
                ApprovalStep::NotRequired => r.status == ApprovalStatus::Approved && opt_view(
                    r.approved_by,
                ) == Some("not_required"@) && r.reason is None,
                ApprovalStep::Bypassed { approved_by } => r.status == ApprovalStatus::Approved
                    && opt_view(r.approved_by) == Some(approved_by@) && r.reason is None,
                ApprovalStep::NonInteractive { module_id, .. } => r.status
                    == ApprovalStatus::Rejected && r.approved_by is None && opt_view(r.reason)
                    == Some(
                    "Module '"@ + module_id@
                        + "' requires approval but no interactive terminal is available. Use --yes or set APCORE_CLI_AUTO_APPROVE=1 to bypass."@,
                ),
                ApprovalStep::Prompt { .. } => match prompt_outcome {
                    Ok(()) => r.status == ApprovalStatus::Approved && opt_view(r.approved_by)
                        == Some("tty_user"@) && r.reason is None,
                    Err(ApprovalError::Timeout { seconds, .. }) => r.status
                        == ApprovalStatus::Timeout && r.approved_by is None && opt_view(r.reason)
                        == Some(
                        "Approval prompt timed out after "@ + decimal(*seconds as nat)
                            + " seconds."@,
                    ),
                    Err(_) => r.status == ApprovalStatus::Rejected && r.approved_by is None
                        && opt_view(r.reason) == Some("User denied approval"@),
                },
            },
    {
        match step {
            ApprovalStep::NotRequired => ApprovalResult::approved_via("not_required"),
            ApprovalStep::Bypassed { approved_by } => ApprovalResult::approved_via(approved_by.as_str()),
            ApprovalStep::NonInteractive { module_id, .. } => {
                let reason = concat3(
                    "Module '",
                    module_id.as_str(),
                    "' requires approval but no interactive terminal is available. Use --yes or set APCORE_CLI_AUTO_APPROVE=1 to bypass.",
                );
                ApprovalResult::rejected(reason.as_str())
            },
            ApprovalStep::Prompt { .. } => match prompt_outcome {
                Ok(()) => ApprovalResult::approved_via("tty_user"),
                Err(ApprovalError::Timeout { seconds, .. }) => {
                    let reason = concat3(
                        "Approval prompt timed out after ",
                        u64_to_string(*seconds).as_str(),
                        " seconds.",
                    );
                    ApprovalResult::timed_out(reason.as_str())
                },
                Err(_) => ApprovalResult::rejected("User denied approval"),
            },
        }
    }
}

// ---------------------------------------------------------------------------
// Laws
// ---------------------------------------------------------------------------

/// `--yes` always bypasses the prompt of a module that requires approval,
/// whatever the environment and the terminal.
pub proof fn lemma_yes_bypasses(def: JsonV, env: Option<Seq<char>>, is_tty: bool)
    requires
        requires_approval(def),
    ensures
        step_spec(def, true, env, is_tty) == ApprovalStepV::Bypassed("auto_approve"@),
{
}

/// A module that does not require approval is never gated.
pub proof fn lemma_not_required_never_gated(def: JsonV, yes: bool, env: Option<Seq<char>>, is_tty: bool)
    requires
        !requires_approval(def),
    ensures
        step_spec(def, yes, env, is_tty) == ApprovalStepV::NotRequired,
{
}

/// Without a bypass and without a terminal, approval is refused, never
/// prompted.
pub proof fn lemma_no_tty_refuses(def: JsonV, env: Option<Seq<char>>)
    requires
        requires_approval(def),
        env != Some("1"@),
    ensures
        step_spec(def, false, env, false) is NonInteractive,
{
}

} // verus!
