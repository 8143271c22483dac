//! Access-control support around apcore's ACL: where the ACL root comes
//! from, how the `acl.audit.*` switches read, the caller-identity assertion,
//! and the exit codes of the `acl` commands.
use vstd::prelude::*;
use crate::config::{ConfigResolver, ConfigV, resolve_spec};
use crate::json::{Json, JsonV, entries_view, lemma_object_view};
use crate::text::{owned, trim, trim_seq, to_ascii_lowercase, ascii_lower_seq, str_eq, str_le, seq_le, pair_get};

use crate::text::{opt_view, opt_str};

verus! {

// ---------------------------------------------------------------------------
// Constants
// ---------------------------------------------------------------------------

/// Environment variable naming the ACL root.
pub const ACL_ROOT_ENV: &'static str = "APCORE_ACL_ROOT";
/// The built-in ACL root.
pub const DEFAULT_ACL_ROOT: &'static str = "./acl";
/// The file loaded from an ACL root directory.
pub const GLOBAL_ACL_FILENAME: &'static str = "global_acl.yaml";
/// The config key of the ACL root.
pub const ACL_ROOT_KEY: &'static str = "acl.root";
pub const ACL_AUDIT_ENABLED_KEY: &'static str = "acl.audit.enabled";
pub const ACL_AUDIT_ENABLED_ENV: &'static str = "APCORE_ACL_AUDIT_ENABLED";
pub const ACL_AUDIT_INCLUDE_DENIED_KEY: &'static str = "acl.audit.include_denied";
pub const ACL_AUDIT_INCLUDE_DENIED_ENV: &'static str = "APCORE_ACL_AUDIT_INCLUDE_DENIED";

/// The caller of every top-level CLI invocation: the id apcore gives calls
/// from outside any module (its `acl::EXTERNAL_CALLER`).
pub const DEFAULT_CALLER: &'static str = "@external";

/// Default `Identity.type` when `--identity-id` is given alone.
pub const DEFAULT_IDENTITY_TYPE: &'static str = "user";
/// Default `Identity.id` when only `--role` or `--identity-type` is given.
pub const DEFAULT_IDENTITY_ID: &'static str = "@cli";
/// Strategies whose step list omits the ACL check.
pub const ACL_BYPASSING_STRATEGIES: [&'static str; 3] = ["internal", "testing", "minimal"];

/// The audit record's fields, in their normative order.
pub const ACL_AUDIT_FIELDS: [&'static str; 13] = [
    "timestamp",
    "caller_id",
    "target_id",
    "decision",
    "reason",
    "matched_rule",
    "matched_rule_index",
    "identity_type",
    "roles",
    "call_depth",
    "trace_id",
    "handler_error",
    "approval_required",
];

/// The audit-log record of one ACL decision: apcore's audit entry fields,
/// in apcore's order, absent values kept as `null`.
#[derive(Debug)]
pub struct AclAuditRecord {
    pub timestamp: String,
    pub caller_id: String,
    pub target_id: String,
    pub decision: String,
    pub reason: String,
    pub matched_rule: Option<String>,
    pub matched_rule_index: Option<usize>,
    pub identity_type: Option<String>,
    pub roles: Vec<String>,
    pub call_depth: Option<usize>,
    pub trace_id: Option<String>,
    pub handler_error: Option<String>,
    pub approval_required: bool,
}

// ---------------------------------------------------------------------------
// ACL root
// ---------------------------------------------------------------------------

/// The trimmed value, unless blank.
pub open spec fn non_empty_spec(value: Option<Seq<char>>) -> Option<Seq<char>> {
    match value {
        Some(v) => if trim_seq(v).len() > 0 {
            Some(trim_seq(v))
        } else {
            None
        },
        None => None,
    }
}

/// The trimmed value, unless blank.
pub fn non_empty(value: Option<&str>) -> (r: Option<String>)
    ensures
        opt_view(r) == non_empty_spec(opt_str(value)),
{
    match value {
        Some(v) => {
            let t = trim(v);
            if t.as_str().is_empty() {
                None
            } else {
                Some(t)
            }
        },
        None => None,
    }
}

/// The default root tier 4 would report: the defaults' `acl.root`, else
/// `./acl`.
pub open spec fn default_root_spec(c: ConfigV) -> Seq<char> {
    match pair_get(c.defaults, "acl.root"@) {
        Some(v) => v,
        None => "./acl"@,
    }
}

/// The ACL root through the four tiers: the `--acl` value, then
/// `APCORE_ACL_ROOT` (`env_root`), then `acl.root` in the config file (each
/// taken when non-blank, trimmed), then the default root when it exists on
/// disk (`default_exists`, checked by the caller on [`default_acl_root`]).
pub open spec fn acl_root_spec(
    c: ConfigV,
    cli_flag: Option<Seq<char>>,
    env_root: Option<Seq<char>>,
    default_exists: bool,
) -> Option<Seq<char>> {
    if non_empty_spec(cli_flag) is Some {
        non_empty_spec(cli_flag)
    } else if non_empty_spec(env_root) is Some {
        non_empty_spec(env_root)
    } else {
        let file_value = match c.config_file {
            Some(m) => pair_get(m, "acl.root"@),
            None => None,
        };
        if non_empty_spec(file_value) is Some {
            non_empty_spec(file_value)
        } else if default_exists {
            Some(default_root_spec(c))
        } else {
            None
        }
    }
}

/// The root tier 4 reports when it exists.
pub fn default_acl_root(config: &ConfigResolver) -> (r: String)
    ensures
        r@ == default_root_spec(config@),
{
    match config.resolve_default(ACL_ROOT_KEY) {
        Some(v) => v,
        None => owned(DEFAULT_ACL_ROOT),
    }
}

/// Resolve the ACL root (see [`acl_root_spec`]).
pub fn resolve_acl_root(
    config: &ConfigResolver,
    cli_flag: Option<&str>,
    env_root: Option<&str>,
    default_exists: bool,
) -> (r: Option<String>)
    ensures
        opt_view(r) == acl_root_spec(config@, opt_str(cli_flag), opt_str(env_root), default_exists),
{
    match non_empty(cli_flag) {
        Some(v) => {
            return Some(v);
        },
        None => {},
    }
    match non_empty(env_root) {
        Some(v) => {
            return Some(v);
        },
        None => {},
    }
    let file_value = config.file_value(ACL_ROOT_KEY);
    let fv: Option<&str> = match &file_value {
        Some(s) => Some(s.as_str()),
        None => None,
    };
    match non_empty(fv) {
        Some(v) => {
            return Some(v);
        },
        None => {},
    }
    if default_exists {
        Some(default_acl_root(config))
    } else {
        None
    }
}

// ---------------------------------------------------------------------------
// The ACL file
// ---------------------------------------------------------------------------

/// `name` under the directory `root`, joined as a path: a separator is put
/// between them unless `root` is empty or already ends with one.
pub open spec fn path_join(root: Seq<char>, name: Seq<char>) -> Seq<char> {
    if root.len() == 0 || root.last() == '/' {
        root + name
    } else {
        root + "/"@ + name
    }
}

/// The conventional ACL file of a root directory.
pub fn conventional_acl_path(root: &str) -> (r: String)
    ensures
        r@ == path_join(root@, GLOBAL_ACL_FILENAME@),
{
    let cs = crate::text::chars_of(root);
    let n = cs.len();
    if n == 0 || cs[n - 1] == '/' {
        crate::text::concat2(root, GLOBAL_ACL_FILENAME)
    } else {
        crate::text::concat3(root, "/", GLOBAL_ACL_FILENAME)
    }
}

/// The ACL file a root names, given what the caller found on disk: nothing
/// when the root does not exist; for a directory, its conventional file when
/// that is a file, else nothing; any other path is the file itself. A
/// missing ACL is never replaced by an empty one.
pub fn resolve_acl_file(root: &str, exists: bool, is_dir: bool, conventional_is_file: bool) -> (r: Option<String>)
    ensures
        !exists ==> r is None,
        exists && is_dir && conventional_is_file ==> (r matches Some(p) && p@ == path_join(
            root@,
            GLOBAL_ACL_FILENAME@,
        )),
        exists && is_dir && !conventional_is_file ==> r is None,
        exists && !is_dir ==> (r matches Some(p) && p@ == root@),
{
    if !exists {
        return None;
    }
    if is_dir {
        if conventional_is_file {
            return Some(conventional_acl_path(root));
        }
        return None;
    }
    Some(owned(root))
}

/// The message for an ACL that failed to load from `path`: a missing file
/// (`not_found`) is named as such; any other failure quotes the loader's
/// message.
pub fn describe_load_error(path: &str, not_found: bool, message: &str) -> (r: String)
    ensures
        not_found ==> r@ == "ACL file not found: "@ + path@,
        !not_found ==> r@ == "Invalid ACL configuration in "@ + path@ + ": "@ + message@,
{
    if not_found {
        crate::text::concat2("ACL file not found: ", path)
    } else {
        let head = crate::text::concat3("Invalid ACL configuration in ", path, ": ");
        crate::text::concat2(head.as_str(), message)
    }
}

// ---------------------------------------------------------------------------
// Audit switches
// ---------------------------------------------------------------------------

/// The boolean a config string spells: `true`/`1`/`yes`/`on` or
/// `false`/`0`/`no`/`off`, ignoring ASCII case and surrounding whitespace;
/// anything else gives `default`.
pub open spec fn config_bool(raw: Seq<char>, default: bool) -> bool {
    let v = ascii_lower_seq(trim_seq(raw));
    if v == "true"@ || v == "1"@ || v == "yes"@ || v == "on"@ {
        true
    } else if v == "false"@ || v == "0"@ || v == "no"@ || v == "off"@ {
        false
    } else {
        default
    }
}

/// Parse a config-string boolean (`key` names the setting for messages).
pub fn parse_config_bool(raw: &str, key: &str, default: bool) -> (r: bool)
    ensures
        r == config_bool(raw@, default),
{
    let t = trim(raw);
    let v = to_ascii_lowercase(t.as_str());
    let s = v.as_str();
    if str_eq(s, "true") || str_eq(s, "1") || str_eq(s, "yes") || str_eq(s, "on") {
        true
    } else if str_eq(s, "false") || str_eq(s, "0") || str_eq(s, "no") || str_eq(s, "off") {
        false
    } else {
        default
    }
}

/// An `acl.audit.*` switch: the resolved value read as a boolean (default
/// `true`), `env` being its environment variable's value.
pub open spec fn audit_flag_spec(c: ConfigV, key: Seq<char>, env: Option<Seq<char>>) -> bool {
    match resolve_spec(c, key, None, env) {
        Some(raw) => config_bool(raw, true),
        None => true,
    }
}

fn resolve_audit_flag(config: &ConfigResolver, key: &str, env: Option<&str>) -> (r: bool)
    ensures
        r == audit_flag_spec(config@, key@, opt_str(env)),
{
    match config.resolve(key, None, env) {
        Some(raw) => parse_config_bool(raw.as_str(), key, true),
        None => true,
    }
}

/// Whether ACL decisions are audited (`acl.audit.enabled`, env
/// `APCORE_ACL_AUDIT_ENABLED` handed in as `env`).
pub fn acl_audit_enabled(config: &ConfigResolver, env: Option<&str>) -> (r: bool)
    ensures
        r == audit_flag_spec(config@, ACL_AUDIT_ENABLED_KEY@, opt_str(env)),
{
    resolve_audit_flag(config, ACL_AUDIT_ENABLED_KEY, env)
}

/// Whether denied decisions are audited (`acl.audit.include_denied`, env
/// `APCORE_ACL_AUDIT_INCLUDE_DENIED` handed in as `env`).
pub fn acl_audit_include_denied(config: &ConfigResolver, env: Option<&str>) -> (r: bool)
    ensures
        r == audit_flag_spec(config@, ACL_AUDIT_INCLUDE_DENIED_KEY@, opt_str(env)),
{
    resolve_audit_flag(config, ACL_AUDIT_INCLUDE_DENIED_KEY, env)
}

// ---------------------------------------------------------------------------
// Identity
// ---------------------------------------------------------------------------

/// The caller assertion given by `--identity-id`, `--identity-type` and
/// `--role` (not authentication).
#[derive(Clone, Debug, PartialEq, Eq)]
pub struct CliIdentity {
    pub id: Option<String>,
    pub identity_type: Option<String>,
    pub roles: Vec<String>,
}

impl Default for CliIdentity {
    /// No flag given.
    fn default() -> (r: Self)
        ensures
            r.id is None,
            r.identity_type is None,
            r.roles@.len() == 0,
    {
        CliIdentity { id: None, identity_type: None, roles: Vec::new() }
    }
}

impl CliIdentity {
    /// No flag was given.
    pub fn is_empty(&self) -> (r: bool)
        ensures
            r == (self.id is None && self.identity_type is None && self.roles@.len() == 0),
    {
        self.id.is_none() && self.identity_type.is_none() && self.roles.len() == 0
    }

    /// The identity this assertion describes: id (default `@cli`), type
    /// (default `user`) and roles.
    pub fn identity_parts(&self) -> (r: (String, String, Vec<String>))
        ensures
            r.0@ == match self.id {
                Some(i) => i@,
                None => DEFAULT_IDENTITY_ID@,
            },
            r.1@ == match self.identity_type {
                Some(t) => t@,
                None => DEFAULT_IDENTITY_TYPE@,
            },
            r.2@.map_values(|s: String| s@) == self.roles@.map_values(|s: String| s@),
    {
        let id = match &self.id {
            Some(i) => i.clone(),
            None => owned(DEFAULT_IDENTITY_ID),
        };
        let t = match &self.identity_type {
            Some(x) => x.clone(),
            None => owned(DEFAULT_IDENTITY_TYPE),
        };
        let mut roles: Vec<String> = Vec::new();
        let mut i: usize = 0;
        while i < self.roles.len()
            invariant
                0 <= i <= self.roles.len(),
                roles@.map_values(|s: String| s@) == self.roles@.take(i as int).map_values(|s: String| s@),
            decreases self.roles.len() - i,
        {
            let ghost prev = roles@;
            let c = self.roles[i].clone();
            roles.push(c);
            assert(roles@ == prev.push(c));
            assert(self.roles@.take(i + 1) =~= self.roles@.take(i as int).push(self.roles@[i as int]));
            assert(roles@.map_values(|s: String| s@) =~= prev.map_values(|s: String| s@).push(c@));
            assert(roles@.map_values(|s: String| s@) =~= self.roles@.take(i + 1).map_values(|s: String| s@));
            i = i + 1;
        }
        assert(self.roles@.take(self.roles.len() as int) == self.roles@);
        (id, t, roles)
    }
}

/// The identity assertion published for the process (empty assertions are
/// not kept).
pub struct IdentityCell {
    current: Option<CliIdentity>,
}

impl IdentityCell {
    pub fn new() -> (r: Self)
        ensures
            r.get_spec() is None,
    {
        IdentityCell { current: None }
    }

    pub closed spec fn get_spec(&self) -> Option<CliIdentity> {
        self.current
    }
}

/// Publish the identity assertion parsed from argv; `None` or an empty
/// assertion clears it.
pub fn set_cli_identity(cell: &mut IdentityCell, identity: Option<CliIdentity>)
    ensures
        final(cell).get_spec() == match identity {
            Some(i) => if i.id is None && i.identity_type is None && i.roles@.len() == 0 {
                None
            } else {
                Some(i)
            },
            None => None,
        },
{
    cell.current = match identity {
        Some(i) => {
            if i.is_empty() {
                None
            } else {
                Some(i)
            }
        },
        None => None,
    };
}

/// The published identity assertion, if any.
pub fn cli_identity(cell: &IdentityCell) -> (r: Option<&CliIdentity>)
    ensures
        match r {
            Some(i) => cell.get_spec() == Some(*i),
            None => cell.get_spec() is None,
        },
{
    match &cell.current {
        Some(i) => Some(i),
        None => None,
    }
}

/// The warning for running a strategy that skips the ACL check while an ACL
/// is attached.
pub fn strategy_bypass_warning(strategy: Option<&str>, acl_attached: bool) -> (r: Option<String>)
    ensures
        match r {
            Some(w) => acl_attached && strategy is Some && (strategy->0@ == "internal"@
                || strategy->0@ == "testing"@ || strategy->0@ == "minimal"@) && w@ == "Warning: Using '"@
                + strategy->0@ + "' strategy - the configured ACL is not enforced."@,
            None => !(acl_attached && strategy is Some && (strategy->0@ == "internal"@
                || strategy->0@ == "testing"@ || strategy->0@ == "minimal"@)),
        },
{
    if !acl_attached {
        return None;
    }
    match strategy {
        Some(name) => {
            if str_eq(name, "internal") || str_eq(name, "testing") || str_eq(name, "minimal") {
                Some(crate::text::concat3("Warning: Using '", name, "' strategy - the configured ACL is not enforced."))
            } else {
                None
            }
        },
        None => None,
    }
}

// ---------------------------------------------------------------------------
// Rendering helpers and exit codes
// ---------------------------------------------------------------------------

pub fn yes_no(value: bool) -> (r: &'static str)
    ensures
        r@ == if value {
            "yes"@
        } else {
            "no"@
        },
{
    if value {
        "yes"
    } else {
        "no"
    }
}

/// `acl validate`: 0 with no findings, 47 with at least one.
pub fn validate_exit_code(finding_count: usize) -> (r: i32)
    ensures
        r == if finding_count > 0 {
            crate::EXIT_CONFIG_NOT_FOUND
        } else {
            crate::EXIT_SUCCESS
        },
{
    if finding_count > 0 {
        crate::EXIT_CONFIG_NOT_FOUND
    } else {
        crate::EXIT_SUCCESS
    }
}

/// `acl check`: 77 when the decision is `deny`, 0 otherwise.
pub fn check_exit_code(access: &str) -> (r: i32)
    ensures
        r == if access@ == "deny"@ {
            crate::EXIT_ACL_DENIED
        } else {
            crate::EXIT_SUCCESS
        },
{
    if str_eq(access, "deny") {
        crate::EXIT_ACL_DENIED
    } else {
        crate::EXIT_SUCCESS
    }
}

/// `acl status`: 47 under `--strict` when the control surface is
/// unprotected, 0 otherwise.
pub fn status_exit_code(unprotected_control_surface: bool, strict: bool) -> (r: i32)
    ensures
        r == if strict && unprotected_control_surface {
            crate::EXIT_CONFIG_NOT_FOUND
        } else {
            crate::EXIT_SUCCESS
        },
{
    if strict && unprotected_control_surface {
        crate::EXIT_CONFIG_NOT_FOUND
    } else {
        crate::EXIT_SUCCESS
    }
}

/// Insert `k` into the sorted `s` after every key not greater than it.
pub open spec fn insert_key(s: Seq<Seq<char>>, k: Seq<char>) -> Seq<Seq<char>>
    decreases s.len(),
{
    if s.len() == 0 {
        seq![k]
    } else if seq_le(s.last(), k) {
        s.push(k)
    } else {
        insert_key(s.drop_last(), k).push(s.last())
    }
}

pub open spec fn sort_keys(s: Seq<Seq<char>>) -> Seq<Seq<char>>
    decreases s.len(),
{
    if s.len() == 0 {
        Seq::empty()
    } else {
        insert_key(sort_keys(s.drop_last()), s.last())
    }
}

/// The condition keys of a rule: the keys of the `conditions` object, in
/// lexicographic order (none when absent or not an object).
pub open spec fn condition_keys_spec(conditions: Option<JsonV>) -> Seq<Seq<char>> {
    match conditions {
        Some(JsonV::Object(entries)) => sort_keys(entries.map_values(|e: (Seq<char>, JsonV)| e.0)),
        _ => Seq::empty(),
    }
}

proof fn lemma_insert_key_at(s: Seq<Seq<char>>, k: Seq<char>, pos: int)
    requires
        0 <= pos <= s.len(),
        pos == 0 || seq_le(s[pos - 1], k),
        forall|j: int| pos <= j < s.len() ==> !seq_le(#[trigger] s[j], k),
    ensures
        insert_key(s, k) == s.insert(pos, k),
    decreases s.len(),
{
    if s.len() == 0 {
        assert(s.insert(0, k) =~= seq![k]);
    } else if pos == s.len() {
        assert(s.insert(pos, k) =~= s.push(k));
    } else {
        let init = s.drop_last();
        assert(!seq_le(s[s.len() - 1], k));
        assert forall|j: int| pos <= j < init.len() implies !seq_le(#[trigger] init[j], k) by {
            assert(init[j] == s[j]);
        }
        if pos > 0 {
            assert(init[pos - 1] == s[pos - 1]);
        }
        lemma_insert_key_at(init, k, pos);
        assert(init.insert(pos, k).push(s.last()) =~= s.insert(pos, k));
    }
}

/// The sorted condition keys of a rule.
pub fn condition_keys(conditions: Option<&Json>) -> (r: Vec<String>)
    ensures
        r@.map_values(|s: String| s@) == condition_keys_spec(
            match conditions {
                Some(c) => Some(c@),
                None => None,
            },
        ),
{
    let mut out: Vec<String> = Vec::new();
    let entries = match conditions {
        Some(Json::Object(e)) => e,
        _ => {
            assert(out@.map_values(|s: String| s@) =~= Seq::<Seq<char>>::empty());
            return out;
        },
    };
    proof {
        lemma_object_view(entries);
    }
    let ghost keys = entries_view(entries@).map_values(|e: (Seq<char>, JsonV)| e.0);
    let mut i: usize = 0;
    assert(out@.map_values(|s: String| s@) =~= sort_keys(keys.take(0)));
    while i < entries.len()
        invariant
            0 <= i <= entries.len(),
            keys == entries_view(entries@).map_values(|e: (Seq<char>, JsonV)| e.0),
            out@.map_values(|s: String| s@) == sort_keys(keys.take(i as int)),
        decreases entries.len() - i,
    {
        let k = entries[i].0.clone();
        assert(keys.take(i + 1).drop_last() == keys.take(i as int));
        assert(keys.take(i + 1).last() == k@);
        let ghost ov = out@.map_values(|s: String| s@);
        let mut pos: usize = out.len();
        while pos > 0 && !str_le(out[pos - 1].as_str(), k.as_str())
            invariant
                0 <= pos <= out.len(),
                ov == out@.map_values(|s: String| s@),
                forall|j: int| pos <= j < ov.len() ==> !seq_le(#[trigger] ov[j], k@),
            decreases pos,
        {
            pos = pos - 1;
        }
        proof {
            lemma_insert_key_at(ov, k@, pos as int);
        }
        out.insert(pos, k);
        assert(out@.map_values(|s: String| s@) =~= ov.insert(pos as int, k@));
        i = i + 1;
    }
    assert(keys.take(entries.len() as int) == keys);
    out
}

} // verus!
