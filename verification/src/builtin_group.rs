//! The built-in `apcli` command group: which of its subcommands are shown.
//!
//! Visibility follows a four-tier precedence: a non-auto mode given
//! programmatically (Tier 1) wins; then the `APCORE_CLI_APCLI` environment
//! value (Tier 2) unless `disable_env` seals it; then a non-auto mode from
//! `apcore.yaml` (Tier 3); then auto-detection (Tier 4): hidden when a
//! registry was injected, shown otherwise. The environment value is read by
//! the caller and handed in.
use vstd::prelude::*;
use crate::json::{Json, JsonV, json_seq_view, entries_view, lookup};
use crate::text::{owned, str_eq, str_in, string_in, trim, trim_seq, to_lowercase, unicode_lowercase};
use crate::pattern::{regex_is_match, regex_match};

use crate::text::{strings_view, opt_str};

verus! {

// ---------------------------------------------------------------------------
// Constants
// ---------------------------------------------------------------------------

/// The subcommands registered under the `apcli` group.
pub const APCLI_SUBCOMMAND_NAMES: [&'static str; 13] = [
    "list",
    "describe",
    "exec",
    "validate",
    "init",
    "health",
    "usage",
    "enable",
    "disable",
    "reload",
    "config",
    "completion",
    "describe-pipeline",
];

/// Default name of the built-in command group.
pub const DEFAULT_BUILTIN_GROUP_NAME: &'static str = "apcli";

/// Group names reserved when no rename is configured.
pub const RESERVED_GROUP_NAMES: [&'static str; 1] = ["apcli"];

/// The shell-safe shape a built-in group name must have.
pub const BUILTIN_GROUP_NAME_PATTERN: &'static str = "^[a-z][a-z0-9_-]*$";

/// Modes a user may write in configuration (`auto` is internal).
pub const VALID_USER_MODES: [&'static str; 4] = ["all", "none", "include", "exclude"];

// ---------------------------------------------------------------------------
// Reserved group names
// ---------------------------------------------------------------------------

/// The currently effective set of reserved group names (initially the
/// default group name alone).
pub struct ReservedGroupNames {
    names: Vec<String>,
}

impl View for ReservedGroupNames {
    type V = Seq<Seq<char>>;

    closed spec fn view(&self) -> Seq<Seq<char>> {
        self.names@.map_values(|s: String| s@)
    }
}

impl ReservedGroupNames {
    /// The initial set: `{DEFAULT_BUILTIN_GROUP_NAME}`.
    pub fn new() -> (r: Self)
        ensures
            r@ == seq![DEFAULT_BUILTIN_GROUP_NAME@],
    {
        let mut names: Vec<String> = Vec::new();
        names.push(owned(DEFAULT_BUILTIN_GROUP_NAME));
        let r = ReservedGroupNames { names };
        assert(r@ =~= seq![DEFAULT_BUILTIN_GROUP_NAME@]);
        r
    }
}

/// A snapshot of the effective reserved-group set.
pub fn effective_reserved_group_names(reserved: &ReservedGroupNames) -> (r: Vec<String>)
    ensures
        r@.map_values(|s: String| s@) == reserved@,
{
    let mut out: Vec<String> = Vec::new();
    let mut i: usize = 0;
    while i < reserved.names.len()
        invariant
            0 <= i <= reserved.names.len(),
            out@.map_values(|s: String| s@) == reserved@.take(i as int),
        decreases reserved.names.len() - i,
    {
        let ghost prev = out@;
        let c = reserved.names[i].clone();
        out.push(c);
        proof {
            assert(c@ == reserved.names@[i as int]@);
            assert(out@ == prev.push(c));
            assert(out@.map_values(|s: String| s@) =~= prev.map_values(|s: String| s@).push(c@));
            assert(reserved@.take(i + 1) =~= reserved@.take(i as int).push(reserved@[i as int]));
        }
        i = i + 1;
    }
    assert(reserved@.take(i as int) =~= reserved@);
    out
}

/// Whether `name` is in the effective reserved-group set.
pub fn is_reserved_group_name(reserved: &ReservedGroupNames, name: &str) -> (r: bool)
    ensures
        r == reserved@.contains(name@),
{
    let r = string_in(name, &reserved.names);
    proof {
        if r {
            let m = choose|m: int| 0 <= m < reserved.names@.len() && reserved.names@[m]@ == name@;
            assert(reserved@[m] == name@);
        } else {
            assert forall|m: int| 0 <= m < reserved@.len() implies reserved@[m] != name@ by {
                assert(reserved.names@[m]@ != name@);
            }
        }
    }
    r
}

/// Replace the effective reserved-group set with `names`.
pub fn set_reserved_group_names(reserved: &mut ReservedGroupNames, names: Vec<String>)
    ensures
        final(reserved)@ == names@.map_values(|s: String| s@),
{
    reserved.names = names;
}

// ---------------------------------------------------------------------------
// Errors
// ---------------------------------------------------------------------------

/// Why an `apcli` configuration was refused.
#[derive(Debug, PartialEq, Eq)]
pub enum ApcliGroupError {
    /// The config was neither a boolean nor a mapping (the shape's name).
    InvalidShape(String),
    /// `mode` was not a string (the type's name).
    ModeNotString(String),
    /// `mode` was a string outside `all|none|include|exclude`.
    ModeInvalid(String),
    /// The group name failed the shell-safe check.
    InvalidName(String),
}

impl ApcliGroupError {
    /// The error's message.
    pub fn message(&self) -> (r: String)
        ensures
            r@ == match self {
                ApcliGroupError::InvalidShape(s) => "Error: apcli config must be a boolean or object; got "@
                    + s@ + "."@,
                ApcliGroupError::ModeNotString(s) => "Error: apcli.mode must be a string; got "@ + s@
                    + ". Expected one of all|none|include|exclude."@,
                ApcliGroupError::ModeInvalid(s) => "Error: apcli.mode '"@ + s@
                    + "' is invalid. Expected one of all|none|include|exclude."@,
                ApcliGroupError::InvalidName(s) => "builtin_group_name '"@ + s@
                    + "' must match /^[a-z][a-z0-9_-]*$/ (non-empty, lowercase, alphanumeric + '_' / '-', leading letter)."@,
            },
    {
        match self {
            ApcliGroupError::InvalidShape(s) => crate::text::concat3(
                "Error: apcli config must be a boolean or object; got ",
                s.as_str(),
                ".",
            ),
            ApcliGroupError::ModeNotString(s) => crate::text::concat3(
                "Error: apcli.mode must be a string; got ",
                s.as_str(),
                ". Expected one of all|none|include|exclude.",
            ),
            ApcliGroupError::ModeInvalid(s) => crate::text::concat3(
                "Error: apcli.mode '",
                s.as_str(),
                "' is invalid. Expected one of all|none|include|exclude.",
            ),
            ApcliGroupError::InvalidName(s) => crate::text::concat3(
                "builtin_group_name '",
                s.as_str(),
                "' must match /^[a-z][a-z0-9_-]*$/ (non-empty, lowercase, alphanumeric + '_' / '-', leading letter).",
            ),
        }
    }

    /// The exit code a refused configuration ends the program with.
    pub fn exit_code(&self) -> (r: i32)
        ensures
            r == crate::EXIT_INVALID_INPUT,
    {
        crate::EXIT_INVALID_INPUT
    }
}

// ---------------------------------------------------------------------------
// Group-name validation
// ---------------------------------------------------------------------------

/// The verdict on a candidate group name, given whether the shell-safe
/// pattern matched it (`None`: the pattern could not be used).
pub fn group_name_verdict(name: &str, matched: Option<bool>) -> (r: Result<(), ApcliGroupError>)
    ensures
        match r {
            Ok(()) => name@.len() > 0 && matched == Some(true),
            Err(ApcliGroupError::InvalidName(n)) => n@ == name@ && !(name@.len() > 0 && matched
                == Some(true)),
            Err(_) => false,
        },
{
    if name.is_empty() {
        return Err(ApcliGroupError::InvalidName(owned(name)));
    }
    match matched {
        Some(true) => Ok(()),
        _ => Err(ApcliGroupError::InvalidName(owned(name))),
    }
}

/// Whether `name` is an acceptable built-in group name: non-empty and
/// matched by [`BUILTIN_GROUP_NAME_PATTERN`].
pub open spec fn valid_group_name(name: Seq<char>) -> bool {
    name.len() > 0 && regex_match(BUILTIN_GROUP_NAME_PATTERN@, name) == Some(true)
}

/// Validate a candidate built-in group name.
pub fn validate_builtin_group_name(name: &str) -> (r: Result<(), ApcliGroupError>)
    ensures
        match r {
            Ok(()) => valid_group_name(name@),
            Err(ApcliGroupError::InvalidName(n)) => n@ == name@ && !valid_group_name(name@),
            Err(_) => false,
        },
{
    let matched = regex_is_match(BUILTIN_GROUP_NAME_PATTERN, name);
    group_name_verdict(name, matched)
}

// ---------------------------------------------------------------------------
// Config types
// ---------------------------------------------------------------------------

/// User-facing visibility mode (`Auto`: fall through to detection).
#[derive(Debug, PartialEq, Eq)]
pub enum ApcliMode {
    Auto,
    All,
    Hidden,
    Include(Vec<String>),
    Exclude(Vec<String>),
}

/// User-facing configuration for [`ApcliGroup::from_cli_config`].
#[derive(Debug)]
pub struct ApcliConfig {
    pub mode: ApcliMode,
    pub disable_env: bool,
}

/// The flat internal mode.
#[derive(Clone, Copy, Debug, PartialEq, Eq, Structural)]
pub enum InternalMode {
    Auto,
    All,
    Hidden,
    Include,
    Exclude,
}

pub open spec fn mode_text(m: InternalMode) -> Seq<char> {
    match m {
        InternalMode::Auto => "auto"@,
        InternalMode::All => "all"@,
        InternalMode::Hidden => "none"@,
        InternalMode::Include => "include"@,
        InternalMode::Exclude => "exclude"@,
    }
}

impl InternalMode {
    /// The mode's name.
    pub fn as_str(self) -> (r: &'static str)
        ensures
            r@ == mode_text(self),
    {
        match self {
            InternalMode::Auto => "auto",
            InternalMode::All => "all",
            InternalMode::Hidden => "none",
            InternalMode::Include => "include",
            InternalMode::Exclude => "exclude",
        }
    }
}

/// Visibility configuration of the built-in group.
#[derive(Debug)]
pub struct ApcliGroup {
    mode: InternalMode,
    included: Vec<String>,
    exclude: Vec<String>,
    disable_env: bool,
    registry_injected: bool,
    from_cli_config: bool,
    name: String,
}

/// The plain contents of an [`ApcliGroup`].
pub struct ApcliGroupV {
    pub mode: InternalMode,
    pub included: Seq<Seq<char>>,
    pub exclude: Seq<Seq<char>>,
    pub disable_env: bool,
    pub registry_injected: bool,
    pub from_cli_config: bool,
    pub name: Seq<char>,
}

impl View for ApcliGroup {
    type V = ApcliGroupV;

    closed spec fn view(&self) -> ApcliGroupV {
        ApcliGroupV {
            mode: self.mode,
            included: strings_view(self.included@),
            exclude: strings_view(self.exclude@),
            disable_env: self.disable_env,
            registry_injected: self.registry_injected,
            from_cli_config: self.from_cli_config,
            name: self.name@,
        }
    }
}

// ---------------------------------------------------------------------------
// Specification
// ---------------------------------------------------------------------------

/// Tier 2: what an `APCORE_CLI_APCLI` value asks for. Trimmed, then
/// lower-cased; `show`/`1`/`true` show everything, `hide`/`0`/`false` hide
/// the group, anything else (or an empty value) asks for nothing.
pub open spec fn env_mode(raw: Option<Seq<char>>) -> Option<Seq<char>> {
    match raw {
        None => None,
        Some(r) => {
            let n = unicode_lowercase(trim_seq(r));
            if r.len() == 0 || trim_seq(r).len() == 0 {
                None
            } else if n == "show"@ || n == "1"@ || n == "true"@ {
                Some("all"@)
            } else if n == "hide"@ || n == "0"@ || n == "false"@ {
                Some("none"@)
            } else {
                None
            }
        },
    }
}

/// The effective visibility: one of `all`, `none`, `include`, `exclude`.
pub open spec fn visibility(g: ApcliGroupV, env: Option<Seq<char>>) -> Seq<char> {
    if g.from_cli_config && g.mode != InternalMode::Auto {
        mode_text(g.mode)
    } else if !g.disable_env && env_mode(env) is Some {
        env_mode(env)->0
    } else if g.mode != InternalMode::Auto {
        mode_text(g.mode)
    } else if g.registry_injected {
        "none"@
    } else {
        "all"@
    }
}

/// The name YAML gives the type of a value.
pub open spec fn yaml_type_name_spec(v: JsonV) -> Seq<char> {
    match v {
        JsonV::Null => "null"@,
        JsonV::Bool(_) => "boolean"@,
        JsonV::Number(_) => "number"@,
        JsonV::Str(_) => "string"@,
        JsonV::Array(_) => "array"@,
        JsonV::Object(_) => "object"@,
        JsonV::Tagged(_, _) => "tagged"@,
    }
}

/// The non-empty string entries of an include or exclude list; anything that
/// is not a list gives the empty list.
pub open spec fn list_entries(raw: Option<JsonV>) -> Seq<Seq<char>> {
    match raw {
        Some(JsonV::Array(items)) => non_empty_strings(items),
        _ => Seq::empty(),
    }
}

pub open spec fn non_empty_strings(items: Seq<JsonV>) -> Seq<Seq<char>>
    decreases items.len(),
{
    if items.len() == 0 {
        Seq::empty()
    } else {
        let rest = non_empty_strings(items.drop_last());
        match items.last() {
            JsonV::Str(s) if s.len() > 0 => rest.push(s),
            _ => rest,
        }
    }
}

/// The mode a YAML mapping asks for.
pub open spec fn yaml_mode(entries: Seq<(Seq<char>, JsonV)>) -> Result<InternalMode, ApcliGroupErrorV> {
    match lookup(entries, "mode"@) {
        None => Ok(InternalMode::Auto),
        Some(JsonV::Null) => Ok(InternalMode::Auto),
        Some(JsonV::Str(s)) => if s == "all"@ {
            Ok(InternalMode::All)
        } else if s == "none"@ {
            Ok(InternalMode::Hidden)
        } else if s == "include"@ {
            Ok(InternalMode::Include)
        } else if s == "exclude"@ {
            Ok(InternalMode::Exclude)
        } else {
            Err(ApcliGroupErrorV::ModeInvalid(s))
        },
        Some(other) => Err(ApcliGroupErrorV::ModeNotString(yaml_type_name_spec(other))),
    }
}

/// `disable_env` (or `disableEnv` when the first is absent); only a boolean
/// counts.
pub open spec fn yaml_disable_env(entries: Seq<(Seq<char>, JsonV)>) -> bool {
    let raw = match lookup(entries, "disable_env"@) {
        Some(v) => Some(v),
        None => lookup(entries, "disableEnv"@),
    };
    match raw {
        Some(JsonV::Bool(b)) => b,
        _ => false,
    }
}

/// Error views.
pub enum ApcliGroupErrorV {
    InvalidShape(Seq<char>),
    ModeNotString(Seq<char>),
    ModeInvalid(Seq<char>),
    InvalidName(Seq<char>),
}

pub open spec fn error_view(e: ApcliGroupError) -> ApcliGroupErrorV {
    match e {
        ApcliGroupError::InvalidShape(s) => ApcliGroupErrorV::InvalidShape(s@),
        ApcliGroupError::ModeNotString(s) => ApcliGroupErrorV::ModeNotString(s@),
        ApcliGroupError::ModeInvalid(s) => ApcliGroupErrorV::ModeInvalid(s@),
        ApcliGroupError::InvalidName(s) => ApcliGroupErrorV::InvalidName(s@),
    }
}

/// What a YAML `apcli` value configures (Tier 3), the name already valid.
pub open spec fn yaml_group(
    value: Option<JsonV>,
    registry_injected: bool,
    name: Seq<char>,
) -> Result<ApcliGroupV, ApcliGroupErrorV> {
    let base = ApcliGroupV {
        mode: InternalMode::Auto,
        included: Seq::empty(),
        exclude: Seq::empty(),
        disable_env: false,
        registry_injected: registry_injected,
        from_cli_config: false,
        name: name,
    };
    match value {
        None => Ok(base),
        Some(JsonV::Null) => Ok(base),
        Some(JsonV::Bool(true)) => Ok(ApcliGroupV { mode: InternalMode::All, ..base }),
        Some(JsonV::Bool(false)) => Ok(ApcliGroupV { mode: InternalMode::Hidden, ..base }),
        Some(JsonV::Object(entries)) => match yaml_mode(entries) {
            Err(e) => Err(e),
            Ok(m) => Ok(
                ApcliGroupV {
                    mode: m,
                    included: list_entries(lookup(entries, "include"@)),
                    exclude: list_entries(lookup(entries, "exclude"@)),
                    disable_env: yaml_disable_env(entries),
                    ..base
                },
            ),
        },
        Some(JsonV::Array(_)) => Err(ApcliGroupErrorV::InvalidShape("array"@)),
        Some(JsonV::Str(_)) => Err(ApcliGroupErrorV::InvalidShape("string"@)),
        Some(JsonV::Number(_)) => Err(ApcliGroupErrorV::InvalidShape("number"@)),
        Some(JsonV::Tagged(_, _)) => Err(ApcliGroupErrorV::InvalidShape("tagged"@)),
    }
}

/// What a programmatic configuration (Tier 1) configures.
pub open spec fn cli_group(
    mode: Option<(ApcliModeV, bool)>,
    registry_injected: bool,
    name: Seq<char>,
) -> ApcliGroupV {
    let base = ApcliGroupV {
        mode: InternalMode::Auto,
        included: Seq::empty(),
        exclude: Seq::empty(),
        disable_env: false,
        registry_injected: registry_injected,
        from_cli_config: true,
        name: name,
    };
    match mode {
        None => base,
        Some((m, de)) => match m {
            ApcliModeV::Auto => ApcliGroupV { disable_env: de, ..base },
            ApcliModeV::All => ApcliGroupV { mode: InternalMode::All, disable_env: de, ..base },
            ApcliModeV::Hidden => ApcliGroupV { mode: InternalMode::Hidden, disable_env: de, ..base },
            ApcliModeV::Include(l) => ApcliGroupV {
                mode: InternalMode::Include,
                included: l,
                disable_env: de,
                ..base
            },
            ApcliModeV::Exclude(l) => ApcliGroupV {
                mode: InternalMode::Exclude,
                exclude: l,
                disable_env: de,
                ..base
            },
        },
    }
}

pub enum ApcliModeV {
    Auto,
    All,
    Hidden,
    Include(Seq<Seq<char>>),
    Exclude(Seq<Seq<char>>),
}

pub open spec fn config_view(c: Option<ApcliConfig>) -> Option<(ApcliModeV, bool)> {
    match c {
        None => None,
        Some(cfg) => Some(
            (
                match cfg.mode {
                    ApcliMode::Auto => ApcliModeV::Auto,
                    ApcliMode::All => ApcliModeV::All,
                    ApcliMode::Hidden => ApcliModeV::Hidden,
                    ApcliMode::Include(l) => ApcliModeV::Include(strings_view(l@)),
                    ApcliMode::Exclude(l) => ApcliModeV::Exclude(strings_view(l@)),
                },
                cfg.disable_env,
            ),
        ),
    }
}

// ---------------------------------------------------------------------------
// Implementation
// ---------------------------------------------------------------------------

/// The YAML type name of a value.
pub fn yaml_type_name(v: &Json) -> (r: &'static str)
    ensures
        r@ == yaml_type_name_spec(v@),
{
    match v {
        Json::Null => "null",
        Json::Bool(_) => "boolean",
        Json::Number(_) => "number",
        Json::Str(_) => "string",
        Json::Array(_) => "array",
        Json::Object(_) => "object",
        Json::Tagged(_, _) => "tagged",
    }
}

fn normalize_list(raw: Option<&Json>) -> (r: Vec<String>)
    ensures
        strings_view(r@) == list_entries(
            match raw {
                Some(v) => Some(v@),
                None => None,
            },
        ),
{
    let mut out: Vec<String> = Vec::new();
    let items = match raw {
        Some(v) => match v.as_array() {
            Some(a) => a,
            None => {
                assert(strings_view(out@) =~= Seq::<Seq<char>>::empty());
                return out;
            },
        },
        None => {
            assert(strings_view(out@) =~= Seq::<Seq<char>>::empty());
            return out;
        },
    };
    let ghost iv = json_seq_view(items@);
    let mut i: usize = 0;
    assert(strings_view(out@) =~= non_empty_strings(iv.take(0)));
    while i < items.len()
        invariant
            0 <= i <= items.len(),
            iv == json_seq_view(items@),
            strings_view(out@) == non_empty_strings(iv.take(i as int)),
        decreases items.len() - i,
    {
        assert(iv.take(i + 1).drop_last() == iv.take(i as int));
        assert(iv.take(i + 1).last() == items@[i as int]@);
        match items[i].as_str() {
            Some(s) => {
                if !s.as_str().is_empty() {
                    let ghost prev = out@;
                    out.push(s.clone());
                    assert(strings_view(out@) =~= strings_view(prev).push(s@));
                }
            },
            None => {},
        }
        i = i + 1;
    }
    assert(iv.take(items.len() as int) == iv);
    out
}

fn entries_lookup<'a>(entries: &'a Vec<(String, Json)>, key: &str) -> (r: Option<&'a Json>)
    ensures
        match r {
            Some(v) => lookup(entries_view(entries@), key@) == Some(v@),
            None => lookup(entries_view(entries@), key@) is None,
        },
{
    crate::json::entries_get(entries, key)
}

impl ApcliGroup {
    fn auto(registry_injected: bool, from_cli_config: bool, name: String) -> (r: Self)
        ensures
            r@ == (ApcliGroupV {
                mode: InternalMode::Auto,
                included: Seq::empty(),
                exclude: Seq::empty(),
                disable_env: false,
                registry_injected: registry_injected,
                from_cli_config: from_cli_config,
                name: name@,
            }),
    {
        let r = ApcliGroup {
            mode: InternalMode::Auto,
            included: Vec::new(),
            exclude: Vec::new(),
            disable_env: false,
            registry_injected,
            from_cli_config,
            name,
        };
        assert(strings_view(r.included@) =~= Seq::<Seq<char>>::empty());
        assert(strings_view(r.exclude@) =~= Seq::<Seq<char>>::empty());
        r
    }

    /// Tier 1 constructor with an explicit name (`None`: the default name).
    pub fn from_cli_config_with_name(
        config: Option<ApcliConfig>,
        registry_injected: bool,
        name: Option<String>,
    ) -> (r: Result<Self, ApcliGroupError>)
        ensures
            ({
                let nm = match name {
                    Some(n) => n@,
                    None => DEFAULT_BUILTIN_GROUP_NAME@,
                };
                match r {
                    Ok(g) => valid_group_name(nm) && g@ == cli_group(
                        config_view(config),
                        registry_injected,
                        nm,
                    ),
                    Err(e) => !valid_group_name(nm) && error_view(e)
                        == ApcliGroupErrorV::InvalidName(nm),
                }
            }),
    {
        let resolved_name = match name {
            Some(n) => n,
            None => owned(DEFAULT_BUILTIN_GROUP_NAME),
        };
        match validate_builtin_group_name(resolved_name.as_str()) {
            Ok(()) => {},
            Err(e) => {
                return Err(e);
            },
        }
        Ok(Self::from_config_named(config, registry_injected, resolved_name))
    }

    /// Tier 1 constructor with the default name.
    pub fn from_cli_config(config: Option<ApcliConfig>, registry_injected: bool) -> (r: Self)
        ensures
            r@ == cli_group(config_view(config), registry_injected, DEFAULT_BUILTIN_GROUP_NAME@),
    {
        Self::from_config_named(config, registry_injected, owned(DEFAULT_BUILTIN_GROUP_NAME))
    }

    fn from_config_named(config: Option<ApcliConfig>, registry_injected: bool, name: String) -> (r: Self)
        ensures
            r@ == cli_group(config_view(config), registry_injected, name@),
    {
        let ghost cv = config_view(config);
        let (mode, included, exclude, disable_env) = match config {
            None => (InternalMode::Auto, Vec::new(), Vec::new(), false),
            Some(cfg) => {
                let de = cfg.disable_env;
                match cfg.mode {
                    ApcliMode::Auto => (InternalMode::Auto, Vec::new(), Vec::new(), de),
                    ApcliMode::All => (InternalMode::All, Vec::new(), Vec::new(), de),
                    ApcliMode::Hidden => (InternalMode::Hidden, Vec::new(), Vec::new(), de),
                    ApcliMode::Include(list) => (InternalMode::Include, list, Vec::new(), de),
                    ApcliMode::Exclude(list) => (InternalMode::Exclude, Vec::new(), list, de),
                }
            },
        };
        let r = ApcliGroup {
            mode,
            included,
            exclude,
            disable_env,
            registry_injected,
            from_cli_config: true,
            name,
        };
        proof {
            if r.included@.len() == 0 {
                assert(strings_view(r.included@) =~= Seq::<Seq<char>>::empty());
            }
            if r.exclude@.len() == 0 {
                assert(strings_view(r.exclude@) =~= Seq::<Seq<char>>::empty());
            }
        }
        assert(r@ =~= cli_group(cv, registry_injected, r.name@));
        r
    }

    /// Tier 3 constructor with the default name; a refused configuration is
    /// returned as the error.
    pub fn try_from_yaml(yaml_value: Option<Json>, registry_injected: bool) -> (r: Result<
        Self,
        ApcliGroupError,
    >)
        ensures
            ({
                let v = match yaml_value {
                    Some(j) => Some(j@),
                    None => None,
                };
                match r {
                    Ok(g) => valid_group_name(DEFAULT_BUILTIN_GROUP_NAME@) && yaml_group(
                        v,
                        registry_injected,
                        DEFAULT_BUILTIN_GROUP_NAME@,
                    ) == Ok::<ApcliGroupV, ApcliGroupErrorV>(g@),
                    Err(e) => if valid_group_name(DEFAULT_BUILTIN_GROUP_NAME@) {
                        yaml_group(v, registry_injected, DEFAULT_BUILTIN_GROUP_NAME@) == Err::<
                            ApcliGroupV,
                            ApcliGroupErrorV,
                        >(error_view(e))
                    } else {
                        error_view(e) == ApcliGroupErrorV::InvalidName(
                            DEFAULT_BUILTIN_GROUP_NAME@,
                        )
                    },
                }
            }),
    {
        Self::try_from_yaml_with_name(yaml_value, registry_injected, None)
    }

    /// Tier 3 constructor: the `apcli` value of `apcore.yaml` (absent or
    /// null: auto; `true`/`false`: all/none; a mapping: `mode`, the include list,
    /// `exclude`, `disable_env`). Any other shape, a non-string or unknown
    /// `mode`, or an invalid name is refused.
    pub fn try_from_yaml_with_name(
        yaml_value: Option<Json>,
        registry_injected: bool,
        name: Option<String>,
    ) -> (r: Result<Self, ApcliGroupError>)
        ensures
            ({
                let nm = match name {
                    Some(n) => n@,
                    None => DEFAULT_BUILTIN_GROUP_NAME@,
                };
                let v = match yaml_value {
                    Some(j) => Some(j@),
                    None => None,
                };
                match r {
                    Ok(g) => valid_group_name(nm) && yaml_group(v, registry_injected, nm) == Ok::<
                        ApcliGroupV,
                        ApcliGroupErrorV,
                    >(g@),
                    Err(e) => if valid_group_name(nm) {
                        yaml_group(v, registry_injected, nm) == Err::<
                            ApcliGroupV,
                            ApcliGroupErrorV,
                        >(error_view(e))
                    } else {
                        error_view(e) == ApcliGroupErrorV::InvalidName(nm)
                    },
                }
            }),
    {
        let resolved_name = match name {
            Some(n) => n,
            None => owned(DEFAULT_BUILTIN_GROUP_NAME),
        };
        match validate_builtin_group_name(resolved_name.as_str()) {
            Ok(()) => {},
            Err(e) => {
                return Err(e);
            },
        }
        let value = match yaml_value {
            None => {
                return Ok(Self::auto(registry_injected, false, resolved_name));
            },
            Some(v) => v,
        };
        let ghost vv = value@;
        match value {
            Json::Null => Ok(Self::auto(registry_injected, false, resolved_name)),
            Json::Bool(b) => {
                let mut g = Self::auto(registry_injected, false, resolved_name);
                g.mode = if b {
                    InternalMode::All
                } else {
                    InternalMode::Hidden
                };
                Ok(g)
            },
            Json::Object(entries) => {
                proof {
                    crate::json::lemma_object_view(&entries);
                }
                Self::build_from_mapping(&entries, registry_injected, resolved_name)
            },
            Json::Array(_) => Err(ApcliGroupError::InvalidShape(owned("array"))),
            Json::Str(_) => Err(ApcliGroupError::InvalidShape(owned("string"))),
            Json::Number(_) => Err(ApcliGroupError::InvalidShape(owned("number"))),
            Json::Tagged(_, _) => Err(ApcliGroupError::InvalidShape(owned("tagged"))),
        }
    }

    fn build_from_mapping(
        entries: &Vec<(String, Json)>,
        registry_injected: bool,
        name: String,
    ) -> (r: Result<Self, ApcliGroupError>)
        ensures
            match r {
                Ok(g) => yaml_group(
                    Some(JsonV::Object(entries_view(entries@))),
                    registry_injected,
                    name@,
                ) == Ok::<ApcliGroupV, ApcliGroupErrorV>(g@),
                Err(e) => yaml_group(
                    Some(JsonV::Object(entries_view(entries@))),
                    registry_injected,
                    name@,
                ) == Err::<ApcliGroupV, ApcliGroupErrorV>(error_view(e)),
            },
    {
        let ghost ev = entries_view(entries@);
        let mode = match entries_lookup(entries, "mode") {
            None => InternalMode::Auto,
            Some(Json::Null) => InternalMode::Auto,
            Some(Json::Str(s)) => {
                if str_eq(s.as_str(), "all") {
                    InternalMode::All
                } else if str_eq(s.as_str(), "none") {
                    InternalMode::Hidden
                } else if str_eq(s.as_str(), "include") {
                    InternalMode::Include
                } else if str_eq(s.as_str(), "exclude") {
                    InternalMode::Exclude
                } else {
                    return Err(ApcliGroupError::ModeInvalid(s.clone()));
                }
            },
            Some(other) => {
                return Err(ApcliGroupError::ModeNotString(owned(yaml_type_name(other))));
            },
        };
        let included = normalize_list(entries_lookup(entries, "include"));
        let exclude = normalize_list(entries_lookup(entries, "exclude"));
        let raw_disable_env = match entries_lookup(entries, "disable_env") {
            Some(v) => Some(v),
            None => entries_lookup(entries, "disableEnv"),
        };
        let disable_env = match raw_disable_env {
            Some(v) => match v.as_bool() {
                Some(b) => b,
                None => false,
            },
            None => false,
        };
        let g = ApcliGroup {
            mode,
            included,
            exclude,
            disable_env,
            registry_injected,
            from_cli_config: false,
            name,
        };
        Ok(g)
    }

    /// Tier 2: what an `APCORE_CLI_APCLI` value asks for (`None`: unset).
    pub fn parse_env(raw: Option<&str>) -> (r: Option<&'static str>)
        ensures
            match r {
                Some(s) => env_mode(
                    match raw {
                        Some(x) => Some(x@),
                        None => None,
                    },
                ) == Some(s@),
                None => env_mode(
                    match raw {
                        Some(x) => Some(x@),
                        None => None,
                    },
                ) is None,
            },
    {
        let raw = match raw {
            Some(x) => x,
            None => {
                return None;
            },
        };
        if raw.is_empty() {
            return None;
        }
        let trimmed = trim(raw);
        if trimmed.as_str().is_empty() {
            return None;
        }
        let normalized = to_lowercase(trimmed.as_str());
        let n = normalized.as_str();
        if str_eq(n, "show") || str_eq(n, "1") || str_eq(n, "true") {
            Some("all")
        } else if str_eq(n, "hide") || str_eq(n, "0") || str_eq(n, "false") {
            Some("none")
        } else {
            None
        }
    }

    /// The effective visibility after the four-tier precedence, `env` being
    /// the value of `APCORE_CLI_APCLI` (`None` when unset). Never `auto`.
    pub fn resolve_visibility(&self, env: Option<&str>) -> (r: &'static str)
        ensures
            r@ == visibility(
                self@,
                match env {
                    Some(x) => Some(x@),
                    None => None,
                },
            ),
    {
        if self.from_cli_config && self.mode != InternalMode::Auto {
            return self.mode.as_str();
        }
        if !self.disable_env {
            match Self::parse_env(env) {
                Some(m) => {
                    return m;
                },
                None => {},
            }
        }
        if self.mode != InternalMode::Auto {
            return self.mode.as_str();
        }
        if self.registry_injected {
            "none"
        } else {
            "all"
        }
    }

    /// Whether `subcommand` passes the include/exclude filter. Only
    /// meaningful under the `include` and `exclude` visibilities.
    pub fn is_subcommand_included(&self, subcommand: &str, env: Option<&str>) -> (r: bool)
        requires
            ({
                let v = visibility(
                    self@,
                    match env {
                        Some(x) => Some(x@),
                        None => None,
                    },
                );
                v == "include"@ || v == "exclude"@
            }),
        ensures
            ({
                let v = visibility(
                    self@,
                    match env {
                        Some(x) => Some(x@),
                        None => None,
                    },
                );
                &&& v == "include"@ ==> r == self@.included.contains(subcommand@)
                &&& v == "exclude"@ ==> r == !self@.exclude.contains(subcommand@)
            }),
    {
        let mode = self.resolve_visibility(env);
        proof {
            reveal_strlit("include");
            reveal_strlit("exclude");
        }
        let ghost v = visibility(
            self@,
            match env {
                Some(x) => Some(x@),
                None => None,
            },
        );
        assert(mode@ == v);
        if str_eq(mode, "include") {
            let r = string_in(subcommand, &self.included);
            proof {
                lemma_contains_strings(self.included@, subcommand@, r);
                reveal_strlit("include");
                reveal_strlit("exclude");
                assert("include"@[0] != "exclude"@[0]);
                assert(v == "include"@);
            }
            r
        } else {
            let r = string_in(subcommand, &self.exclude);
            proof {
                lemma_contains_strings(self.exclude@, subcommand@, r);
            }
            !r
        }
    }

    /// Whether the group itself appears in the root help.
    pub fn is_group_visible(&self, env: Option<&str>) -> (r: bool)
        ensures
            r == (visibility(
                self@,
                match env {
                    Some(x) => Some(x@),
                    None => None,
                },
            ) != "none"@),
    {
        let v = self.resolve_visibility(env);
        !str_eq(v, "none")
    }

    /// The effective include list: the configured list when the resolved
    /// visibility is `include`, empty otherwise. `env` is the value of
    /// `APCORE_CLI_APCLI` (`None` when unset).
    pub fn included(&self, env: Option<&str>) -> (r: Vec<String>)
        ensures
            strings_view(r@) == if visibility(self@, opt_str(env)) == "include"@ {
                self@.included
            } else {
                Seq::empty()
            },
    {
        let v = self.resolve_visibility(env);
        proof {
            assert(opt_str(env) == match env {
                Some(x) => Some(x@),
                None => None,
            });
        }
        if str_eq(v, "include") {
            crate::text::copy_strings(&self.included)
        } else {
            let r: Vec<String> = Vec::new();
            assert(strings_view(r@) =~= Seq::<Seq<char>>::empty());
            r
        }
    }

    /// The effective exclude list: the configured list when the resolved
    /// visibility is `exclude`, empty otherwise.
    pub fn exclude(&self, env: Option<&str>) -> (r: Vec<String>)
        ensures
            strings_view(r@) == if visibility(self@, opt_str(env)) == "exclude"@ {
                self@.exclude
            } else {
                Seq::empty()
            },
    {
        let v = self.resolve_visibility(env);
        if str_eq(v, "exclude") {
            crate::text::copy_strings(&self.exclude)
        } else {
            let r: Vec<String> = Vec::new();
            assert(strings_view(r@) =~= Seq::<Seq<char>>::empty());
            r
        }
    }

    /// Whether the Tier 2 environment lookup is sealed.
    pub fn disable_env(&self) -> (r: bool)
        ensures
            r == self@.disable_env,
    {
        self.disable_env
    }

    /// The group's name.
    pub fn name(&self) -> (r: &str)
        ensures
            r@ == self@.name,
    {
        self.name.as_str()
    }
}

proof fn lemma_contains_strings(v: Seq<String>, s: Seq<char>, r: bool)
    requires
        r == exists|i: int| 0 <= i < v.len() && v[i]@ == s,
    ensures
        r == strings_view(v).contains(s),
{
    if r {
        let m = choose|i: int| 0 <= i < v.len() && v[i]@ == s;
        assert(strings_view(v)[m] == s);
    } else {
        assert forall|i: int| 0 <= i < strings_view(v).len() implies strings_view(v)[i] != s by {
            assert(v[i]@ != s);
        }
    }
}


// ---------------------------------------------------------------------------
// Laws
// ---------------------------------------------------------------------------

/// A mode set programmatically (other than auto-detect) wins over the
/// environment: the visibility is the same whatever `APCORE_CLI_APCLI` says.
pub proof fn lemma_programmatic_mode_ignores_env(g: ApcliGroupV, e1: Option<Seq<char>>, e2: Option<Seq<char>>)
    requires
        g.from_cli_config,
        g.mode != InternalMode::Auto,
    ensures
        visibility(g, e1) == visibility(g, e2),
        visibility(g, e1) == mode_text(g.mode),
{
}

/// With `disable_env` the environment is never consulted.
pub proof fn lemma_sealed_group_ignores_env(g: ApcliGroupV, e1: Option<Seq<char>>, e2: Option<Seq<char>>)
    requires
        g.disable_env,
    ensures
        visibility(g, e1) == visibility(g, e2),
{
}

/// The effective visibility is never `auto`: it is one of `all`, `none`,
/// `include`, `exclude`.
pub proof fn lemma_visibility_is_resolved(g: ApcliGroupV, env: Option<Seq<char>>)
    ensures
        ({
            let v = visibility(g, env);
            v == "all"@ || v == "none"@ || v == "include"@ || v == "exclude"@
        }),
{
}

} // verus!
