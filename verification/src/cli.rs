//! Dispatch decisions for module commands: module-ID validation, error-code
//! mapping, input collection and merging, schema `required` checks, boolean
//! flag reconciliation, and the structured error and trace payloads.
//!
//! The command-line parser, standard input, files, the executor and the
//! clock stay with the caller; what they yield is handed to these functions
//! as plain values.
use vstd::prelude::*;
use crate::json::{
    Json, JsonV, JsonNumber, lookup, entries_view, entries_insert, json_seq_view, get_array,
    get_str, get_object, get_bool, json_text, json_parse, parse_json_bytes,
    entries_set, entries_get, lemma_lookup_insert, lemma_object_view, lemma_array_view,
};
use crate::text::{
    owned, concat3, str_eq, chars_of, utf8_len, utf8_len_exceeds, is_ascii_lower, is_ascii_digit,
    char_is_ascii_lower, char_is_ascii_digit, usize_to_string, parse_u64, parse_u64_spec,
    has_prefix, starts_with, push_str, decimal_int,
};
use crate::ref_resolver::RefResolverError;
use crate::schema_parser::{BoolFlagPair, SchemaArgs, ArgSpec};

use crate::text::{strings_view};

verus! {

// ---------------------------------------------------------------------------
// Errors
// ---------------------------------------------------------------------------

/// Errors produced by dispatch operations.
#[derive(Debug)]
pub enum CliError {
    InvalidModuleId(String),
    ReservedModuleId(String),
    StdinRead(String),
    JsonParse(String),
    InputTooLarge { limit: usize, actual: usize },
    NotAnObject,
    SchemaRefResolution { module_id: String, source: RefResolverError },
}

/// The text of a [`CliError`].
pub open spec fn cli_error_text(e: CliError) -> Seq<char> {
    match e {
        CliError::InvalidModuleId(s) => "invalid module id: "@ + s@,
        CliError::ReservedModuleId(s) => "reserved module id: '"@ + s@
            + "' conflicts with a built-in command name"@,
        CliError::StdinRead(s) => "stdin read error: "@ + s@,
        CliError::JsonParse(s) => "json parse error: "@ + s@,
        CliError::InputTooLarge { limit, actual } => "input too large (limit "@
            + crate::text::decimal(limit as nat) + " bytes, got "@ + crate::text::decimal(
            actual as nat,
        ) + " bytes)"@,
        CliError::NotAnObject => "expected JSON object, got a different type"@,
        CliError::SchemaRefResolution { module_id, source } =>
            "schema $ref resolution failed for module '"@ + module_id@ + "': "@
            + crate::ref_resolver::ref_error_text(source),
    }
}

impl CliError {
    /// The exit code: 48 for `$ref` resolution failures, 2 otherwise.
    pub fn exit_code(&self) -> (r: i32)
        ensures
            r == match self {
                CliError::SchemaRefResolution { .. } => crate::EXIT_SCHEMA_CIRCULAR_REF,
                _ => crate::EXIT_INVALID_INPUT,
            },
    {
        match self {
            CliError::SchemaRefResolution { .. } => crate::EXIT_SCHEMA_CIRCULAR_REF,
            _ => crate::EXIT_INVALID_INPUT,
        }
    }

    /// The error's message.
    pub fn message(&self) -> (r: String)
        ensures
            r@ == cli_error_text(*self),
    {
        match self {
            CliError::InvalidModuleId(s) => crate::text::concat2("invalid module id: ", s.as_str()),
            CliError::ReservedModuleId(s) => concat3(
                "reserved module id: '",
                s.as_str(),
                "' conflicts with a built-in command name",
            ),
            CliError::StdinRead(s) => crate::text::concat2("stdin read error: ", s.as_str()),
            CliError::JsonParse(s) => crate::text::concat2("json parse error: ", s.as_str()),
            CliError::InputTooLarge { limit, actual } => {
                let mut r = owned("input too large (limit ");
                push_str(&mut r, usize_to_string(*limit).as_str());
                push_str(&mut r, " bytes, got ");
                push_str(&mut r, usize_to_string(*actual).as_str());
                push_str(&mut r, " bytes)");
                r
            },
            CliError::NotAnObject => owned("expected JSON object, got a different type"),
            CliError::SchemaRefResolution { module_id, source } => {
                let mut r = owned("schema $ref resolution failed for module '");
                push_str(&mut r, module_id.as_str());
                push_str(&mut r, "': ");
                let t = source.message();
                push_str(&mut r, t.as_str());
                r
            },
        }
    }
}

// ---------------------------------------------------------------------------
// Module IDs
// ---------------------------------------------------------------------------

/// Maximum length, in bytes, of a module ID.
pub const MODULE_ID_MAX_LEN: usize = 192;

/// A character allowed inside a module ID segment.
pub open spec fn id_body_char(c: char) -> bool {
    is_ascii_lower(c) || is_ascii_digit(c) || c == '_'
}

/// `^[a-z][a-z0-9_]*(\.[a-z][a-z0-9_]*)*$`: dot-separated, non-empty
/// segments, each a lowercase letter followed by lowercase letters, digits
/// and underscores.
pub open spec fn valid_module_id(s: Seq<char>) -> bool {
    &&& s.len() > 0
    &&& is_ascii_lower(s[0])
    &&& s.last() != '.'
    &&& forall|i: int| 0 <= i < s.len() ==> id_body_char(#[trigger] s[i]) || s[i] == '.'
    &&& forall|i: int| 1 <= i < s.len() && s[i - 1] == '.' ==> is_ascii_lower(#[trigger] s[i])
}

/// Whether `s` is a well-formed module ID (length aside).
pub fn is_valid_module_id(s: &str) -> (r: bool)
    ensures
        r == valid_module_id(s@),
{
    let cs = chars_of(s);
    if cs.len() == 0 {
        return false;
    }
    if !char_is_ascii_lower(cs[0]) {
        return false;
    }
    if cs[cs.len() - 1] == '.' {
        return false;
    }
    let mut i: usize = 0;
    while i < cs.len()
        invariant
            cs@ == s@,
            0 <= i <= cs.len(),
            cs.len() > 0,
            is_ascii_lower(cs@[0]),
            forall|k: int| 0 <= k < i ==> id_body_char(#[trigger] cs@[k]) || cs@[k] == '.',
            forall|k: int| 1 <= k < i && cs@[k - 1] == '.' ==> is_ascii_lower(#[trigger] cs@[k]),
        decreases cs.len() - i,
    {
        let c = cs[i];
        if !(char_is_ascii_lower(c) || char_is_ascii_digit(c) || c == '_' || c == '.') {
            return false;
        }
        if i > 0 && cs[i - 1] == '.' && !char_is_ascii_lower(c) {
            return false;
        }
        i = i + 1;
    }
    true
}

/// What [`validate_module_id`] decides.
pub enum ModuleIdCheck {
    Valid,
    TooLong,
    BadFormat,
}

pub open spec fn module_id_check(s: Seq<char>) -> ModuleIdCheck {
    if utf8_len(s) > MODULE_ID_MAX_LEN {
        ModuleIdCheck::TooLong
    } else if !valid_module_id(s) {
        ModuleIdCheck::BadFormat
    } else {
        ModuleIdCheck::Valid
    }
}

/// Validate a module identifier: at most 192 bytes and of the shape
/// [`valid_module_id`] describes.
pub fn validate_module_id(module_id: &str) -> (r: Result<(), CliError>)
    ensures
        match module_id_check(module_id@) {
            ModuleIdCheck::Valid => r is Ok,
            ModuleIdCheck::TooLong => r matches Err(CliError::InvalidModuleId(m)) && m@
                == "Invalid module ID format: '"@ + module_id@
                + "'. Maximum length is 192 characters."@,
            ModuleIdCheck::BadFormat => r matches Err(CliError::InvalidModuleId(m)) && m@
                == "Invalid module ID format: '"@ + module_id@ + "'."@,
        },
{
    let cs = chars_of(module_id);
    if utf8_len_exceeds(&cs, MODULE_ID_MAX_LEN) {
        return Err(
            CliError::InvalidModuleId(
                concat3(
                    "Invalid module ID format: '",
                    module_id,
                    "'. Maximum length is 192 characters.",
                ),
            ),
        );
    }
    if !is_valid_module_id(module_id) {
        return Err(
            CliError::InvalidModuleId(concat3("Invalid module ID format: '", module_id, "'.")),
        );
    }
    Ok(())
}

// ---------------------------------------------------------------------------
// Error-code mapping
// ---------------------------------------------------------------------------

/// The exit code for an apcore error code.
pub open spec fn exit_code_for(code: Seq<char>) -> i32 {
    if code == "MODULE_NOT_FOUND"@ || code == "MODULE_LOAD_ERROR"@ || code == "MODULE_DISABLED"@ {
        crate::EXIT_MODULE_NOT_FOUND
    } else if code == "SCHEMA_VALIDATION_ERROR"@ {
        crate::EXIT_SCHEMA_VALIDATION_ERROR
    } else if code == "APPROVAL_DENIED"@ || code == "APPROVAL_TIMEOUT"@ || code
        == "APPROVAL_PENDING"@ {
        crate::EXIT_APPROVAL_DENIED
    } else if code == "CONFIG_NOT_FOUND"@ || code == "CONFIG_INVALID"@ {
        crate::EXIT_CONFIG_NOT_FOUND
    } else if code == "SCHEMA_CIRCULAR_REF"@ {
        crate::EXIT_SCHEMA_CIRCULAR_REF
    } else if code == "ACL_DENIED"@ {
        crate::EXIT_ACL_DENIED
    } else if code == "CONFIG_NAMESPACE_RESERVED"@ || code == "CONFIG_NAMESPACE_DUPLICATE"@ || code
        == "CONFIG_ENV_PREFIX_CONFLICT"@ || code == "CONFIG_ENV_MAP_CONFLICT"@ {
        crate::EXIT_CONFIG_NAMESPACE_RESERVED
    } else if code == "CONFIG_MOUNT_ERROR"@ {
        crate::EXIT_CONFIG_MOUNT_ERROR
    } else if code == "CONFIG_BIND_ERROR"@ {
        crate::EXIT_CONFIG_BIND_ERROR
    } else if code == "ERROR_FORMATTER_DUPLICATE"@ {
        crate::EXIT_ERROR_FORMATTER_DUPLICATE
    } else {
        crate::EXIT_MODULE_EXECUTE_ERROR
    }
}

/// Map an apcore error code string to the CLI exit code.
pub fn map_apcore_error_to_exit_code(error_code: &str) -> (r: i32)
    ensures
        r == exit_code_for(error_code@),
{
    let c = error_code;
    if str_eq(c, "MODULE_NOT_FOUND") || str_eq(c, "MODULE_LOAD_ERROR") || str_eq(
        c,
        "MODULE_DISABLED",
    ) {
        crate::EXIT_MODULE_NOT_FOUND
    } else if str_eq(c, "SCHEMA_VALIDATION_ERROR") {
        crate::EXIT_SCHEMA_VALIDATION_ERROR
    } else if str_eq(c, "APPROVAL_DENIED") || str_eq(c, "APPROVAL_TIMEOUT") || str_eq(
        c,
        "APPROVAL_PENDING",
    ) {
        crate::EXIT_APPROVAL_DENIED
    } else if str_eq(c, "CONFIG_NOT_FOUND") || str_eq(c, "CONFIG_INVALID") {
        crate::EXIT_CONFIG_NOT_FOUND
    } else if str_eq(c, "SCHEMA_CIRCULAR_REF") {
        crate::EXIT_SCHEMA_CIRCULAR_REF
    } else if str_eq(c, "ACL_DENIED") {
        crate::EXIT_ACL_DENIED
    } else if str_eq(c, "CONFIG_NAMESPACE_RESERVED") || str_eq(c, "CONFIG_NAMESPACE_DUPLICATE")
        || str_eq(c, "CONFIG_ENV_PREFIX_CONFLICT") || str_eq(c, "CONFIG_ENV_MAP_CONFLICT") {
        crate::EXIT_CONFIG_NAMESPACE_RESERVED
    } else if str_eq(c, "CONFIG_MOUNT_ERROR") {
        crate::EXIT_CONFIG_MOUNT_ERROR
    } else if str_eq(c, "CONFIG_BIND_ERROR") {
        crate::EXIT_CONFIG_BIND_ERROR
    } else if str_eq(c, "ERROR_FORMATTER_DUPLICATE") {
        crate::EXIT_ERROR_FORMATTER_DUPLICATE
    } else {
        crate::EXIT_MODULE_EXECUTE_ERROR
    }
}

// ---------------------------------------------------------------------------
// Input collection
// ---------------------------------------------------------------------------

/// Largest standard-input payload accepted without `--large-input`.
pub const STDIN_SIZE_LIMIT_BYTES: usize = 10485760;

/// Where JSON input comes from.
pub enum InputSource {
    /// No JSON input: CLI keyword arguments only.
    NoInput,
    /// Standard input.
    Stdin,
    /// The file at this path.
    File(String),
}

/// The input source an `--input` value names: none (or empty) for no
/// input, `-` for standard input, anything else a file path.
pub fn input_source(stdin_flag: Option<&str>) -> (r: InputSource)
    ensures
        match stdin_flag {
            None => r is NoInput,
            Some(f) => if f@.len() == 0 {
                r is NoInput
            } else if f@ == "-"@ {
                r is Stdin
            } else {
                r matches InputSource::File(p) && p@ == f@
            },
        },
{
    match stdin_flag {
        None => InputSource::NoInput,
        Some(f) => {
            if f.is_empty() {
                InputSource::NoInput
            } else if str_eq(f, "-") {
                InputSource::Stdin
            } else {
                InputSource::File(owned(f))
            }
        },
    }
}

/// The entries whose value is not `null`, in order.
pub open spec fn non_null(entries: Seq<(Seq<char>, JsonV)>) -> Seq<(Seq<char>, JsonV)>
    decreases entries.len(),
{
    if entries.len() == 0 {
        Seq::empty()
    } else {
        let r = non_null(entries.drop_last());
        if entries.last().1 is Null {
            r
        } else {
            r.push(entries.last())
        }
    }
}

/// Drop the `null` values from the CLI keyword arguments.
pub fn non_null_kwargs(cli_kwargs: Vec<(String, Json)>) -> (r: Vec<(String, Json)>)
    ensures
        entries_view(r@) == non_null(entries_view(cli_kwargs@)),
{
    let ghost cv = entries_view(cli_kwargs@);
    let mut out: Vec<(String, Json)> = Vec::new();
    let mut rest = cli_kwargs;
    let ghost orig = rest@;
    assert(entries_view(out@) =~= non_null(cv.take(0)));
    let mut i: usize = 0;
    let n = rest.len();
    while rest.len() > 0
        invariant
            n == orig.len(),
            i + rest.len() == n,
            rest@ == orig.skip(i as int),
            cv == entries_view(orig),
            entries_view(out@) == non_null(cv.take(i as int)),
        decreases rest.len(),
    {
        let e = rest.remove(0);
        assert(e == orig[i as int]);
        assert(rest@ =~= orig.skip(i + 1));
        assert(cv.take(i + 1).drop_last() == cv.take(i as int));
        assert(cv.take(i + 1).last() == (e.0@, e.1@));
        if !e.1.is_null() {
            let ghost prev = out@;
            out.push(e);
            assert(entries_view(out@) =~= entries_view(prev).push((out@[prev.len() as int].0@, out@[prev.len() as int].1@)));
        }
        i = i + 1;
    }
    assert(cv.take(n as int) == cv);
    out
}

/// Check the size of a standard-input payload.
pub fn check_stdin_size(len: usize, large_input: bool) -> (r: Result<(), CliError>)
    ensures
        (!large_input && len > STDIN_SIZE_LIMIT_BYTES) ==> (r matches Err(
            CliError::InputTooLarge { limit, actual },
        ) && limit == STDIN_SIZE_LIMIT_BYTES && actual == len),
        !(!large_input && len > STDIN_SIZE_LIMIT_BYTES) ==> r is Ok,
{
    if !large_input && len > STDIN_SIZE_LIMIT_BYTES {
        return Err(CliError::InputTooLarge { limit: STDIN_SIZE_LIMIT_BYTES, actual: len });
    }
    Ok(())
}

/// What to do with a JSON input payload of `len` bytes.
#[derive(Debug)]
pub enum StdinStep {
    /// Refuse it.
    Reject(CliError),
    /// An empty payload: use the CLI keyword arguments alone.
    CliOnly,
    /// Parse it as JSON and merge it with the CLI keyword arguments.
    Parse,
}

/// Decide on a JSON input payload by its size: over the limit (without
/// `--large-input`) it is refused, empty it is skipped, else it is parsed.
pub fn stdin_step(len: usize, large_input: bool) -> (r: StdinStep)
    ensures
        (!large_input && len > STDIN_SIZE_LIMIT_BYTES) ==> (r matches StdinStep::Reject(
            CliError::InputTooLarge { limit, actual },
        ) && limit == STDIN_SIZE_LIMIT_BYTES && actual == len),
        !(!large_input && len > STDIN_SIZE_LIMIT_BYTES) && len == 0 ==> r is CliOnly,
        !(!large_input && len > STDIN_SIZE_LIMIT_BYTES) && len > 0 ==> r is Parse,
{
    match check_stdin_size(len, large_input) {
        Err(e) => StdinStep::Reject(e),
        Ok(()) => {
            if len == 0 {
                StdinStep::CliOnly
            } else {
                StdinStep::Parse
            }
        },
    }
}

/// Finish collecting input from a parsed payload: a parse failure is a
/// `JsonParse` error, a payload that is not an object is refused, and an
/// object is merged with the CLI keyword arguments (which win).
pub fn finish_collect(cli_non_null: Vec<(String, Json)>, parsed: Result<Json, String>) -> (r: Result<
    Vec<(String, Json)>,
    CliError,
>)
    ensures
        match parsed {
            Err(d) => r matches Err(CliError::JsonParse(m)) && m@ == d@,
            Ok(v) => match v@ {
                JsonV::Object(base) => r matches Ok(m) && entries_view(m@) == merge_entries(
                    base,
                    entries_view(cli_non_null@),
                ),
                _ => r matches Err(CliError::NotAnObject),
            },
        },
{
    match parsed {
        Err(d) => Err(CliError::JsonParse(d)),
        Ok(v) => merge_stdin_input(cli_non_null, v),
    }
}

/// Collect a module's input from the bytes of its JSON input (read from
/// standard input or a file) and its CLI keyword arguments: `null` arguments
/// are dropped; a payload over [`STDIN_SIZE_LIMIT_BYTES`] without
/// `large_input` is refused; an empty payload leaves the arguments alone;
/// otherwise the payload is parsed as JSON, must be an object, and is merged
/// with the arguments, which win on a shared key.
pub fn collect_input_from_bytes(bytes: &[u8], cli_kwargs: Vec<(String, Json)>, large_input: bool) -> (r:
    Result<Vec<(String, Json)>, CliError>)
    ensures
        ({
            let cli = non_null(entries_view(cli_kwargs@));
            let len = bytes@.len();
            &&& (!large_input && len > STDIN_SIZE_LIMIT_BYTES) ==> (r matches Err(
                CliError::InputTooLarge { limit, actual },
            ) && limit == STDIN_SIZE_LIMIT_BYTES && actual == len)
            &&& (!(!large_input && len > STDIN_SIZE_LIMIT_BYTES) && len == 0) ==> (r matches Ok(m)
                && entries_view(m@) == cli)
            &&& (!(!large_input && len > STDIN_SIZE_LIMIT_BYTES) && len > 0) ==> match json_parse(
                bytes@,
            ) {
                Err(d) => r matches Err(CliError::JsonParse(m)) && m@ == d,
                Ok(JsonV::Object(base)) => r matches Ok(m) && entries_view(m@) == merge_entries(base, cli),
                Ok(_) => r matches Err(CliError::NotAnObject),
            }
        }),
{
    let cli = non_null_kwargs(cli_kwargs);
    match stdin_step(bytes.len(), large_input) {
        StdinStep::Reject(e) => Err(e),
        StdinStep::CliOnly => Ok(cli),
        StdinStep::Parse => finish_collect(cli, parse_json_bytes(bytes)),
    }
}

/// `base` with each entry of `over` inserted in turn (a later value wins).
pub open spec fn merge_entries(
    base: Seq<(Seq<char>, JsonV)>,
    over: Seq<(Seq<char>, JsonV)>,
) -> Seq<(Seq<char>, JsonV)>
    decreases over.len(),
{
    if over.len() == 0 {
        base
    } else {
        entries_insert(merge_entries(base, over.drop_last()), over.last().0, over.last().1)
    }
}

/// No key occurs twice.
pub open spec fn unique_keys(entries: Seq<(Seq<char>, JsonV)>) -> bool {
    forall|i: int, j: int| 0 <= i < j < entries.len() ==> entries[i].0 != entries[j].0
}

/// Merge standard-input JSON (the base) with the CLI keyword arguments (which
/// win on a shared key). The JSON must be an object.
pub fn merge_stdin_input(cli_non_null: Vec<(String, Json)>, stdin_value: Json) -> (r: Result<
    Vec<(String, Json)>,
    CliError,
>)
    ensures
        match stdin_value@ {
            JsonV::Object(base) => r matches Ok(m) && entries_view(m@) == merge_entries(
                base,
                entries_view(cli_non_null@),
            ),
            _ => r matches Err(CliError::NotAnObject),
        },
{
    let mut merged = match stdin_value {
        Json::Object(entries) => {
            proof {
                lemma_object_view(&entries);
            }
            entries
        },
        _ => {
            return Err(CliError::NotAnObject);
        },
    };
    let ghost base = entries_view(merged@);
    let ghost ov = entries_view(cli_non_null@);
    let mut rest = cli_non_null;
    let ghost orig = rest@;
    let n = rest.len();
    let mut i: usize = 0;
    assert(ov.take(0) =~= Seq::<(Seq<char>, JsonV)>::empty());
    while rest.len() > 0
        invariant
            n == orig.len(),
            i + rest.len() == n,
            rest@ == orig.skip(i as int),
            ov == entries_view(orig),
            entries_view(merged@) == merge_entries(base, ov.take(i as int)),
        decreases rest.len(),
    {
        let e = rest.remove(0);
        assert(e == orig[i as int]);
        assert(rest@ =~= orig.skip(i + 1));
        assert(ov.take(i + 1).drop_last() == ov.take(i as int));
        assert(ov.take(i + 1).last() == (e.0@, e.1@));
        entries_set(&mut merged, e.0, e.1);
        i = i + 1;
    }
    assert(ov.take(n as int) == ov);
    Ok(merged)
}

/// The law of input merging: a key given on the command line takes the
/// command line's value; any other key keeps the standard-input value.
pub proof fn lemma_cli_overrides_stdin(
    base: Seq<(Seq<char>, JsonV)>,
    over: Seq<(Seq<char>, JsonV)>,
    k: Seq<char>,
)
    requires
        unique_keys(over),
    ensures
        lookup(merge_entries(base, over), k) == match lookup(over, k) {
            Some(v) => Some(v),
            None => lookup(base, k),
        },
    decreases over.len(),
{
    if over.len() > 0 {
        let init = over.drop_last();
        assert(unique_keys(init)) by {
            assert forall|i: int, j: int| 0 <= i < j < init.len() implies init[i].0 != init[j].0 by {
                assert(init[i] == over[i] && init[j] == over[j]);
            }
        }
        lemma_cli_overrides_stdin(base, init, k);
        lemma_lookup_insert(merge_entries(base, init), over.last().0, over.last().1, k);
        crate::json::lemma_key_index(over, k);
        crate::json::lemma_key_index(init, k);
        if over.last().0 == k {
            assert forall|j: int| 0 <= j < init.len() implies init[j].0 != k by {
                assert(init[j] == over[j]);
                assert(over[j].0 != over[over.len() - 1].0);
            }
            crate::json::lemma_lookup_absent(init, k);
            crate::json::lemma_lookup_at(over, k, over.len() - 1);
        } else {
            match key_index_of(init, k) {
                Some(j) => {
                    assert(init[j] == over[j]);
                    assert forall|m: int| 0 <= m < j implies over[m].0 != k by {
                        assert(init[m] == over[m]);
                    }
                    crate::json::lemma_lookup_at(over, k, j);
                },
                None => {
                    assert forall|m: int| 0 <= m < over.len() implies over[m].0 != k by {
                        if m < init.len() {
                            assert(init[m] == over[m]);
                        }
                    }
                    crate::json::lemma_lookup_absent(over, k);
                },
            }
        }
    }
}

spec fn key_index_of(entries: Seq<(Seq<char>, JsonV)>, k: Seq<char>) -> Option<int> {
    crate::json::key_index(entries, k)
}

// ---------------------------------------------------------------------------
// Schema `required` check
// ---------------------------------------------------------------------------

/// The first string in `req` that is not a key of `input`.
pub open spec fn first_missing(req: Seq<JsonV>, input: Seq<(Seq<char>, JsonV)>) -> Option<Seq<char>>
    decreases req.len(),
{
    if req.len() == 0 {
        None
    } else {
        match req[0] {
            JsonV::Str(s) if lookup(input, s) is None => Some(s),
            _ => first_missing(req.drop_first(), input),
        }
    }
}

/// What the `required` check decides.
pub open spec fn required_check(input: Seq<(Seq<char>, JsonV)>, schema: JsonV) -> Option<Seq<char>> {
    match schema.get("required"@) {
        Some(JsonV::Array(req)) => first_missing(req, input),
        _ => None,
    }
}

/// Check that every field the schema's `required` array names (non-string
/// entries are ignored) is present in `input`; the first one missing is
/// reported.
pub fn validate_against_schema(input: &Vec<(String, Json)>, schema: &Json) -> (r: Result<(), String>)
    ensures
        match required_check(entries_view(input@), schema@) {
            None => r is Ok,
            Some(f) => r matches Err(m) && m@ == "required field '"@ + f + "' is missing"@,
        },
{
    let required = match schema.get("required") {
        Some(v) => match v.as_array() {
            Some(a) => a,
            None => {
                return Ok(());
            },
        },
        None => {
            return Ok(());
        },
    };
    let ghost rv = json_seq_view(required@);
    let ghost iv = entries_view(input@);
    let mut i: usize = 0;
    assert(rv.skip(0) =~= rv);
    while i < required.len()
        invariant
            0 <= i <= required.len(),
            rv == json_seq_view(required@),
            iv == entries_view(input@),
            schema@.get("required"@) == Some(JsonV::Array(rv)),
            first_missing(rv, iv) == first_missing(rv.skip(i as int), iv),
        decreases required.len() - i,
    {
        assert(rv.skip(i as int)[0] == required@[i as int]@);
        assert(rv.skip(i as int).drop_first() == rv.skip(i + 1));
        match required[i].as_str() {
            Some(name) => {
                if entries_get(input, name.as_str()).is_none() {
                    assert(rv.skip(i as int)[0] == JsonV::Str(name@));
                    assert(first_missing(rv.skip(i as int), iv) == Some(name@));
                    return Err(concat3("required field '", name.as_str(), "' is missing"));
                }
            },
            None => {},
        }
        i = i + 1;
    }
    assert(rv.skip(i as int).len() == 0);
    Ok(())
}

// ---------------------------------------------------------------------------
// Parsed flags
// ---------------------------------------------------------------------------

/// What the command-line parser yielded for a module command: for each
/// boolean flag id, whether it was given; for each value option id, the
/// value's text.
pub struct ParsedFlags {
    pub flags: Vec<(String, bool)>,
    pub values: Vec<(String, String)>,
}

pub open spec fn flag_set(f: Seq<(String, bool)>, id: Seq<char>) -> bool
    decreases f.len(),
{
    if f.len() == 0 {
        false
    } else if f[0].0@ == id {
        f[0].1
    } else {
        flag_set(f.drop_first(), id)
    }
}

pub open spec fn value_of(v: Seq<(String, String)>, id: Seq<char>) -> Option<Seq<char>>
    decreases v.len(),
{
    if v.len() == 0 {
        None
    } else if v[0].0@ == id {
        Some(v[0].1@)
    } else {
        value_of(v.drop_first(), id)
    }
}

fn flag_is_set(f: &Vec<(String, bool)>, id: &str) -> (r: bool)
    ensures
        r == flag_set(f@, id@),
{
    let mut i: usize = 0;
    assert(f@.skip(0) =~= f@);
    while i < f.len()
        invariant
            0 <= i <= f.len(),
            flag_set(f@, id@) == flag_set(f@.skip(i as int), id@),
        decreases f.len() - i,
    {
        assert(f@.skip(i as int)[0] == f@[i as int]);
        assert(f@.skip(i as int).drop_first() == f@.skip(i + 1));
        if str_eq(f[i].0.as_str(), id) {
            return f[i].1;
        }
        i = i + 1;
    }
    assert(f@.skip(i as int).len() == 0);
    false
}

fn value_for<'a>(v: &'a Vec<(String, String)>, id: &str) -> (r: Option<&'a String>)
    ensures
        match r {
            Some(s) => value_of(v@, id@) == Some(s@),
            None => value_of(v@, id@) is None,
        },
{
    let mut i: usize = 0;
    assert(v@.skip(0) =~= v@);
    while i < v.len()
        invariant
            0 <= i <= v.len(),
            value_of(v@, id@) == value_of(v@.skip(i as int), id@),
        decreases v.len() - i,
    {
        assert(v@.skip(i as int)[0] == v@[i as int]);
        assert(v@.skip(i as int).drop_first() == v@.skip(i + 1));
        if str_eq(v[i].0.as_str(), id) {
            return Some(&v[i].1);
        }
        i = i + 1;
    }
    assert(v@.skip(i as int).len() == 0);
    None
}

/// The value a `--flag` / `--no-flag` pair gives its property: `true` when
/// the positive flag was given, else `false` when the negative one was,
/// else the schema default.
pub open spec fn bool_pair_value(flags: Seq<(String, bool)>, p: BoolFlagPair) -> bool {
    if flag_set(flags, p.prop_name@) {
        true
    } else if flag_set(flags, "no-"@ + p.prop_name@) {
        false
    } else {
        p.default_val
    }
}

pub open spec fn reconcile_spec(
    flags: Seq<(String, bool)>,
    pairs: Seq<BoolFlagPair>,
) -> Seq<(Seq<char>, JsonV)>
    decreases pairs.len(),
{
    if pairs.len() == 0 {
        Seq::empty()
    } else {
        entries_insert(
            reconcile_spec(flags, pairs.drop_last()),
            pairs.last().prop_name@,
            JsonV::Bool(bool_pair_value(flags, pairs.last())),
        )
    }
}

/// Turn each boolean flag pair into its property's boolean value.
pub fn reconcile_bool_pairs(matches: &ParsedFlags, bool_pairs: &Vec<BoolFlagPair>) -> (r: Vec<
    (String, Json),
>)
    ensures
        entries_view(r@) == reconcile_spec(matches.flags@, bool_pairs@),
{
    let mut result: Vec<(String, Json)> = Vec::new();
    let mut i: usize = 0;
    assert(bool_pairs@.take(0) =~= Seq::<BoolFlagPair>::empty());
    assert(entries_view(result@) =~= Seq::<(Seq<char>, JsonV)>::empty());
    while i < bool_pairs.len()
        invariant
            0 <= i <= bool_pairs.len(),
            entries_view(result@) == reconcile_spec(matches.flags@, bool_pairs@.take(i as int)),
        decreases bool_pairs.len() - i,
    {
        let pair = &bool_pairs[i];
        assert(bool_pairs@.take(i + 1).drop_last() == bool_pairs@.take(i as int));
        assert(bool_pairs@.take(i + 1).last() == *pair);
        let pos_set = flag_is_set(&matches.flags, pair.prop_name.as_str());
        let neg_id = crate::text::concat2("no-", pair.prop_name.as_str());
        let neg_set = flag_is_set(&matches.flags, neg_id.as_str());
        let val = if pos_set {
            true
        } else if neg_set {
            false
        } else {
            pair.default_val
        };
        entries_set(&mut result, pair.prop_name.clone(), Json::Bool(val));
        i = i + 1;
    }
    assert(bool_pairs@.take(bool_pairs.len() as int) == bool_pairs@);
    result
}

/// The value-option entries: for each generated option that is not a
/// `no-` negation, its text (or `null` when absent).
pub open spec fn value_kwargs(
    values: Seq<(String, String)>,
    args: Seq<ArgSpec>,
) -> Seq<(Seq<char>, JsonV)>
    decreases args.len(),
{
    if args.len() == 0 {
        Seq::empty()
    } else {
        let r = value_kwargs(values, args.drop_last());
        let id = args.last().id@;
        if has_prefix(id, "no-"@) {
            r
        } else {
            entries_insert(
                r,
                id,
                match value_of(values, id) {
                    Some(s) => JsonV::Str(s),
                    None => JsonV::Null,
                },
            )
        }
    }
}

/// The schema-derived keyword arguments of a module command: option texts
/// (null when absent), then the boolean pairs, then enum values mapped back
/// to their schema types.
pub fn extract_cli_kwargs(matches: &ParsedFlags, schema_args: &SchemaArgs) -> (r: Vec<
    (String, Json),
>)
    ensures
        entries_view(r@) == crate::schema_parser::reconvert_all(
            merge_entries(
                value_kwargs(matches.values@, schema_args.args@),
                reconcile_spec(matches.flags@, schema_args.bool_pairs@),
            ),
            crate::schema_parser::enums_view(schema_args.enum_maps@),
        ),
{
    let mut kwargs: Vec<(String, Json)> = Vec::new();
    let mut i: usize = 0;
    assert(schema_args.args@.take(0) =~= Seq::<ArgSpec>::empty());
    assert(entries_view(kwargs@) =~= Seq::<(Seq<char>, JsonV)>::empty());
    while i < schema_args.args.len()
        invariant
            0 <= i <= schema_args.args.len(),
            entries_view(kwargs@) == value_kwargs(matches.values@, schema_args.args@.take(i as int)),
        decreases schema_args.args.len() - i,
    {
        let arg = &schema_args.args[i];
        assert(schema_args.args@.take(i + 1).drop_last() == schema_args.args@.take(i as int));
        assert(schema_args.args@.take(i + 1).last() == *arg);
        if !starts_with(arg.id.as_str(), "no-") {
            let v = match value_for(&matches.values, arg.id.as_str()) {
                Some(s) => Json::Str(s.clone()),
                None => Json::Null,
            };
            entries_set(&mut kwargs, arg.id.clone(), v);
        }
        i = i + 1;
    }
    assert(schema_args.args@.take(schema_args.args.len() as int) == schema_args.args@);
    let bool_vals = reconcile_bool_pairs(matches, &schema_args.bool_pairs);
    proof {
        lemma_object_view(&kwargs);
    }
    let merged = match merge_stdin_input(bool_vals, Json::Object(kwargs)) {
        Ok(m) => m,
        Err(_) => Vec::new(),
    };
    crate::schema_parser::reconvert_enum_values(merged, schema_args)
}

// ---------------------------------------------------------------------------
// Dispatch decisions
// ---------------------------------------------------------------------------

/// The approval prompt timeout: the `--approval-timeout` value when it
/// parses as a `u64`, else the default.
pub fn approval_timeout_secs(arg: Option<&str>) -> (r: u64)
    ensures
        r == match arg {
            Some(s) => match parse_u64_spec(s@) {
                Some(n) => n,
                None => crate::approval::DEFAULT_APPROVAL_TIMEOUT_SECS,
            },
            None => crate::approval::DEFAULT_APPROVAL_TIMEOUT_SECS,
        },
{
    match arg {
        Some(s) => match parse_u64(s) {
            Some(n) => n,
            None => crate::approval::DEFAULT_APPROVAL_TIMEOUT_SECS,
        },
        None => crate::approval::DEFAULT_APPROVAL_TIMEOUT_SECS,
    }
}

/// Whether the input must pass the `required` check: the module's input
/// schema is an object with `properties`.
pub fn schema_check_applies(schema: &Json) -> (r: bool)
    ensures
        r == (schema@ is Object && schema@.get("properties"@) is Some),
{
    match schema {
        Json::Object(_) => schema.get("properties").is_some(),
        _ => false,
    }
}

/// The fields of a structured error copied into the JSON error payload.
pub const ERROR_FIELDS: [&'static str; 7] = [
    "code",
    "message",
    "details",
    "suggestion",
    "ai_guidance",
    "retryable",
    "user_fixable",
];

pub open spec fn error_fields() -> Seq<Seq<char>> {
    seq![
        "code"@,
        "message"@,
        "details"@,
        "suggestion"@,
        "ai_guidance"@,
        "retryable"@,
        "user_fixable"@,
    ]
}

/// The payload before overlaying the structured error.
pub open spec fn base_error_payload(message: Seq<char>, exit_code: i32) -> Seq<(Seq<char>, JsonV)> {
    seq![
        ("error"@, JsonV::Bool(true)),
        ("code"@, JsonV::Str("UNKNOWN"@)),
        ("message"@, JsonV::Str(message)),
        ("exit_code"@, exit_code_json(exit_code)),
    ]
}

pub open spec fn exit_code_json(c: i32) -> JsonV {
    if c >= 0 {
        JsonV::Number(crate::json::NumV::PosInt(c as u64))
    } else {
        JsonV::Number(crate::json::NumV::NegInt(c as i64))
    }
}

/// Overlay the non-null fields `keys` of `data` onto `payload`.
pub open spec fn overlay(
    payload: Seq<(Seq<char>, JsonV)>,
    data: Seq<(Seq<char>, JsonV)>,
    keys: Seq<Seq<char>>,
) -> Seq<(Seq<char>, JsonV)>
    decreases keys.len(),
{
    if keys.len() == 0 {
        payload
    } else {
        let p = overlay(payload, data, keys.drop_last());
        match lookup(data, keys.last()) {
            Some(v) => if v is Null {
                p
            } else {
                entries_insert(p, keys.last(), v)
            },
            None => p,
        }
    }
}

/// The JSON error payload written for machine consumers.
pub open spec fn error_payload_spec(
    message: Seq<char>,
    exit_code: i32,
    error_data: Option<JsonV>,
) -> Seq<(Seq<char>, JsonV)> {
    let base = base_error_payload(message, exit_code);
    match error_data {
        Some(JsonV::Object(d)) => overlay(base, d, error_fields()),
        _ => base,
    }
}

fn exit_code_value(c: i32) -> (r: Json)
    ensures
        r@ == exit_code_json(c),
{
    if c >= 0 {
        Json::Number(JsonNumber::PosInt(c as u64))
    } else {
        Json::Number(JsonNumber::NegInt(c as i64))
    }
}

/// The JSON error payload: `error`, `code` (`UNKNOWN` unless the structured
/// error says otherwise), `message`, `exit_code`, overlaid with the
/// structured error's non-null `code`, `message`, `details`, `suggestion`,
/// `ai_guidance`, `retryable` and `user_fixable`.
pub fn error_payload(message: &str, exit_code: i32, error_data: Option<&Json>) -> (r: Json)
    ensures
        r@ == JsonV::Object(
            error_payload_spec(
                message@,
                exit_code,
                match error_data {
                    Some(d) => Some(d@),
                    None => None,
                },
            ),
        ),
{
    let mut payload: Vec<(String, Json)> = Vec::new();
    payload.push((owned("error"), Json::Bool(true)));
    payload.push((owned("code"), Json::Str(owned("UNKNOWN"))));
    payload.push((owned("message"), Json::Str(owned(message))));
    payload.push((owned("exit_code"), exit_code_value(exit_code)));
    proof {
        assert(entries_view(payload@) =~= base_error_payload(message@, exit_code));
    }
    match error_data {
        Some(Json::Object(d)) => {
            proof {
                lemma_object_view(d);
            }
            let ghost base = entries_view(payload@);
            let mut i: usize = 0;
            proof {
                assert(error_fields().take(0) =~= Seq::<Seq<char>>::empty());
            }
            while i < 7
                invariant
                    0 <= i <= 7,
                    entries_view(payload@) == overlay(
                        base,
                        entries_view(d@),
                        error_fields().take(i as int),
                    ),
                decreases 7 - i,
            {
                let key = ERROR_FIELDS[i];
                proof {
                    reveal_strlit("code");
                    reveal_strlit("message");
                    reveal_strlit("details");
                    reveal_strlit("suggestion");
                    reveal_strlit("ai_guidance");
                    reveal_strlit("retryable");
                    reveal_strlit("user_fixable");
                    assert(key@ == error_fields()[i as int]);
                    assert(error_fields().take(i + 1).drop_last() == error_fields().take(i as int));
                    assert(error_fields().take(i + 1).last() == key@);
                }
                match entries_get(d, key) {
                    Some(v) => {
                        if !v.is_null() {
                            entries_set(&mut payload, owned(key), v.dup());
                        }
                    },
                    None => {},
                }
                i = i + 1;
            }
            proof {
                assert(error_fields().take(7) =~= error_fields());
                lemma_object_view(&payload);
            }
            Json::Object(payload)
        },
        _ => {
            proof {
                lemma_object_view(&payload);
            }
            Json::Object(payload)
        },
    }
}


/// One `    key: value` line per entry of a structured error's `details`,
/// the value as compact JSON.
pub open spec fn details_lines(d: Seq<(Seq<char>, JsonV)>) -> Seq<Seq<char>>
    decreases d.len(),
{
    if d.len() == 0 {
        Seq::empty()
    } else {
        details_lines(d.drop_last()).push("    "@ + d.last().0 + ": "@ + json_text(d.last().1))
    }
}

pub open spec fn retry_label(b: bool) -> Seq<char> {
    if b {
        "Yes"@
    } else {
        "No (same input will fail again)"@
    }
}

/// The lines of the human error report: a header naming the error code
/// when the structured error has one, its details, suggestion and whether
/// a retry can help, then the exit code.
pub open spec fn error_tty_spec(message: Seq<char>, exit_code: i32, data: Option<JsonV>) -> Seq<
    Seq<char>,
> {
    let d = match data {
        Some(x) => x,
        None => JsonV::Null,
    };
    let header = match get_str(d, "code"@) {
        Some(c) => "Error ["@ + c + "]: "@ + message,
        None => "Error: "@ + message,
    };
    let details = match get_object(d, "details"@) {
        Some(o) => seq!["\n  Details:"@] + details_lines(o),
        None => Seq::empty(),
    };
    let suggestion = match get_str(d, "suggestion"@) {
        Some(t) => seq!["\n  Suggestion: "@ + t],
        None => Seq::empty(),
    };
    let retry = match get_bool(d, "retryable"@) {
        Some(b) => seq!["  Retryable: "@ + retry_label(b)],
        None => Seq::empty(),
    };
    seq![header] + details + suggestion + retry + seq!["\n  Exit code: "@ + decimal_int(exit_code as int)]
}

/// The human error report for a terminal, line by line.
pub fn error_tty_lines(message: &str, exit_code: i32, error_data: Option<&Json>) -> (r: Vec<String>)
    ensures
        strings_view(r@) == error_tty_spec(
            message@,
            exit_code,
            match error_data {
                Some(d) => Some(d@),
                None => None,
            },
        ),
{
    let null = Json::Null;
    let d: &Json = match error_data {
        Some(x) => x,
        None => &null,
    };
    let ghost dv = match error_data {
        Some(x) => x@,
        None => JsonV::Null,
    };
    assert(d@ == dv);
    let mut out: Vec<String> = Vec::new();
    let code = match d.get("code") {
        Some(v) => v.as_str(),
        None => None,
    };
    match code {
        Some(c) => {
            let mut h = owned("Error [");
            push_str(&mut h, c.as_str());
            push_str(&mut h, "]: ");
            push_str(&mut h, message);
            out.push(h);
        },
        None => {
            out.push(crate::text::concat2("Error: ", message));
        },
    }
    let ghost head = strings_view(out@);
    assert(head == seq![
        match get_str(dv, "code"@) {
            Some(c) => "Error ["@ + c + "]: "@ + message@,
            None => "Error: "@ + message@,
        },
    ]);
    let details = match d.get("details") {
        Some(v) => v.as_object(),
        None => None,
    };
    match details {
        Some(o) => {
            out.push(owned("\n  Details:"));
            let ghost start = strings_view(out@);
            let ghost ov = entries_view(o@);
            let mut i: usize = 0;
            assert(start + details_lines(ov.take(0)) =~= start);
            while i < o.len()
                invariant
                    0 <= i <= o.len(),
                    ov == entries_view(o@),
                    strings_view(out@) == start + details_lines(ov.take(i as int)),
                decreases o.len() - i,
            {
                assert(ov.take(i + 1).drop_last() == ov.take(i as int));
                assert(ov.take(i + 1).last() == (o@[i as int].0@, o@[i as int].1@));
                let ghost before = strings_view(out@);
                let mut line = owned("    ");
                push_str(&mut line, o[i].0.as_str());
                push_str(&mut line, ": ");
                let t = crate::json::to_json_text(&o[i].1);
                push_str(&mut line, t.as_str());
                let ghost lv = line@;
                out.push(line);
                assert(strings_view(out@) =~= before.push(lv));
                i = i + 1;
            }
            assert(ov.take(i as int) == ov);
        },
        None => {},
    }
    let ghost after_details = strings_view(out@);
    assert(after_details == head + match get_object(dv, "details"@) {
        Some(o) => seq!["\n  Details:"@] + details_lines(o),
        None => Seq::empty(),
    });
    let suggestion = match d.get("suggestion") {
        Some(v) => v.as_str(),
        None => None,
    };
    match suggestion {
        Some(t) => {
            out.push(crate::text::concat2("\n  Suggestion: ", t.as_str()));
        },
        None => {},
    }
    let ghost after_suggestion = strings_view(out@);
    assert(after_suggestion == after_details + match get_str(dv, "suggestion"@) {
        Some(t) => seq!["\n  Suggestion: "@ + t],
        None => Seq::<Seq<char>>::empty(),
    });
    let retry = match d.get("retryable") {
        Some(v) => v.as_bool(),
        None => None,
    };
    match retry {
        Some(b) => {
            if b {
                out.push(owned("  Retryable: Yes"));
            } else {
                out.push(owned("  Retryable: No (same input will fail again)"));
            }
            proof {
                reveal_strlit("  Retryable: Yes");
                reveal_strlit("  Retryable: No (same input will fail again)");
                reveal_strlit("  Retryable: ");
                reveal_strlit("Yes");
                reveal_strlit("No (same input will fail again)");
                assert("  Retryable: Yes"@ =~= "  Retryable: "@ + "Yes"@);
                assert("  Retryable: No (same input will fail again)"@ =~= "  Retryable: "@
                    + "No (same input will fail again)"@);
                assert(strings_view(out@) =~= after_suggestion.push("  Retryable: "@ + retry_label(b)));
            }
        },
        None => {},
    }
    let ghost after_retry = strings_view(out@);
    assert(after_retry == after_suggestion + match get_bool(dv, "retryable"@) {
        Some(b) => seq!["  Retryable: "@ + retry_label(b)],
        None => Seq::<Seq<char>>::empty(),
    });
    let code_text = crate::text::i64_to_string(exit_code as i64);
    out.push(crate::text::concat2("\n  Exit code: ", code_text.as_str()));
    assert(strings_view(out@) =~= error_tty_spec(
        message@,
        exit_code,
        match error_data {
            Some(d) => Some(d@),
            None => None,
        },
    ));
    out
}


// ---------------------------------------------------------------------------
// Module commands
// ---------------------------------------------------------------------------

/// The long option names of the built-in execution flags, which schema
/// properties may not take.
pub const RESERVED_FLAG_NAMES: [&'static str; 13] = [
    "approval-timeout",
    "approval-token",
    "dry-run",
    "fields",
    "format",
    "input",
    "large-input",
    "sandbox",
    "strategy",
    "stream",
    "trace",
    "verbose",
    "yes",
];

pub open spec fn reserved_flag(l: Seq<char>) -> bool {
    l == "approval-timeout"@ || l == "approval-token"@ || l == "dry-run"@ || l == "fields"@ || l
        == "format"@ || l == "input"@ || l == "large-input"@ || l == "sandbox"@ || l == "strategy"@
        || l == "stream"@ || l == "trace"@ || l == "verbose"@ || l == "yes"@
}

/// The long name of the first generated option that is reserved, if any.
pub open spec fn first_reserved(args: Seq<crate::schema_parser::ArgV>) -> Option<Seq<char>>
    decreases args.len(),
{
    if args.len() == 0 {
        None
    } else if reserved_flag(args[0].long) {
        Some(args[0].long)
    } else {
        first_reserved(args.drop_first())
    }
}

/// The help footer of a module command: the hint that `--verbose` shows the
/// built-in options (when they are hidden) and the module's documentation
/// link (when a documentation URL is set), one per line.
pub open spec fn footer_text(module_id: Seq<char>, verbose: bool, docs_url: Option<Seq<char>>) -> Seq<char> {
    let hint = "Use --verbose to show all options (including built-in apcore options)."@;
    match docs_url {
        Some(u) => if verbose {
            "Docs: "@ + u + "/commands/"@ + module_id
        } else {
            hint + "\n"@ + ("Docs: "@ + u + "/commands/"@ + module_id)
        },
        None => if verbose {
            Seq::empty()
        } else {
            hint
        },
    }
}

/// What a module's command is built from: its schema-derived options and
/// its help footer.
#[derive(Debug)]
pub struct ModuleCommandPlan {
    pub args: SchemaArgs,
    pub footer: String,
}

fn reserved_long(l: &str) -> (r: bool)
    ensures
        r == reserved_flag(l@),
{
    let mut i: usize = 0;
    while i < 13
        invariant
            0 <= i <= 13,
            forall|j: int| 0 <= j < i ==> #[trigger] RESERVED_FLAG_NAMES@[j]@ != l@,
        decreases 13 - i,
    {
        if str_eq(RESERVED_FLAG_NAMES[i], l) {
            proof {
                reveal_strlit("approval-timeout");
                reveal_strlit("approval-token");
                reveal_strlit("dry-run");
                reveal_strlit("fields");
                reveal_strlit("format");
                reveal_strlit("input");
                reveal_strlit("large-input");
                reveal_strlit("sandbox");
                reveal_strlit("strategy");
                reveal_strlit("stream");
                reveal_strlit("trace");
                reveal_strlit("verbose");
                reveal_strlit("yes");
            }
            assert(RESERVED_FLAG_NAMES@[i as int]@ == l@);
            return true;
        }
        i = i + 1;
    }
    proof {
        assert(RESERVED_FLAG_NAMES@[0]@ != l@);
        assert(RESERVED_FLAG_NAMES@[1]@ != l@);
        assert(RESERVED_FLAG_NAMES@[2]@ != l@);
        assert(RESERVED_FLAG_NAMES@[3]@ != l@);
        assert(RESERVED_FLAG_NAMES@[4]@ != l@);
        assert(RESERVED_FLAG_NAMES@[5]@ != l@);
        assert(RESERVED_FLAG_NAMES@[6]@ != l@);
        assert(RESERVED_FLAG_NAMES@[7]@ != l@);
        assert(RESERVED_FLAG_NAMES@[8]@ != l@);
        assert(RESERVED_FLAG_NAMES@[9]@ != l@);
        assert(RESERVED_FLAG_NAMES@[10]@ != l@);
        assert(RESERVED_FLAG_NAMES@[11]@ != l@);
        assert(RESERVED_FLAG_NAMES@[12]@ != l@);
    }
    false
}

/// Decide what a module's command is built from. A module named like the
/// built-in group is refused; the input schema's `$ref`s are resolved (at
/// most 32 levels deep), its properties turned into options, and an option
/// that takes the name of a built-in flag is refused.
pub fn module_command_plan(
    module_id: &str,
    input_schema: &Json,
    verbose_help: bool,
    docs_url: Option<&str>,
) -> (r: Result<ModuleCommandPlan, CliError>)
    ensures
        module_id@ == "apcli"@ ==> (r matches Err(CliError::ReservedModuleId(m)) && m@ == module_id@),
        module_id@ != "apcli"@ ==> match crate::ref_resolver::resolve_refs_spec(input_schema@, 32) {
            Err(k) => r matches Err(CliError::SchemaRefResolution { module_id: m, source })
                && m@ == module_id@ && source.kind() == k,
            Ok(v) => match crate::schema_parser::schema_args_spec(v) {
                Err(c) => r matches Err(CliError::InvalidModuleId(m)) && m@
                    == "schema parse error: "@ + ("Flag name collision: properties '"@ + c.prop_a
                    + "' and '"@ + c.prop_b + "' both map to '"@ + c.flag + "'"@),
                Ok(st) => match first_reserved(st.args) {
                    Some(l) => r matches Err(CliError::ReservedModuleId(m)) && m@ == "module '"@
                        + module_id@ + "' schema property '"@ + l
                        + "' conflicts with a reserved CLI option name"@,
                    None => r matches Ok(p) && crate::schema_parser::args_view(p.args.args@) == st.args
                        && crate::schema_parser::pairs_view(p.args.bool_pairs@) == st.pairs
                        && crate::schema_parser::enums_view(p.args.enum_maps@) == st.enums
                        && p.footer@ == footer_text(
                        module_id@,
                        verbose_help,
                        match docs_url {
                            Some(u) => Some(u@),
                            None => None,
                        },
                    ),
                },
            },
        },
{
    if str_eq(module_id, "apcli") {
        return Err(CliError::ReservedModuleId(owned(module_id)));
    }
    let resolved = match crate::ref_resolver::resolve_refs(input_schema, 32, module_id) {
        Ok(v) => v,
        Err(e) => {
            return Err(CliError::SchemaRefResolution { module_id: owned(module_id), source: e });
        },
    };
    let sa = match crate::schema_parser::schema_to_clap_args(&resolved) {
        Ok(sa) => sa,
        Err(e) => {
            let t = e.message();
            return Err(CliError::InvalidModuleId(crate::text::concat2("schema parse error: ", t.as_str())));
        },
    };
    let ghost av = crate::schema_parser::args_view(sa.args@);
    let ghost rv = resolved@;
    let mut i: usize = 0;
    assert(av.skip(0) =~= av);
    while i < sa.args.len()
        invariant
            0 <= i <= sa.args.len(),
            av == crate::schema_parser::args_view(sa.args@),
            module_id@ != "apcli"@,
            crate::ref_resolver::resolve_refs_spec(input_schema@, 32) == Ok::<JsonV, crate::ref_resolver::RefErr>(rv),
            crate::schema_parser::schema_args_spec(rv) matches Ok(st) && st.args == av,
            first_reserved(av) == first_reserved(av.skip(i as int)),
        decreases sa.args.len() - i,
    {
        assert(av.skip(i as int)[0] == sa.args@[i as int]@);
        assert(av.skip(i as int).drop_first() =~= av.skip(i + 1));
        if reserved_long(sa.args[i].long.as_str()) {
            let mut m = owned("module '");
            push_str(&mut m, module_id);
            push_str(&mut m, "' schema property '");
            push_str(&mut m, sa.args[i].long.as_str());
            push_str(&mut m, "' conflicts with a reserved CLI option name");
            return Err(CliError::ReservedModuleId(m));
        }
        i = i + 1;
    }
    assert(av.skip(i as int).len() == 0);
    let mut footer = String::new();
    if !verbose_help {
        push_str(&mut footer, "Use --verbose to show all options (including built-in apcore options).");
    }
    match docs_url {
        Some(u) => {
            if !verbose_help {
                push_str(&mut footer, "\n");
            }
            push_str(&mut footer, "Docs: ");
            push_str(&mut footer, u);
            push_str(&mut footer, "/commands/");
            push_str(&mut footer, module_id);
        },
        None => {},
    }
    Ok(ModuleCommandPlan { args: sa, footer })
}


// ---------------------------------------------------------------------------
// Process settings
// ---------------------------------------------------------------------------

/// The settings module commands read while they are built and dispatched:
/// whether `--verbose` asked for full help, the documentation base URL,
/// and the executable map found by discovery (module ID to script path),
/// which is fixed by the first call that sets it.
#[derive(Debug)]
pub struct CliSettings {
    verbose_help: bool,
    docs_url: Option<String>,
    executables: Option<Vec<(String, String)>>,
}

/// The plain contents of [`CliSettings`].
pub struct CliSettingsV {
    pub verbose_help: bool,
    pub docs_url: Option<Seq<char>>,
    pub executables: Option<Seq<(Seq<char>, Seq<char>)>>,
}

impl View for CliSettings {
    type V = CliSettingsV;

    closed spec fn view(&self) -> CliSettingsV {
        CliSettingsV {
            verbose_help: self.verbose_help,
            docs_url: match self.docs_url {
                Some(u) => Some(u@),
                None => None,
            },
            executables: match self.executables {
                Some(m) => Some(crate::text::str_pairs_view(m@)),
                None => None,
            },
        }
    }
}

impl CliSettings {
    /// Terse help, no documentation link, no executable map.
    pub fn new() -> (r: Self)
        ensures
            !r@.verbose_help,
            r@.docs_url is None,
            r@.executables is None,
    {
        CliSettings { verbose_help: false, docs_url: None, executables: None }
    }

    /// Set the verbose-help flag (built-in options are hidden from help
    /// unless it is set).
    pub fn set_verbose_help(&mut self, verbose: bool)
        ensures
            final(self)@.verbose_help == verbose,
            final(self)@.docs_url == old(self)@.docs_url,
            final(self)@.executables == old(self)@.executables,
    {
        self.verbose_help = verbose;
    }

    /// The verbose-help flag.
    pub fn is_verbose_help(&self) -> (r: bool)
        ensures
            r == self@.verbose_help,
    {
        self.verbose_help
    }

    /// Set (or, with `None`, clear) the documentation base URL.
    pub fn set_docs_url(&mut self, url: Option<String>)
        ensures
            final(self)@.docs_url == match url {
                Some(u) => Some(u@),
                None => None,
            },
            final(self)@.verbose_help == old(self)@.verbose_help,
            final(self)@.executables == old(self)@.executables,
    {
        self.docs_url = url;
    }

    /// The documentation base URL.
    pub fn get_docs_url(&self) -> (r: Option<String>)
        ensures
            match r {
                Some(u) => self@.docs_url == Some(u@),
                None => self@.docs_url is None,
            },
    {
        match &self.docs_url {
            Some(u) => Some(u.clone()),
            None => None,
        }
    }

    /// Store the executable map; only the first map stored is kept.
    pub fn set_executables(&mut self, map: Vec<(String, String)>)
        ensures
            old(self)@.executables is None ==> final(self)@.executables == Some(crate::text::str_pairs_view(map@)),
            old(self)@.executables is Some ==> final(self)@.executables == old(self)@.executables,
            final(self)@.verbose_help == old(self)@.verbose_help,
            final(self)@.docs_url == old(self)@.docs_url,
    {
        if self.executables.is_none() {
            self.executables = Some(map);
        }
    }

    /// The script registered for `module_id` in the executable map (the
    /// first entry under that ID).
    pub fn executable_for(&self, module_id: &str) -> (r: Option<String>)
        ensures
            match self@.executables {
                Some(m) => match r {
                    Some(p) => crate::text::pair_get(m, module_id@) == Some(p@),
                    None => crate::text::pair_get(m, module_id@) is None,
                },
                None => r is None,
            },
    {
        match &self.executables {
            Some(m) => match crate::config::str_pair_value(m, module_id) {
                Some(p) => Some(p.clone()),
                None => None,
            },
            None => None,
        }
    }
}

} // verus!
