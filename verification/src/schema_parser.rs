//! JSON Schema `properties` → command-line option descriptions.
//!
//! [`schema_to_clap_args`] turns each schema property into an [`ArgSpec`]: a
//! `--flag` with its value kind, help text, default and `required` mark;
//! boolean properties become a `--flag` / `--no-flag` pair and enum
//! properties a fixed choice list. The command-line layer builds its parser
//! from these descriptions. [`reconvert_enum_values`] maps the strings the
//! parser yields for enum options back to the schema's typed values.
use vstd::prelude::*;
use crate::json::{
    Json, JsonV, JsonNumber, NumV, lookup, entries_view, json_seq_view, get_object, get_array,
    get_str, get_bool, json_text, to_json_text, dup_all, lemma_object_view, lemma_array_view,
};
use crate::ref_resolver::str_items;
use crate::text::{
    owned, concat2, str_eq, chars_of, string_from_chars, push_str,
    has_suffix, ends_with, replace_char,
    replace_char_seq, pair_get, pair_set, first_index, lemma_first_index, lemma_first_index_at,
    str_pairs_view, find_str_pair, set_str_pair,
};

use crate::text::{strings_view, opt_view};

verus! {

/// Help text longer than this many bytes is truncated.
pub const HELP_TEXT_MAX_LEN: usize = 200;

// ---------------------------------------------------------------------------
// Types
// ---------------------------------------------------------------------------

/// Error type for schema parsing failures.
#[derive(Debug)]
pub enum SchemaParserError {
    /// Two properties normalise to the same `--flag-name`.
    FlagCollision { prop_a: String, prop_b: String, flag_name: String },
}

/// A boolean `--flag` / `--no-flag` pair generated from a `type: boolean`
/// property.
#[derive(Debug)]
pub struct BoolFlagPair {
    /// Original schema property name.
    pub prop_name: String,
    /// Long name of the positive flag.
    pub flag_long: String,
    /// The schema's boolean `default` (false when absent).
    pub default_val: bool,
}

/// How an option's value is parsed.
#[derive(Debug)]
pub enum ValueParser {
    /// A presence flag: takes no value.
    Flag,
    /// Any string.
    Text,
    /// A signed 64-bit integer.
    Integer,
    /// A floating-point number.
    Number,
    /// A filesystem path.
    Path,
    /// One of a fixed set of strings.
    Choices(Vec<String>),
}

/// What giving the option does.
#[derive(Debug, Clone, Copy, PartialEq, Eq, Structural)]
pub enum ArgAction {
    /// Stores the option's value.
    Store,
    /// Stores `true`.
    SetTrue,
    /// Stores `false`.
    SetFalse,
}

/// One command-line option generated from a schema property.
#[derive(Debug)]
pub struct ArgSpec {
    /// The option id (the property name, or `no-<name>` for a negation).
    pub id: String,
    /// The long flag name, without `--`.
    pub long: String,
    pub action: ArgAction,
    pub value_parser: ValueParser,
    /// Whether the parser itself enforces presence.
    pub required: bool,
    pub help: Option<String>,
    /// The default value, as the parser's input text.
    pub default_value: Option<String>,
}

/// Full output of [`schema_to_clap_args`].
#[derive(Debug)]
pub struct SchemaArgs {
    /// One entry per generated option, in property order.
    pub args: Vec<ArgSpec>,
    /// Boolean flag pairs, in property order.
    pub bool_pairs: Vec<BoolFlagPair>,
    /// Property name → the schema's original enum values, for
    /// [`reconvert_enum_values`].
    pub enum_maps: Vec<(String, Vec<Json>)>,
}

// ---------------------------------------------------------------------------
// Views
// ---------------------------------------------------------------------------

pub enum ParserV {
    Flag,
    Text,
    Integer,
    Number,
    Path,
    Choices(Seq<Seq<char>>),
}

pub struct ArgV {
    pub id: Seq<char>,
    pub long: Seq<char>,
    pub action: ArgAction,
    pub parser: ParserV,
    pub required: bool,
    pub help: Option<Seq<char>>,
    pub default_value: Option<Seq<char>>,
}

impl View for ValueParser {
    type V = ParserV;

    open spec fn view(&self) -> ParserV {
        match self {
            ValueParser::Flag => ParserV::Flag,
            ValueParser::Text => ParserV::Text,
            ValueParser::Integer => ParserV::Integer,
            ValueParser::Number => ParserV::Number,
            ValueParser::Path => ParserV::Path,
            ValueParser::Choices(c) => ParserV::Choices(strings_view(c@)),
        }
    }
}

impl View for ArgSpec {
    type V = ArgV;

    open spec fn view(&self) -> ArgV {
        ArgV {
            id: self.id@,
            long: self.long@,
            action: self.action,
            parser: self.value_parser@,
            required: self.required,
            help: opt_view(self.help),
            default_value: opt_view(self.default_value),
        }
    }
}

pub open spec fn args_view(v: Seq<ArgSpec>) -> Seq<ArgV> {
    v.map_values(|a: ArgSpec| a@)
}

pub open spec fn pairs_view(v: Seq<BoolFlagPair>) -> Seq<(Seq<char>, Seq<char>, bool)> {
    v.map_values(|p: BoolFlagPair| (p.prop_name@, p.flag_long@, p.default_val))
}

pub open spec fn enums_view(v: Seq<(String, Vec<Json>)>) -> Seq<(Seq<char>, Seq<JsonV>)> {
    v.map_values(|e: (String, Vec<Json>)| (e.0@, json_seq_view(e.1@)))
}

pub open spec fn seen_view(v: Seq<(String, String)>) -> Seq<(Seq<char>, Seq<char>)> {
    v.map_values(|e: (String, String)| (e.0@, e.1@))
}

// ---------------------------------------------------------------------------
// Specification
// ---------------------------------------------------------------------------

/// `prop_name_to_flag_name`: underscores become dashes.
pub open spec fn flag_name(s: Seq<char>) -> Seq<char> {
    replace_char_seq(s, '_', '-')
}

/// A property read as a path: its name ends in `_file`, or it carries
/// `x-cli-file: true`.
pub open spec fn is_file_prop(name: Seq<char>, prop: JsonV) -> bool {
    has_suffix(name, "_file"@) || get_bool(prop, "x-cli-file"@) == Some(true)
}

/// The help source: a non-empty `x-llm-description`, else a non-empty
/// `description`.
pub open spec fn help_source(prop: JsonV) -> Option<Seq<char>> {
    match get_str(prop, "x-llm-description"@) {
        Some(s) if s.len() > 0 => Some(s),
        _ => match get_str(prop, "description"@) {
            Some(s) if s.len() > 0 => Some(s),
            _ => None,
        },
    }
}

/// Help text cut to [`HELP_TEXT_MAX_LEN`] characters: the first 197 and
/// `"..."`.
pub open spec fn truncate_help(t: Seq<char>) -> Seq<char> {
    if t.len() > 200 {
        t.take(197) + "..."@
    } else {
        t
    }
}

/// The help text of a property.
pub open spec fn help_of(prop: JsonV) -> Option<Seq<char>> {
    match help_source(prop) {
        Some(t) => Some(truncate_help(t)),
        None => None,
    }
}

/// The text the option parser uses for a JSON value: a string as itself,
/// anything else as its JSON text.
pub open spec fn value_text(v: JsonV) -> Seq<char> {
    match v {
        JsonV::Str(s) => s,
        _ => json_text(v),
    }
}

/// The value kind of a plain (non-boolean, non-enum) property.
pub open spec fn plain_parser(name: Seq<char>, prop: JsonV) -> ParserV {
    let t = get_str(prop, "type"@);
    if t == Some("integer"@) {
        ParserV::Integer
    } else if t == Some("number"@) {
        ParserV::Number
    } else if t == Some("string"@) && is_file_prop(name, prop) {
        ParserV::Path
    } else {
        ParserV::Text
    }
}

/// The generator's state after some properties.
pub struct ArgsState {
    pub args: Seq<ArgV>,
    pub pairs: Seq<(Seq<char>, Seq<char>, bool)>,
    pub enums: Seq<(Seq<char>, Seq<JsonV>)>,
    pub seen: Seq<(Seq<char>, Seq<char>)>,
}

/// A flag collision: the new property, the one that owns the flag, the flag.
pub struct CollisionV {
    pub prop_a: Seq<char>,
    pub prop_b: Seq<char>,
    pub flag: Seq<char>,
}

/// Help annotated with the property's `[required]` mark (enum options).
pub open spec fn annotate_required(help: Option<Seq<char>>, is_req: bool) -> Option<Seq<char>> {
    match help {
        Some(h) => Some(
            if is_req {
                h + " [required]"@
            } else {
                h
            },
        ),
        None => if is_req {
            Some("[required]"@)
        } else {
            None
        },
    }
}

/// The default value text of a property, when it has a `default` member.
pub open spec fn default_of(prop: JsonV) -> Option<Seq<char>> {
    match prop.get("default"@) {
        Some(d) => Some(value_text(d)),
        None => None,
    }
}

/// Processing one property.
pub open spec fn arg_step(
    st: ArgsState,
    name: Seq<char>,
    prop: JsonV,
    required: Seq<Seq<char>>,
) -> Result<ArgsState, CollisionV> {
    let flag = flag_name(name);
    match pair_get(st.seen, flag) {
        Some(existing) => Err(CollisionV { prop_a: name, prop_b: existing, flag: flag }),
        None => {
            let seen1 = pair_set(st.seen, flag, name);
            let is_req = required.contains(name);
            let help = help_of(prop);
            if get_str(prop, "type"@) == Some("boolean"@) {
                let bdef = match get_bool(prop, "default"@) {
                    Some(b) => b,
                    None => false,
                };
                let pos = ArgV {
                    id: name,
                    long: flag,
                    action: ArgAction::SetTrue,
                    parser: ParserV::Flag,
                    required: false,
                    help: help,
                    default_value: None,
                };
                let neg = ArgV {
                    id: "no-"@ + name,
                    long: "no-"@ + flag,
                    action: ArgAction::SetFalse,
                    parser: ParserV::Flag,
                    required: false,
                    help: match help {
                        Some(_) => Some("Disable --"@ + flag),
                        None => None,
                    },
                    default_value: None,
                };
                Ok(
                    ArgsState {
                        args: st.args.push(pos).push(neg),
                        pairs: st.pairs.push((name, flag, bdef)),
                        enums: st.enums,
                        seen: pair_set(seen1, "no-"@ + flag, "no-"@ + name),
                    },
                )
            } else {
                match get_array(prop, "enum"@) {
                    Some(ev) if ev.len() > 0 => {
                        let arg = ArgV {
                            id: name,
                            long: flag,
                            action: ArgAction::Store,
                            parser: ParserV::Choices(ev.map_values(|v: JsonV| value_text(v))),
                            required: false,
                            help: annotate_required(help, is_req),
                            default_value: default_of(prop),
                        };
                        Ok(
                            ArgsState {
                                args: st.args.push(arg),
                                pairs: st.pairs,
                                enums: pair_set(st.enums, name, ev),
                                seen: seen1,
                            },
                        )
                    },
                    _ => {
                        let arg = ArgV {
                            id: name,
                            long: flag,
                            action: ArgAction::Store,
                            parser: plain_parser(name, prop),
                            required: is_req,
                            help: help,
                            default_value: default_of(prop),
                        };
                        Ok(
                            ArgsState {
                                args: st.args.push(arg),
                                pairs: st.pairs,
                                enums: st.enums,
                                seen: seen1,
                            },
                        )
                    },
                }
            }
        },
    }
}

/// Processing the properties in order; the first collision stops.
pub open spec fn args_fold(
    props: Seq<(Seq<char>, JsonV)>,
    required: Seq<Seq<char>>,
) -> Result<ArgsState, CollisionV>
    decreases props.len(),
{
    if props.len() == 0 {
        Ok(ArgsState { args: Seq::empty(), pairs: Seq::empty(), enums: Seq::empty(), seen: Seq::empty() })
    } else {
        match args_fold(props.drop_last(), required) {
            Err(e) => Err(e),
            Ok(st) => arg_step(st, props.last().0, props.last().1, required),
        }
    }
}

/// The names listed in a schema's `required` array.
pub open spec fn required_names(schema: JsonV) -> Seq<Seq<char>> {
    match get_array(schema, "required"@) {
        Some(a) => str_items(a),
        None => Seq::empty(),
    }
}


/// What [`schema_to_clap_args`] produces for `schema`.
pub open spec fn schema_args_spec(schema: JsonV) -> Result<ArgsState, CollisionV> {
    match get_object(schema, "properties"@) {
        None => Ok(ArgsState { args: Seq::empty(), pairs: Seq::empty(), enums: Seq::empty(), seen: Seq::empty() }),
        Some(p) => args_fold(p, required_names(schema)),
    }
}

proof fn lemma_pair_set_keeps<V>(s: Seq<(Seq<char>, V)>, k: Seq<char>, v: V, k2: Seq<char>)
    ensures
        pair_get(s, k2) is Some ==> pair_get(pair_set(s, k, v), k2) is Some,
        pair_get(pair_set(s, k, v), k) is Some,
{
    let t = pair_set(s, k, v);
    lemma_first_index(s, k);
    lemma_first_index(s, k2);
    lemma_first_index(t, k);
    lemma_first_index(t, k2);
    match first_index(s, k) {
        Some(m) => {
            assert(t[m].0 == k);
            if let Some(i) = first_index(s, k2) {
                assert(t[i].0 == k2);
            }
        },
        None => {
            assert(t[s.len() as int].0 == k);
            if let Some(i) = first_index(s, k2) {
                assert(t[i].0 == k2);
            }
        },
    }
}

proof fn lemma_fold_seen(props: Seq<(Seq<char>, JsonV)>, required: Seq<Seq<char>>)
    ensures
        args_fold(props, required) matches Ok(st) ==> forall|i: int|
            0 <= i < props.len() ==> pair_get(st.seen, flag_name(#[trigger] props[i].0)) is Some,
    decreases props.len(),
{
    if props.len() > 0 {
        let d = props.drop_last();
        lemma_fold_seen(d, required);
        if let Ok(st) = args_fold(d, required) {
            let name = props.last().0;
            let flag = flag_name(name);
            let seen1 = pair_set(st.seen, flag, name);
            if let Ok(st2) = args_fold(props, required) {
                assert forall|i: int| 0 <= i < props.len() implies pair_get(st2.seen, flag_name(#[trigger] props[i].0)) is Some by {
                    let f = flag_name(props[i].0);
                    lemma_pair_set_keeps(st.seen, flag, name, f);
                    lemma_pair_set_keeps(seen1, "no-"@ + flag, "no-"@ + name, f);
                    if i < d.len() {
                        assert(d[i] == props[i]);
                        assert(pair_get(st.seen, flag_name(d[i].0)) is Some);
                    } else {
                        assert(props[i] == props.last());
                        lemma_pair_set_keeps(seen1, "no-"@ + flag, "no-"@ + name, flag);
                    }
                }
            }
        }
    }
}

/// Two properties whose names map to the same `--flag` make the whole schema
/// a flag collision: no option set comes out, whatever the other properties.
pub proof fn lemma_colliding_properties_fail(schema: JsonV, i: int, j: int)
    requires
        get_object(schema, "properties"@) matches Some(p) && 0 <= i < p.len() && 0 <= j < p.len() && i != j
            && flag_name(p[i].0) == flag_name(p[j].0),
    ensures
        schema_args_spec(schema) is Err,
{
    let p = get_object(schema, "properties"@)->0;
    let req = required_names(schema);
    let a = if i < j { i } else { j };
    let b = if i < j { j } else { i };
    let pre = p.take(b + 1);
    assert(pre.drop_last() =~= p.take(b));
    assert(pre.last() == p[b]);
    lemma_fold_seen(p.take(b), req);
    assert(p.take(b)[a] == p[a]);
    assert(args_fold(pre, req) is Err);
    lemma_fold_err_extends(p, b + 1, req);
}

// ---------------------------------------------------------------------------
// Implementation
// ---------------------------------------------------------------------------

impl SchemaParserError {
    /// The error's message.
    pub fn message(&self) -> (r: String)
        ensures
            match self {
                SchemaParserError::FlagCollision { prop_a, prop_b, flag_name } => r@
                    == "Flag name collision: properties '"@ + prop_a@ + "' and '"@ + prop_b@
                    + "' both map to '"@ + flag_name@ + "'"@,
            },
    {
        match self {
            SchemaParserError::FlagCollision { prop_a, prop_b, flag_name } => {
                let mut r = owned("Flag name collision: properties '");
                push_str(&mut r, prop_a.as_str());
                push_str(&mut r, "' and '");
                push_str(&mut r, prop_b.as_str());
                push_str(&mut r, "' both map to '");
                push_str(&mut r, flag_name.as_str());
                push_str(&mut r, "'");
                r
            },
        }
    }
}

/// Convert a property name (snake_case) to a CLI flag long name (kebab-case).
pub fn prop_name_to_flag_name(s: &str) -> (r: String)
    ensures
        r@ == flag_name(s@),
{
    replace_char(s, '_', '-')
}

/// Whether a property should be parsed as a path.
fn is_file_property(prop_name: &str, prop_schema: &Json) -> (r: bool)
    ensures
        r == is_file_prop(prop_name@, prop_schema@),
{
    if ends_with(prop_name, "_file") {
        return true;
    }
    match prop_schema.get("x-cli-file") {
        Some(v) => v.as_bool() == Some(true),
        None => false,
    }
}

/// A string member of `v`, when present.
fn member_str<'a>(v: &'a Json, key: &str) -> (r: Option<&'a String>)
    ensures
        match r {
            Some(s) => get_str(v@, key@) == Some(s@),
            None => get_str(v@, key@) is None,
        },
{
    match v.get(key) {
        Some(x) => x.as_str(),
        None => None,
    }
}

/// Extract help text from a schema property: a non-empty
/// `x-llm-description`, else a non-empty `description`, cut to
/// [`HELP_TEXT_MAX_LEN`] characters (197 characters and `"..."`).
pub fn extract_help(prop_schema: &Json) -> (r: Option<String>)
    ensures
        opt_view(r) == help_of(prop_schema@),
{
    let text: &String = match member_str(prop_schema, "x-llm-description") {
        Some(s) if !s.as_str().is_empty() => s,
        _ => match member_str(prop_schema, "description") {
            Some(s) if !s.as_str().is_empty() => s,
            _ => {
                return None;
            },
        },
    };
    let cs = chars_of(text.as_str());
    if cs.len() > HELP_TEXT_MAX_LEN {
        let k: usize = HELP_TEXT_MAX_LEN - 3;
        let mut head: Vec<char> = Vec::new();
        let mut i: usize = 0;
        while i < k
            invariant
                0 <= i <= k,
                k == 197,
                k < cs.len(),
                head@ == cs@.take(i as int),
            decreases k - i,
        {
            head.push(cs[i]);
            i = i + 1;
            assert(head@ =~= cs@.take(i as int));
        }
        let mut out = string_from_chars(&head);
        push_str(&mut out, "...");
        Some(out)
    } else {
        Some(text.clone())
    }
}

/// The text the option parser uses for a value.
fn value_text_exec(v: &Json) -> (r: String)
    ensures
        r@ == value_text(v@),
{
    match v {
        Json::Str(s) => s.clone(),
        _ => to_json_text(v),
    }
}

fn opt_value_text(v: Option<&Json>) -> (r: Option<String>)
    ensures
        opt_view(r) == match v {
            Some(x) => Some(value_text(x@)),
            None => None::<Seq<char>>,
        },
{
    match v {
        Some(x) => Some(value_text_exec(x)),
        None => None,
    }
}

/// Map a single schema property to an option taking a typed value.
///
/// `integer` and `number` properties parse as numbers, a `string` property
/// named `*_file` or marked `x-cli-file: true` as a path, anything else as
/// text.
pub fn map_type(prop_name: &str, prop_schema: &Json) -> (r: Result<ArgSpec, SchemaParserError>)
    ensures
        r matches Ok(a) && a@ == (ArgV {
            id: prop_name@,
            long: flag_name(prop_name@),
            action: ArgAction::Store,
            parser: plain_parser(prop_name@, prop_schema@),
            required: false,
            help: None,
            default_value: None,
        }),
{
    let flag_long = prop_name_to_flag_name(prop_name);
    let t = member_str(prop_schema, "type");
    let is_int = match t {
        Some(s) => str_eq(s.as_str(), "integer"),
        None => false,
    };
    let is_num = match t {
        Some(s) => str_eq(s.as_str(), "number"),
        None => false,
    };
    let is_string = match t {
        Some(s) => str_eq(s.as_str(), "string"),
        None => false,
    };
    let parser = if is_int {
        ValueParser::Integer
    } else if is_num {
        ValueParser::Number
    } else if is_string && is_file_property(prop_name, prop_schema) {
        ValueParser::Path
    } else {
        ValueParser::Text
    };
    Ok(
        ArgSpec {
            id: owned(prop_name),
            long: flag_long,
            action: ArgAction::Store,
            value_parser: parser,
            required: false,
            help: None,
            default_value: None,
        },
    )
}

fn required_list(schema: &Json) -> (r: Vec<String>)
    ensures
        strings_view(r@) == required_names(schema@),
{
    match schema.get("required") {
        Some(x) => match x.as_array() {
            Some(a) => {
                let v = crate::ref_resolver::str_items_pub(a);
                v
            },
            None => {
                let v: Vec<String> = Vec::new();
                assert(strings_view(v@) =~= Seq::<Seq<char>>::empty());
                v
            },
        },
        None => {
            let v: Vec<String> = Vec::new();
            assert(strings_view(v@) =~= Seq::<Seq<char>>::empty());
            v
        },
    }
}

fn contains_name(names: &Vec<String>, name: &str) -> (r: bool)
    ensures
        r == strings_view(names@).contains(name@),
{
    let r = crate::text::string_in(name, names);
    proof {
        let sv = strings_view(names@);
        if r {
            let m = choose|m: int| 0 <= m < names@.len() && names@[m]@ == name@;
            assert(sv[m] == name@);
        } else {
            assert forall|m: int| 0 <= m < sv.len() implies sv[m] != name@ by {
                assert(sv[m] == names@[m]@);
            }
        }
    }
    r
}

fn enums_index(v: &Vec<(String, Vec<Json>)>, k: &str) -> (r: Option<usize>)
    ensures
        match r {
            Some(i) => first_index(enums_view(v@), k@) == Some(i as int),
            None => first_index(enums_view(v@), k@) is None,
        },
{
    let ghost sv = enums_view(v@);
    let mut i: usize = 0;
    while i < v.len()
        invariant
            0 <= i <= v.len(),
            sv == enums_view(v@),
            forall|j: int| 0 <= j < i ==> sv[j].0 != k@,
        decreases v.len() - i,
    {
        if str_eq(v[i].0.as_str(), k) {
            proof {
                lemma_first_index_at(sv, k@, i as int);
            }
            return Some(i);
        }
        i = i + 1;
    }
    proof {
        lemma_first_index(sv, k@);
        if let Some(m) = first_index(sv, k@) {
            assert(sv[m].0 != k@);
        }
    }
    None
}

fn enums_set_exec(v: &mut Vec<(String, Vec<Json>)>, k: String, vals: Vec<Json>)
    ensures
        enums_view(final(v)@) == pair_set(enums_view(old(v)@), k@, json_seq_view(vals@)),
{
    let ghost kv = k@;
    let ghost vv = json_seq_view(vals@);
    proof {
        lemma_first_index(enums_view(v@), k@);
    }
    match enums_index(v, k.as_str()) {
        Some(i) => {
            v.set(i, (k, vals));
            assert(enums_view(v@) =~= enums_view(old(v)@).update(i as int, (kv, vv)));
        },
        None => {
            v.push((k, vals));
            assert(enums_view(v@) =~= enums_view(old(v)@).push((kv, vv)));
        },
    }
}

/// The current generator state as a spec value.
pub open spec fn state_of(
    args: Seq<ArgSpec>,
    pairs: Seq<BoolFlagPair>,
    enums: Seq<(String, Vec<Json>)>,
    seen: Seq<(String, String)>,
) -> ArgsState {
    ArgsState {
        args: args_view(args),
        pairs: pairs_view(pairs),
        enums: enums_view(enums),
        seen: str_pairs_view(seen),
    }
}

fn choice_texts(ev: &Vec<Json>) -> (r: Vec<String>)
    ensures
        strings_view(r@) == json_seq_view(ev@).map_values(|v: JsonV| value_text(v)),
{
    let mut out: Vec<String> = Vec::new();
    let mut i: usize = 0;
    while i < ev.len()
        invariant
            0 <= i <= ev.len(),
            strings_view(out@) == json_seq_view(ev@).take(i as int).map_values(
                |v: JsonV| value_text(v),
            ),
        decreases ev.len() - i,
    {
        let t = value_text_exec(&ev[i]);
        let ghost prev = out@;
        out.push(t);
        proof {
            let f = |v: JsonV| value_text(v);
            let jv = json_seq_view(ev@);
            assert(jv.take(i + 1) =~= jv.take(i as int).push(jv[i as int]));
            assert(jv.take(i + 1).map_values(f) =~= jv.take(i as int).map_values(f).push(f(jv[i as int])));
            assert(strings_view(out@) =~= strings_view(prev).push(t@));
        }
        i = i + 1;
    }
    assert(json_seq_view(ev@).take(ev.len() as int) == json_seq_view(ev@));
    out
}

/// One step of the generator.
fn arg_step_exec(
    args: &mut Vec<ArgSpec>,
    pairs: &mut Vec<BoolFlagPair>,
    enums: &mut Vec<(String, Vec<Json>)>,
    seen: &mut Vec<(String, String)>,
    name: &String,
    prop: &Json,
    required: &Vec<String>,
) -> (r: Result<(), SchemaParserError>)
    ensures
        match r {
            Ok(()) => arg_step(
                state_of(old(args)@, old(pairs)@, old(enums)@, old(seen)@),
                name@,
                prop@,
                strings_view(required@),
            ) == Ok::<ArgsState, CollisionV>(
                state_of(final(args)@, final(pairs)@, final(enums)@, final(seen)@),
            ),
            Err(SchemaParserError::FlagCollision { prop_a, prop_b, flag_name }) => arg_step(
                state_of(old(args)@, old(pairs)@, old(enums)@, old(seen)@),
                name@,
                prop@,
                strings_view(required@),
            ) == Err::<ArgsState, CollisionV>(
                CollisionV { prop_a: prop_a@, prop_b: prop_b@, flag: flag_name@ },
            ),
        },
{
    let flag_long = prop_name_to_flag_name(name.as_str());
    proof {
        lemma_first_index(str_pairs_view(seen@), flag_long@);
    }
    match find_str_pair(seen, flag_long.as_str()) {
        Some(i) => {
            return Err(
                SchemaParserError::FlagCollision {
                    prop_a: name.clone(),
                    prop_b: seen[i].1.clone(),
                    flag_name: flag_long,
                },
            );
        },
        None => {},
    }
    set_str_pair(seen, flag_long.clone(), name.clone());
    let is_required = contains_name(required, name.as_str());
    let help_text = extract_help(prop);
    let is_bool = match member_str(prop, "type") {
        Some(t) => str_eq(t.as_str(), "boolean"),
        None => false,
    };
    proof {
        reveal_strlit("boolean");
    }
    if is_bool {
        let bool_default = match prop.get("default") {
            Some(d) => match d.as_bool() {
                Some(b) => b,
                None => false,
            },
            None => false,
        };
        let neg_help = match &help_text {
            Some(_) => Some(concat2("Disable --", flag_long.as_str())),
            None => None,
        };
        let pos_help = help_text;
        let no_id = concat2("no-", name.as_str());
        let no_long = concat2("no-", flag_long.as_str());
        let pos = ArgSpec {
            id: name.clone(),
            long: flag_long.clone(),
            action: ArgAction::SetTrue,
            value_parser: ValueParser::Flag,
            required: false,
            help: pos_help,
            default_value: None,
        };
        let neg = ArgSpec {
            id: no_id.clone(),
            long: no_long.clone(),
            action: ArgAction::SetFalse,
            value_parser: ValueParser::Flag,
            required: false,
            help: neg_help,
            default_value: None,
        };
        let ghost a0 = args@;
        args.push(pos);
        args.push(neg);
        assert(args_view(args@) =~= args_view(a0).push(pos@).push(neg@));
        let ghost p0 = pairs@;
        let pair = BoolFlagPair { prop_name: name.clone(), flag_long: flag_long, default_val: bool_default };
        pairs.push(pair);
        assert(pairs_view(pairs@) =~= pairs_view(p0).push((name@, flag_name(name@), bool_default)));
        set_str_pair(seen, no_long, no_id);
        return Ok(());
    }
    let enum_values: Option<&Vec<Json>> = match prop.get("enum") {
        Some(e) => e.as_array(),
        None => None,
    };
    match enum_values {
        Some(ev) => {
            if ev.len() > 0 {
                let choices = choice_texts(ev);
                let help = match help_text {
                    Some(h) => Some(
                        if is_required {
                            concat2(h.as_str(), " [required]")
                        } else {
                            h
                        },
                    ),
                    None => if is_required {
                        Some(owned("[required]"))
                    } else {
                        None
                    },
                };
                let arg = ArgSpec {
                    id: name.clone(),
                    long: flag_long,
                    action: ArgAction::Store,
                    value_parser: ValueParser::Choices(choices),
                    required: false,
                    help: help,
                    default_value: opt_value_text(prop.get("default")),
                };
                let ghost a0 = args@;
                args.push(arg);
                assert(args_view(args@) =~= args_view(a0).push(arg@));
                let vals = dup_all(ev);
                enums_set_exec(enums, name.clone(), vals);
                return Ok(());
            }
        },
        None => {},
    }
    let plain = match map_type(name.as_str(), prop) {
        Ok(a) => a,
        Err(e) => {
            return Err(e);
        },
    };
    let arg = ArgSpec {
        id: plain.id,
        long: plain.long,
        action: ArgAction::Store,
        value_parser: plain.value_parser,
        required: is_required,
        help: help_text,
        default_value: opt_value_text(prop.get("default")),
    };
    let ghost a0 = args@;
    args.push(arg);
    assert(args_view(args@) =~= args_view(a0).push(arg@));
    Ok(())
}

/// Translate a JSON Schema `properties` map into option descriptions.
///
/// Each property becomes one `--<name>` option (underscores turned into
/// dashes): help from `x-llm-description` or `description`, `required` from
/// the schema's `required` list, `default` from the property. A boolean
/// property becomes a `--flag` / `--no-flag` pair, an enum property a choice
/// among its values' texts (presence is then checked after parsing, so the
/// option is never marked required and its help gets a `[required]` mark).
/// Two properties that map to the same flag are a `FlagCollision`. A schema
/// without `properties` yields no options.
pub fn schema_to_clap_args(schema: &Json) -> (r: Result<SchemaArgs, SchemaParserError>)
    ensures
        match r {
            Ok(sa) => schema_args_spec(schema@) matches Ok(st) && st.args == args_view(sa.args@)
                && st.pairs == pairs_view(sa.bool_pairs@) && st.enums == enums_view(
                sa.enum_maps@,
            ),
            Err(SchemaParserError::FlagCollision { prop_a, prop_b, flag_name }) => schema_args_spec(
                schema@,
            ) == Err::<ArgsState, CollisionV>(
                CollisionV { prop_a: prop_a@, prop_b: prop_b@, flag: flag_name@ },
            ),
        },
{
    let mut args: Vec<ArgSpec> = Vec::new();
    let mut pairs: Vec<BoolFlagPair> = Vec::new();
    let mut enums: Vec<(String, Vec<Json>)> = Vec::new();
    let mut seen: Vec<(String, String)> = Vec::new();
    assert(state_of(args@, pairs@, enums@, seen@) == (ArgsState {
        args: Seq::empty(),
        pairs: Seq::empty(),
        enums: Seq::empty(),
        seen: Seq::empty(),
    })) by {
        assert(args_view(args@) =~= Seq::<ArgV>::empty());
        assert(pairs_view(pairs@) =~= Seq::<(Seq<char>, Seq<char>, bool)>::empty());
        assert(enums_view(enums@) =~= Seq::<(Seq<char>, Seq<JsonV>)>::empty());
        assert(str_pairs_view(seen@) =~= Seq::<(Seq<char>, Seq<char>)>::empty());
    }
    let properties = match schema.get("properties") {
        Some(p) => match p.as_object() {
            Some(o) => o,
            None => {
                return Ok(SchemaArgs { args, bool_pairs: pairs, enum_maps: enums });
            },
        },
        None => {
            return Ok(SchemaArgs { args, bool_pairs: pairs, enum_maps: enums });
        },
    };
    let required = required_list(schema);
    let ghost pv = entries_view(properties@);
    let ghost rv = strings_view(required@);
    let mut i: usize = 0;
    while i < properties.len()
        invariant
            0 <= i <= properties.len(),
            pv == entries_view(properties@),
            rv == strings_view(required@),
            get_object(schema@, "properties"@) == Some(pv),
            required_names(schema@) == rv,
            args_fold(pv.take(i as int), rv) == Ok::<ArgsState, CollisionV>(
                state_of(args@, pairs@, enums@, seen@),
            ),
        decreases properties.len() - i,
    {
        proof {
            assert(pv.take(i + 1).drop_last() == pv.take(i as int));
            assert(pv.take(i + 1).last() == pv[i as int]);
            assert(pv[i as int].1 == properties@[i as int].1@);
            assert(pv[i as int].0 == properties@[i as int].0@);
        }
        let res = arg_step_exec(
            &mut args,
            &mut pairs,
            &mut enums,
            &mut seen,
            &properties[i].0,
            &properties[i].1,
            &required,
        );
        match res {
            Ok(()) => {},
            Err(e) => {
                proof {
                    assert(pv.take(i + 1).drop_last() == pv.take(i as int));
                    assert(args_fold(pv.take(i + 1), rv) is Err);
                    crate::schema_parser::lemma_fold_err_extends(pv, i + 1, rv);
                }
                return Err(e);
            },
        }
        i = i + 1;
    }
    assert(pv.take(properties.len() as int) == pv);
    Ok(SchemaArgs { args, bool_pairs: pairs, enum_maps: enums })
}

proof fn lemma_fold_err_extends(s: Seq<(Seq<char>, JsonV)>, n: int, req: Seq<Seq<char>>)
    requires
        0 <= n <= s.len(),
        args_fold(s.take(n), req) is Err,
    ensures
        args_fold(s, req) == args_fold(s.take(n), req),
    decreases s.len() - n,
{
    if n < s.len() {
        assert(s.take(n + 1).drop_last() == s.take(n));
        lemma_fold_err_extends(s, n + 1, req);
    } else {
        assert(s.take(n) == s);
    }
}


// ---------------------------------------------------------------------------
// Enum value reconversion
// ---------------------------------------------------------------------------

/// The first enum variant whose option text is `s`.
pub open spec fn find_variant(vs: Seq<JsonV>, s: Seq<char>) -> Option<JsonV>
    decreases vs.len(),
{
    if vs.len() == 0 {
        None
    } else if value_text(vs[0]) == s {
        Some(vs[0])
    } else {
        find_variant(vs.drop_first(), s)
    }
}

/// The typed value an enum option's text `s` stands for, `orig` being the
/// schema variant it was generated from: an integer variant that fits `i64`
/// is the variant itself (its text parses back to it); any other number is
/// the floating-point number written `s`, kept as its text (the caller reads
/// it as an `f64` when handing values on); a boolean variant is `true`
/// exactly when `s`
/// lower-cases to `true`; a string keeps the text.
pub open spec fn reconverted(orig: JsonV, s: Seq<char>) -> JsonV {
    match orig {
        JsonV::Number(NumV::NegInt(_)) => orig,
        JsonV::Number(NumV::PosInt(u)) => if u <= i64::MAX as u64 {
            orig
        } else {
            JsonV::Number(NumV::Float(s))
        },
        JsonV::Number(NumV::Float(_)) => JsonV::Number(NumV::Float(s)),
        JsonV::Bool(_) => JsonV::Bool(crate::text::unicode_lowercase(s) == "true"@),
        _ => JsonV::Str(s),
    }
}

/// One enum's reconversion step.
pub open spec fn reconvert_step(
    kw: Seq<(Seq<char>, JsonV)>,
    key: Seq<char>,
    vs: Seq<JsonV>,
) -> Seq<(Seq<char>, JsonV)> {
    match lookup(kw, key) {
        Some(JsonV::Str(s)) => match find_variant(vs, s) {
            Some(orig) => crate::json::entries_insert(kw, key, reconverted(orig, s)),
            None => kw,
        },
        _ => kw,
    }
}

/// All enums' reconversion, in `enum_maps` order.
pub open spec fn reconvert_all(
    kw: Seq<(Seq<char>, JsonV)>,
    enums: Seq<(Seq<char>, Seq<JsonV>)>,
) -> Seq<(Seq<char>, JsonV)>
    decreases enums.len(),
{
    if enums.len() == 0 {
        kw
    } else {
        reconvert_step(reconvert_all(kw, enums.drop_last()), enums.last().0, enums.last().1)
    }
}

fn find_variant_exec<'a>(vs: &'a Vec<Json>, s: &str) -> (r: Option<&'a Json>)
    ensures
        match r {
            Some(v) => find_variant(json_seq_view(vs@), s@) == Some(v@),
            None => find_variant(json_seq_view(vs@), s@) is None,
        },
{
    let ghost jv = json_seq_view(vs@);
    let mut i: usize = 0;
    assert(jv.skip(0) =~= jv);
    while i < vs.len()
        invariant
            0 <= i <= vs.len(),
            jv == json_seq_view(vs@),
            find_variant(jv, s@) == find_variant(jv.skip(i as int), s@),
        decreases vs.len() - i,
    {
        assert(jv.skip(i as int)[0] == vs@[i as int]@);
        assert(jv.skip(i as int).drop_first() == jv.skip(i + 1));
        let t = value_text_exec(&vs[i]);
        if str_eq(t.as_str(), s) {
            return Some(&vs[i]);
        }
        i = i + 1;
    }
    assert(jv.skip(i as int).len() == 0);
    None
}

fn reconverted_exec(orig: &Json, s: &String) -> (r: Json)
    ensures
        r@ == reconverted(orig@, s@),
{
    match orig {
        Json::Number(JsonNumber::NegInt(_)) => orig.dup(),
        Json::Number(JsonNumber::PosInt(u)) => {
            if *u <= 9223372036854775807u64 {
                orig.dup()
            } else {
                Json::Number(JsonNumber::Float(s.clone()))
            }
        },
        Json::Number(JsonNumber::Float(_)) => Json::Number(JsonNumber::Float(s.clone())),
        Json::Bool(_) => {
            let l = crate::text::to_lowercase(s.as_str());
            Json::Bool(str_eq(l.as_str(), "true"))
        },
        _ => Json::Str(s.clone()),
    }
}

/// Map the strings the option parser produced for enum options back to the
/// schema's typed enum values (numbers and booleans regain their type;
/// values absent, null or matching no variant are left as they are).
pub fn reconvert_enum_values(kwargs: Vec<(String, Json)>, schema_args: &SchemaArgs) -> (r: Vec<
    (String, Json),
>)
    ensures
        entries_view(r@) == reconvert_all(entries_view(kwargs@), enums_view(schema_args.enum_maps@)),
{
    let mut result = kwargs;
    let ghost k0 = entries_view(result@);
    let ghost ev = enums_view(schema_args.enum_maps@);
    let mut i: usize = 0;
    assert(ev.take(0) =~= Seq::<(Seq<char>, Seq<JsonV>)>::empty());
    while i < schema_args.enum_maps.len()
        invariant
            0 <= i <= schema_args.enum_maps.len(),
            ev == enums_view(schema_args.enum_maps@),
            entries_view(result@) == reconvert_all(k0, ev.take(i as int)),
        decreases schema_args.enum_maps.len() - i,
    {
        let key = &schema_args.enum_maps[i].0;
        let variants = &schema_args.enum_maps[i].1;
        assert(ev.take(i + 1).drop_last() == ev.take(i as int));
        assert(ev.take(i + 1).last() == (key@, json_seq_view(variants@)));
        let found: Option<Json> = match crate::json::entries_get(&result, key.as_str()) {
            Some(Json::Str(sv)) => match find_variant_exec(variants, sv.as_str()) {
                Some(orig) => Some(reconverted_exec(orig, sv)),
                None => None,
            },
            _ => None,
        };
        match found {
            Some(v) => {
                crate::json::entries_set(&mut result, key.clone(), v);
            },
            None => {},
        }
        i = i + 1;
    }
    assert(ev.take(schema_args.enum_maps.len() as int) == ev);
    result
}


} // verus!
