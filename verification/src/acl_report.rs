//! What the `apcli acl` commands report: the rule list, a simulated access
//! decision, the rule-validation findings and the governance status, each
//! as JSON and as text, and the simulation context of `acl check`.
//!
//! The rule set, the decision, the findings and the governance state come
//! from apcore; the caller copies the fields read here into the plain
//! records below.
use vstd::prelude::*;
use crate::json::{
    Json, JsonV, JsonNumber, NumV, entries_view, json_seq_view, lemma_object_view,
    lemma_array_view, pretty_text, to_pretty_text,
};
use crate::text::{
    owned, concat2, concat3, push_str, str_eq, decimal, usize_to_string, pad_right, pad_right_seq,
    to_uppercase, unicode_uppercase, join_strings,
};
use crate::acl::{IdentityCell, CliIdentity, cli_identity, yes_no, condition_keys, condition_keys_spec};

use crate::text::{strings_view, opt_view};

verus! {

// ---------------------------------------------------------------------------
// Records
// ---------------------------------------------------------------------------

/// One ACL rule, as authored.
#[derive(Debug)]
pub struct AclRuleInfo {
    pub callers: Vec<String>,
    pub targets: Vec<String>,
    pub effect: String,
    /// The rule carries `approval: required`.
    pub approval_required: bool,
    pub description: Option<String>,
    pub conditions: Option<Json>,
}

/// An ACL: its rules in definition (and evaluation) order and its default
/// effect.
#[derive(Debug)]
pub struct AclInfo {
    pub rules: Vec<AclRuleInfo>,
    pub default_effect: String,
}

/// One rule-validation finding.
#[derive(Debug)]
pub struct FindingInfo {
    pub rule_index: usize,
    pub condition_path: String,
    pub condition_key: Option<String>,
    pub effect: String,
    pub sync_resolvable: bool,
    pub async_resolvable: bool,
}

/// What the executor reports about the gates in force.
#[derive(Debug)]
pub struct GovernanceInfo {
    pub control_modules_registered: bool,
    pub read_modules_registered: bool,
    pub acl_configured: bool,
    pub builtin_acl_gate_wired: bool,
    pub approval_handler_configured: bool,
    pub builtin_approval_gate_wired: bool,
    pub policy_strict: bool,
    pub all_control_modules_require_approval: bool,
    pub unprotected_control_surface: bool,
}

/// A simulated access decision.
#[derive(Debug)]
pub struct DecisionInfo {
    pub access: String,
    pub approval_required: bool,
    pub matched_rule_index: Option<usize>,
    pub reason: String,
}

// ---------------------------------------------------------------------------
// JSON helpers
// ---------------------------------------------------------------------------

pub open spec fn str_array(v: Seq<Seq<char>>) -> JsonV {
    JsonV::Array(v.map_values(|s: Seq<char>| JsonV::Str(s)))
}

pub open spec fn str_or_null(o: Option<Seq<char>>) -> JsonV {
    match o {
        Some(s) => JsonV::Str(s),
        None => JsonV::Null,
    }
}

pub open spec fn index_json(i: usize) -> JsonV {
    JsonV::Number(NumV::PosInt(i as u64))
}

fn string_array(v: &Vec<String>) -> (r: Json)
    ensures
        r@ == str_array(strings_view(v@)),
{
    let ghost sv = strings_view(v@);
    let mut out: Vec<Json> = Vec::new();
    let mut i: usize = 0;
    while i < v.len()
        invariant
            0 <= i <= v.len(),
            sv == strings_view(v@),
            json_seq_view(out@) == sv.take(i as int).map_values(|s: Seq<char>| JsonV::Str(s)),
        decreases v.len() - i,
    {
        let ghost before = json_seq_view(out@);
        let c = v[i].clone();
        assert(c@ == sv[i as int]);
        out.push(Json::Str(c));
        assert(json_seq_view(out@) =~= before.push(JsonV::Str(sv[i as int])));
        assert(sv.take(i + 1) =~= sv.take(i as int).push(sv[i as int]));
        assert(json_seq_view(out@) =~= sv.take(i + 1).map_values(|s: Seq<char>| JsonV::Str(s)));
        i = i + 1;
    }
    assert(sv.take(i as int) == sv);
    proof {
        lemma_array_view(&out);
    }
    Json::Array(out)
}

fn opt_string_json(o: &Option<String>) -> (r: Json)
    ensures
        r@ == str_or_null(opt_view(*o)),
{
    match o {
        Some(s) => Json::Str(s.clone()),
        None => Json::Null,
    }
}

fn object(e: Vec<(String, Json)>) -> (r: Json)
    ensures
        r@ == JsonV::Object(entries_view(e@)),
{
    proof {
        lemma_object_view(&e);
    }
    Json::Object(e)
}

// ---------------------------------------------------------------------------
// acl list
// ---------------------------------------------------------------------------

pub open spec fn approval_label(required: bool) -> Seq<char> {
    if required {
        "required"@
    } else {
        "not_required"@
    }
}

/// A rule's row in `acl list --format json`.
pub open spec fn rule_json(index: usize, r: AclRuleInfo) -> JsonV {
    JsonV::Object(
        seq![
            ("index"@, index_json(index)),
            ("effect"@, JsonV::Str(r.effect@)),
            ("approval"@, JsonV::Str(approval_label(r.approval_required))),
            ("callers"@, str_array(strings_view(r.callers@))),
            ("targets"@, str_array(strings_view(r.targets@))),
            (
                "conditions"@,
                match r.conditions {
                    Some(c) => c@,
                    None => JsonV::Null,
                },
            ),
            ("description"@, str_or_null(opt_view(r.description))),
        ],
    )
}

pub open spec fn rules_json(rules: Seq<AclRuleInfo>) -> Seq<JsonV> {
    Seq::new(rules.len(), |i: int| rule_json(i as usize, rules[i]))
}

/// The body of `acl list --format json`: the source, the default effect and
/// the rules in definition order; with no ACL, nulls and no rules.
pub open spec fn list_json(acl: Option<AclInfo>, source: Option<Seq<char>>) -> JsonV {
    match acl {
        None => JsonV::Object(
            seq![
                ("source"@, JsonV::Null),
                ("default_effect"@, JsonV::Null),
                ("rules"@, JsonV::Array(Seq::empty())),
            ],
        ),
        Some(a) => JsonV::Object(
            seq![
                ("source"@, str_or_null(source)),
                ("default_effect"@, JsonV::Str(a.default_effect@)),
                ("rules"@, JsonV::Array(rules_json(a.rules@))),
            ],
        ),
    }
}

fn rule_row(index: usize, r: &AclRuleInfo) -> (j: Json)
    ensures
        j@ == rule_json(index, *r),
{
    let mut e: Vec<(String, Json)> = Vec::new();
    e.push((owned("index"), Json::Number(JsonNumber::PosInt(index as u64))));
    e.push((owned("effect"), Json::Str(r.effect.clone())));
    let label = if r.approval_required {
        "required"
    } else {
        "not_required"
    };
    e.push((owned("approval"), Json::Str(owned(label))));
    e.push((owned("callers"), string_array(&r.callers)));
    e.push((owned("targets"), string_array(&r.targets)));
    let conditions = match &r.conditions {
        Some(c) => c.dup(),
        None => Json::Null,
    };
    e.push((owned("conditions"), conditions));
    e.push((owned("description"), opt_string_json(&r.description)));
    let ghost ev = entries_view(e@);
    let j = object(e);
    assert(ev =~= rule_json(index, *r)->Object_0);
    j
}

/// The JSON body of `acl list`.
pub fn list_payload(acl: Option<&AclInfo>, source: Option<&str>) -> (r: Json)
    ensures
        r@ == list_json(
            match acl {
                Some(a) => Some(*a),
                None => None,
            },
            match source {
                Some(s) => Some(s@),
                None => None,
            },
        ),
{
    let mut e: Vec<(String, Json)> = Vec::new();
    match acl {
        None => {
            e.push((owned("source"), Json::Null));
            e.push((owned("default_effect"), Json::Null));
            let empty: Vec<Json> = Vec::new();
            proof {
                lemma_array_view(&empty);
                assert(json_seq_view(empty@) =~= Seq::<JsonV>::empty());
            }
            e.push((owned("rules"), Json::Array(empty)));
            let ghost ev = entries_view(e@);
            let r = object(e);
            assert(ev =~= list_json(None, None)->Object_0);
            r
        },
        Some(a) => {
            let src = match source {
                Some(s) => Json::Str(owned(s)),
                None => Json::Null,
            };
            e.push((owned("source"), src));
            e.push((owned("default_effect"), Json::Str(a.default_effect.clone())));
            let mut rows: Vec<Json> = Vec::new();
            let mut i: usize = 0;
            while i < a.rules.len()
                invariant
                    0 <= i <= a.rules.len(),
                    json_seq_view(rows@) == rules_json(a.rules@).take(i as int),
                decreases a.rules.len() - i,
            {
                let ghost before = json_seq_view(rows@);
                let row = rule_row(i, &a.rules[i]);
                let ghost rv = row@;
                rows.push(row);
                assert(json_seq_view(rows@) =~= before.push(rv));
                assert(rules_json(a.rules@).take(i + 1) =~= rules_json(a.rules@).take(i as int).push(
                    rule_json(i, a.rules@[i as int]),
                ));
                assert(json_seq_view(rows@) =~= rules_json(a.rules@).take(i + 1));
                i = i + 1;
            }
            assert(rules_json(a.rules@).take(i as int) =~= rules_json(a.rules@));
            proof {
                lemma_array_view(&rows);
            }
            e.push((owned("rules"), Json::Array(rows)));
            let ghost ev = entries_view(e@);
            let r = object(e);
            assert(ev =~= list_json(
                Some(*a),
                match source {
                    Some(s) => Some(s@),
                    None => None,
                },
            )->Object_0);
            r
        },
    }
}

pub open spec fn object_rows(items: Seq<JsonV>) -> Seq<Seq<(Seq<char>, JsonV)>>
    decreases items.len(),
{
    if items.len() == 0 {
        Seq::empty()
    } else {
        let r = object_rows(items.drop_last());
        match items.last() {
            JsonV::Object(o) => r.push(o),
            _ => r,
        }
    }
}


/// The objects listed under `key` of a payload, for the row-wise formats.
pub fn value_rows(payload: &Json, key: &str) -> (r: Vec<Vec<(String, Json)>>)
    ensures
        crate::output::rows_view(r@) == match payload@.get(key@) {
            Some(JsonV::Array(items)) => object_rows(items),
            _ => Seq::empty(),
        },
{
    let mut out: Vec<Vec<(String, Json)>> = Vec::new();
    let items = match payload.get(key) {
        Some(v) => match v.as_array() {
            Some(a) => a,
            None => {
                assert(crate::output::rows_view(out@) =~= Seq::<Seq<(Seq<char>, JsonV)>>::empty());
                return out;
            },
        },
        None => {
            assert(crate::output::rows_view(out@) =~= Seq::<Seq<(Seq<char>, JsonV)>>::empty());
            return out;
        },
    };
    let ghost iv = json_seq_view(items@);
    let mut i: usize = 0;
    assert(crate::output::rows_view(out@) =~= object_rows(iv.take(0)));
    while i < items.len()
        invariant
            0 <= i <= items.len(),
            iv == json_seq_view(items@),
            payload@.get(key@) == Some(JsonV::Array(iv)),
            crate::output::rows_view(out@) == object_rows(iv.take(i as int)),
        decreases items.len() - i,
    {
        assert(iv.take(i + 1).drop_last() == iv.take(i as int));
        assert(iv.take(i + 1).last() == items@[i as int]@);
        match items[i].as_object() {
            Some(o) => {
                let ghost before = crate::output::rows_view(out@);
                let d = crate::json::dup_entries(o);
                let ghost dv = entries_view(d@);
                out.push(d);
                assert(crate::output::rows_view(out@) =~= before.push(dv));
            },
            None => {},
        }
        i = i + 1;
    }
    assert(iv.take(i as int) == iv);
    out
}

/// The header line of the `acl list` table.
pub open spec fn list_header(a: AclInfo, source: Option<Seq<char>>) -> Seq<char> {
    "Default effect: "@ + a.default_effect@ + "   (source: "@ + (match source {
        Some(s) => s,
        None => "<unknown>"@,
    }) + ", "@ + decimal(a.rules@.len()) + " "@ + (if a.rules@.len() == 1 {
        "rule"@
    } else {
        "rules"@
    }) + ")"@
}

/// One row of the `acl list` table: index, effect, approval, callers and
/// targets joined with `, `, the condition keys (`-` when none) and the
/// description (empty when none).
pub open spec fn rule_table_row(index: nat, r: AclRuleInfo) -> Seq<Seq<char>> {
    let keys = condition_keys_spec(
        match r.conditions {
            Some(c) => Some(c@),
            None => None,
        },
    );
    seq![
        decimal(index),
        r.effect@,
        if r.approval_required {
            "required"@
        } else {
            "not_required"@
        },
        crate::text::join_with(strings_view(r.callers@), ", "@),
        crate::text::join_with(strings_view(r.targets@), ", "@),
        if keys.len() == 0 {
            "-"@
        } else {
            crate::text::join_with(keys, ", "@)
        },
        match r.description {
            Some(d) => d@,
            None => Seq::empty(),
        },
    ]
}

/// Rows of strings, as plain values.
pub open spec fn text_rows_view(rows: Seq<Vec<String>>) -> Seq<Seq<Seq<char>>> {
    rows.map_values(|r: Vec<String>| strings_view(r@))
}

fn rule_cells(index: usize, r: &AclRuleInfo) -> (v: Vec<String>)
    ensures
        strings_view(v@) == rule_table_row(index as nat, *r),
{
    let mut row: Vec<String> = Vec::new();
    let c0 = usize_to_string(index);
    let c1 = r.effect.clone();
    let c2 = if r.approval_required {
        owned("required")
    } else {
        owned("not_required")
    };
    let c3 = join_strings(&r.callers, ", ");
    let c4 = join_strings(&r.targets, ", ");
    let keys = condition_keys(
        match &r.conditions {
            Some(c) => Some(c),
            None => None,
        },
    );
    assert(keys@.map_values(|s: String| s@) == strings_view(keys@));
    let c5 = if keys.len() == 0 {
        owned("-")
    } else {
        join_strings(&keys, ", ")
    };
    let c6 = match &r.description {
        Some(d) => d.clone(),
        None => String::new(),
    };
    let ghost cells = seq![c0@, c1@, c2@, c3@, c4@, c5@, c6@];
    row.push(c0);
    row.push(c1);
    row.push(c2);
    row.push(c3);
    row.push(c4);
    row.push(c5);
    row.push(c6);
    assert(strings_view(row@) =~= cells);
    row
}

/// The rows of the `acl list` table, one per rule in definition order.
pub fn rule_grid(rules: &Vec<AclRuleInfo>) -> (r: Vec<Vec<String>>)
    ensures
        text_rows_view(r@) == Seq::new(rules@.len(), |i: int| rule_table_row(i as nat, rules@[i])),
{
    let mut rows: Vec<Vec<String>> = Vec::new();
    let mut i: usize = 0;
    while i < rules.len()
        invariant
            0 <= i <= rules.len(),
            text_rows_view(rows@) == Seq::new(i as nat, |k: int| rule_table_row(k as nat, rules@[k])),
        decreases rules.len() - i,
    {
        let ghost prev = rows@;
        let row = rule_cells(i, &rules[i]);
        let ghost rv = strings_view(row@);
        rows.push(row);
        assert(text_rows_view(rows@) =~= text_rows_view(prev).push(rv));
        assert(text_rows_view(rows@) =~= Seq::new((i + 1) as nat, |k: int| rule_table_row(k as nat, rules@[k])));
        i = i + 1;
    }
    rows
}

/// The `acl list` table: "No ACL configured." without an ACL; otherwise a
/// header with the default effect, the source and the rule count, then,
/// when there are rules, the [`rule_grid`] (index, effect, approval,
/// callers, targets, condition keys but not their bodies, description)
/// drawn as a table.
/// The column names of the `acl list` table.
pub open spec fn rule_headers() -> Seq<Seq<char>> {
    seq!["#"@, "Effect"@, "Approval"@, "Callers"@, "Targets"@, "Conditions"@, "Description"@]
}

/// The `acl list` table text.
pub open spec fn list_table_text(acl: Option<AclInfo>, source: Option<Seq<char>>, width: Option<u16>) -> Seq<char> {
    match acl {
        None => "No ACL configured."@,
        Some(a) => {
            let h = list_header(a, source);
            if a.rules@.len() == 0 {
                h
            } else {
                h + "\n\n"@ + crate::output::grid_text(
                    rule_headers(),
                    Seq::new(a.rules@.len(), |i: int| rule_table_row(i as nat, a.rules@[i])),
                    width,
                )
            }
        },
    }
}

pub fn render_list_table(acl: Option<&AclInfo>, source: Option<&str>, width: Option<u16>) -> (r: String)
    ensures
        r@ == list_table_text(
            match acl {
                Some(a) => Some(*a),
                None => None,
            },
            match source {
                Some(s) => Some(s@),
                None => None,
            },
            width,
        ),
{
    let a = match acl {
        None => {
            return owned("No ACL configured.");
        },
        Some(a) => a,
    };
    let mut header = owned("Default effect: ");
    push_str(&mut header, a.default_effect.as_str());
    push_str(&mut header, "   (source: ");
    match source {
        Some(s) => push_str(&mut header, s),
        None => push_str(&mut header, "<unknown>"),
    }
    push_str(&mut header, ", ");
    push_str(&mut header, usize_to_string(a.rules.len()).as_str());
    if a.rules.len() == 1 {
        push_str(&mut header, " rule)");
        proof {
            reveal_strlit(" rule)");
            reveal_strlit(" ");
            reveal_strlit("rule");
            reveal_strlit(")");
            assert(" rule)"@ =~= " "@ + "rule"@ + ")"@);
        }
    } else {
        push_str(&mut header, " rules)");
        proof {
            reveal_strlit(" rules)");
            reveal_strlit(" ");
            reveal_strlit("rules");
            reveal_strlit(")");
            assert(" rules)"@ =~= " "@ + "rules"@ + ")"@);
        }
    }
    assert(header@ =~= list_header(
        *a,
        match source {
            Some(s) => Some(s@),
            None => None,
        },
    ));
    if a.rules.len() == 0 {
        return header;
    }
    let mut headers: Vec<String> = Vec::new();
    headers.push(owned("#"));
    headers.push(owned("Effect"));
    headers.push(owned("Approval"));
    headers.push(owned("Callers"));
    headers.push(owned("Targets"));
    headers.push(owned("Conditions"));
    headers.push(owned("Description"));
    assert(strings_view(headers@) =~= rule_headers());
    let rows = rule_grid(&a.rules);
    let table = crate::output::render_grid(&headers, &rows, width);
    let ghost h = header@;
    let mut out = header;
    push_str(&mut out, "\n\n");
    push_str(&mut out, table.as_str());
    proof {
        reveal_strlit("\n\n");
    }
    out
}

/// The rule rows of a list payload, for the tabular formats.
pub open spec fn payload_rule_rows(acl: Option<AclInfo>, source: Option<Seq<char>>) -> Seq<Seq<(Seq<char>, JsonV)>> {
    match list_json(acl, source).get("rules"@) {
        Some(JsonV::Array(items)) => object_rows(items),
        _ => Seq::empty(),
    }
}

/// `acl list` in `format`: pretty JSON; `yaml` through `serde_yaml_ng`
/// (without trailing whitespace; empty if it fails); `csv` and `jsonl` of
/// the rule rows through `apcore-toolkit` (without trailing line breaks);
/// the table (fitted to `width` when given) for `table` and any other
/// format.
pub fn render_list(acl: Option<&AclInfo>, source: Option<&str>, format: &str, width: Option<u16>) -> (r: String)
    ensures
        ({
            let a = match acl {
                Some(a) => Some(*a),
                None => None,
            };
            let src = match source {
                Some(s) => Some(s@),
                None => None,
            };
            r@ == if format@ == "json"@ {
                pretty_text(list_json(a, src))
            } else if format@ == "yaml"@ {
                match crate::output::yaml_text(list_json(a, src)) {
                    Some(y) => crate::text::trim_end_seq(y),
                    None => Seq::empty(),
                }
            } else if format@ == "csv"@ {
                crate::text::strip_suffixes(crate::output::csv_text(payload_rule_rows(a, src)), "\r\n"@)
            } else if format@ == "jsonl"@ {
                crate::text::strip_suffixes(crate::output::jsonl_text(payload_rule_rows(a, src)), "\n"@)
            } else {
                list_table_text(a, src, width)
            }
        }),
{
    proof {
        reveal_strlit("json");
        reveal_strlit("yaml");
        reveal_strlit("csv");
        reveal_strlit("jsonl");
        reveal_strlit("\r\n");
        reveal_strlit("\n");
    }
    if str_eq(format, "json") {
        let p = list_payload(acl, source);
        return to_pretty_text(&p);
    }
    if str_eq(format, "yaml") {
        let p = list_payload(acl, source);
        return match crate::output::render_yaml(&p) {
            Some(y) => crate::text::trim_end(y.as_str()),
            None => String::new(),
        };
    }
    if str_eq(format, "csv") {
        let p = list_payload(acl, source);
        let rows = value_rows(&p, "rules");
        let t = crate::output::render_csv(&rows);
        return crate::text::trim_end_matches(t.as_str(), "\r\n");
    }
    if str_eq(format, "jsonl") {
        let p = list_payload(acl, source);
        let rows = value_rows(&p, "rules");
        let t = crate::output::render_jsonl(&rows);
        return crate::text::trim_end_matches(t.as_str(), "\n");
    }
    render_list_table(acl, source, width)
}

// ---------------------------------------------------------------------------
// acl validate
// ---------------------------------------------------------------------------

pub open spec fn finding_json(f: FindingInfo) -> JsonV {
    JsonV::Object(
        seq![
            ("rule_index"@, index_json(f.rule_index)),
            ("condition_path"@, JsonV::Str(f.condition_path@)),
            ("condition_key"@, str_or_null(opt_view(f.condition_key))),
            ("effect"@, JsonV::Str(f.effect@)),
            ("sync_resolvable"@, JsonV::Bool(f.sync_resolvable)),
            ("async_resolvable"@, JsonV::Bool(f.async_resolvable)),
        ],
    )
}

/// The body of `acl validate --format json`: the count and every finding,
/// the two resolvability axes kept apart.
pub open spec fn validate_json(findings: Seq<FindingInfo>) -> JsonV {
    JsonV::Object(
        seq![
            ("count"@, index_json(findings.len() as usize)),
            ("findings"@, JsonV::Array(findings.map_values(|f: FindingInfo| finding_json(f)))),
        ],
    )
}

fn finding_row(f: &FindingInfo) -> (r: Json)
    ensures
        r@ == finding_json(*f),
{
    let mut e: Vec<(String, Json)> = Vec::new();
    e.push((owned("rule_index"), Json::Number(JsonNumber::PosInt(f.rule_index as u64))));
    e.push((owned("condition_path"), Json::Str(f.condition_path.clone())));
    e.push((owned("condition_key"), opt_string_json(&f.condition_key)));
    e.push((owned("effect"), Json::Str(f.effect.clone())));
    e.push((owned("sync_resolvable"), Json::Bool(f.sync_resolvable)));
    e.push((owned("async_resolvable"), Json::Bool(f.async_resolvable)));
    let ghost ev = entries_view(e@);
    let r = object(e);
    assert(ev =~= finding_json(*f)->Object_0);
    r
}

/// The JSON body of `acl validate`.
pub fn validate_payload(findings: &Vec<FindingInfo>) -> (r: Json)
    ensures
        r@ == validate_json(findings@),
{
    let mut rows: Vec<Json> = Vec::new();
    let mut i: usize = 0;
    while i < findings.len()
        invariant
            0 <= i <= findings.len(),
            json_seq_view(rows@) == findings@.take(i as int).map_values(|f: FindingInfo| finding_json(f)),
        decreases findings.len() - i,
    {
        let ghost before = json_seq_view(rows@);
        let row = finding_row(&findings[i]);
        let ghost rv = row@;
        rows.push(row);
        assert(json_seq_view(rows@) =~= before.push(rv));
        assert(findings@.take(i + 1) =~= findings@.take(i as int).push(findings@[i as int]));
        assert(json_seq_view(rows@) =~= findings@.take(i + 1).map_values(|f: FindingInfo| finding_json(f)));
        i = i + 1;
    }
    assert(findings@.take(i as int) == findings@);
    proof {
        lemma_array_view(&rows);
    }
    let mut e: Vec<(String, Json)> = Vec::new();
    e.push((owned("count"), Json::Number(JsonNumber::PosInt(findings.len() as u64))));
    e.push((owned("findings"), Json::Array(rows)));
    let ghost ev = entries_view(e@);
    let r = object(e);
    assert(ev =~= validate_json(findings@)->Object_0);
    r
}

pub open spec fn validate_closing() -> Seq<char> {
    "\n\nA finding on a `deny` rule is the consequential one: that rule now denies every call it matches."@
}

pub open spec fn validate_heading(n: nat) -> Seq<char> {
    decimal(n) + " "@ + (if n == 1 {
        "finding"@
    } else {
        "findings"@
    }) + ":\n\n"@
}

/// One row of the `acl validate` table: rule index, condition path,
/// condition key (`-` when none), effect and the two resolvability axes.
pub open spec fn finding_table_row(f: FindingInfo) -> Seq<Seq<char>> {
    seq![
        decimal(f.rule_index as nat),
        f.condition_path@,
        match f.condition_key {
            Some(k) => k@,
            None => "-"@,
        },
        f.effect@,
        if f.sync_resolvable {
            "yes"@
        } else {
            "no"@
        },
        if f.async_resolvable {
            "yes"@
        } else {
            "no"@
        },
    ]
}

/// The rows of the `acl validate` table, one per finding.
pub fn finding_grid(findings: &Vec<FindingInfo>) -> (r: Vec<Vec<String>>)
    ensures
        text_rows_view(r@) == findings@.map_values(|f: FindingInfo| finding_table_row(f)),
{
    let mut rows: Vec<Vec<String>> = Vec::new();
    let mut i: usize = 0;
    while i < findings.len()
        invariant
            0 <= i <= findings.len(),
            text_rows_view(rows@) == findings@.take(i as int).map_values(|f: FindingInfo| finding_table_row(f)),
        decreases findings.len() - i,
    {
        let f = &findings[i];
        let c0 = usize_to_string(f.rule_index);
        let c1 = f.condition_path.clone();
        let c2 = match &f.condition_key {
            Some(k) => k.clone(),
            None => owned("-"),
        };
        let c3 = f.effect.clone();
        let c4 = owned(yes_no(f.sync_resolvable));
        let c5 = owned(yes_no(f.async_resolvable));
        let ghost cells = seq![c0@, c1@, c2@, c3@, c4@, c5@];
        let mut row: Vec<String> = Vec::new();
        row.push(c0);
        row.push(c1);
        row.push(c2);
        row.push(c3);
        row.push(c4);
        row.push(c5);
        assert(strings_view(row@) =~= cells);
        assert(cells == finding_table_row(*f));
        let ghost prev = rows@;
        rows.push(row);
        assert(findings@.take(i + 1) =~= findings@.take(i as int).push(findings@[i as int]));
        assert(text_rows_view(rows@) =~= text_rows_view(prev).push(cells));
        i = i + 1;
    }
    assert(findings@.take(i as int) =~= findings@);
    rows
}

/// The `acl validate` table: "0 findings." when there are none; otherwise
/// the count, the [`finding_grid`] drawn as a table, and a closing note on
/// `deny` rules.
/// The column names of the `acl validate` table.
pub open spec fn finding_headers() -> Seq<Seq<char>> {
    seq!["Rule"@, "Path"@, "Key"@, "Effect"@, "Sync"@, "Async"@]
}

pub fn render_validate_table(findings: &Vec<FindingInfo>, width: Option<u16>) -> (r: String)
    ensures
        findings@.len() == 0 ==> r@ == "0 findings."@,
        findings@.len() > 0 ==> r@ == validate_heading(findings@.len()) + crate::output::grid_text(
            finding_headers(),
            findings@.map_values(|f: FindingInfo| finding_table_row(f)),
            width,
        ) + validate_closing(),
{
    if findings.len() == 0 {
        return owned("0 findings.");
    }
    let mut headers: Vec<String> = Vec::new();
    headers.push(owned("Rule"));
    headers.push(owned("Path"));
    headers.push(owned("Key"));
    headers.push(owned("Effect"));
    headers.push(owned("Sync"));
    headers.push(owned("Async"));
    assert(strings_view(headers@) =~= finding_headers());
    let rows = finding_grid(findings);
    let table = crate::output::render_grid(&headers, &rows, width);
    let mut out = usize_to_string(findings.len());
    if findings.len() == 1 {
        push_str(&mut out, " finding:\n\n");
        proof {
            reveal_strlit(" finding:\n\n");
            reveal_strlit(" ");
            reveal_strlit("finding");
            reveal_strlit(":\n\n");
            assert(" finding:\n\n"@ =~= " "@ + "finding"@ + ":\n\n"@);
        }
    } else {
        push_str(&mut out, " findings:\n\n");
        proof {
            reveal_strlit(" findings:\n\n");
            reveal_strlit(" ");
            reveal_strlit("findings");
            reveal_strlit(":\n\n");
            assert(" findings:\n\n"@ =~= " "@ + "findings"@ + ":\n\n"@);
        }
    }
    let ghost h = out@;
    assert(h =~= validate_heading(findings@.len()));
    push_str(&mut out, table.as_str());
    let ghost mid = out@;
    push_str(
        &mut out,
        "\n\nA finding on a `deny` rule is the consequential one: that rule now denies every call it matches.",
    );
    proof {
        reveal_strlit("\n\nA finding on a `deny` rule is the consequential one: that rule now denies every call it matches.");
    }
    out
}

// ---------------------------------------------------------------------------
// acl status
// ---------------------------------------------------------------------------

/// The body of `acl status --format json`.
pub open spec fn status_json(s: GovernanceInfo, source: Option<Seq<char>>) -> JsonV {
    JsonV::Object(
        seq![
            ("control_modules_registered"@, JsonV::Bool(s.control_modules_registered)),
            ("read_modules_registered"@, JsonV::Bool(s.read_modules_registered)),
            ("acl_configured"@, JsonV::Bool(s.acl_configured)),
            ("acl_source"@, str_or_null(source)),
            ("builtin_acl_gate_wired"@, JsonV::Bool(s.builtin_acl_gate_wired)),
            ("approval_handler_configured"@, JsonV::Bool(s.approval_handler_configured)),
            ("builtin_approval_gate_wired"@, JsonV::Bool(s.builtin_approval_gate_wired)),
            ("policy_strict"@, JsonV::Bool(s.policy_strict)),
            (
                "all_control_modules_require_approval"@,
                JsonV::Bool(s.all_control_modules_require_approval),
            ),
            ("unprotected_control_surface"@, JsonV::Bool(s.unprotected_control_surface)),
        ],
    )
}

/// The JSON body of `acl status`.
pub fn status_payload(state: &GovernanceInfo, source: Option<&str>) -> (r: Json)
    ensures
        r@ == status_json(
            *state,
            match source {
                Some(s) => Some(s@),
                None => None,
            },
        ),
{
    let src = match source {
        Some(s) => Json::Str(owned(s)),
        None => Json::Null,
    };
    let mut e: Vec<(String, Json)> = Vec::new();
    e.push((owned("control_modules_registered"), Json::Bool(state.control_modules_registered)));
    e.push((owned("read_modules_registered"), Json::Bool(state.read_modules_registered)));
    e.push((owned("acl_configured"), Json::Bool(state.acl_configured)));
    e.push((owned("acl_source"), src));
    e.push((owned("builtin_acl_gate_wired"), Json::Bool(state.builtin_acl_gate_wired)));
    e.push((owned("approval_handler_configured"), Json::Bool(state.approval_handler_configured)));
    e.push((owned("builtin_approval_gate_wired"), Json::Bool(state.builtin_approval_gate_wired)));
    e.push((owned("policy_strict"), Json::Bool(state.policy_strict)));
    e.push(
        (
            owned("all_control_modules_require_approval"),
            Json::Bool(state.all_control_modules_require_approval),
        ),
    );
    e.push((owned("unprotected_control_surface"), Json::Bool(state.unprotected_control_surface)));
    let ghost ev = entries_view(e@);
    let r = object(e);
    assert(ev =~= status_json(
        *state,
        match source {
            Some(s) => Some(s@),
            None => None,
        },
    )->Object_0);
    r
}

/// The width the status labels are aligned to: that of the longest one,
/// "Built-in approval gate wired:".
pub const STATUS_LABEL_WIDTH: usize = 29;

pub open spec fn yes_no_text(b: bool) -> Seq<char> {
    if b {
        "yes"@
    } else {
        "no"@
    }
}

pub open spec fn status_row(label: Seq<char>, value: Seq<char>) -> Seq<char> {
    pad_right_seq(label, 29) + " "@ + value + "\n"@
}

/// The `acl status` block: one aligned label/value line per observation, a
/// rule, then whether the control surface is unprotected.
pub open spec fn status_text(s: GovernanceInfo, source: Option<Seq<char>>) -> Seq<char> {
    let acl_line = if s.acl_configured {
        match source {
            Some(p) => "yes  ("@ + p + ")"@,
            None => "yes"@,
        }
    } else {
        "no"@
    };
    status_row("Control modules registered:"@, yes_no_text(s.control_modules_registered))
        + status_row("Read modules registered:"@, yes_no_text(s.read_modules_registered))
        + status_row("ACL configured:"@, acl_line)
        + status_row("Built-in ACL gate wired:"@, yes_no_text(s.builtin_acl_gate_wired))
        + status_row("Approval handler configured:"@, yes_no_text(s.approval_handler_configured))
        + status_row("Built-in approval gate wired:"@, yes_no_text(s.builtin_approval_gate_wired))
        + status_row("Policy strict:"@, yes_no_text(s.policy_strict))
        + status_row("All control modules gated:"@, yes_no_text(s.all_control_modules_require_approval))
        + Seq::new(35, |i: int| '-') + "\n"@ + pad_right_seq("Unprotected control surface:"@, 29)
        + " "@ + (if s.unprotected_control_surface {
        "YES"@
    } else {
        "NO"@
    })
}

fn push_status_row(out: &mut String, label: &str, value: &str)
    ensures
        final(out)@ == old(out)@ + status_row(label@, value@),
{
    let padded = pad_right(label, STATUS_LABEL_WIDTH);
    push_str(out, padded.as_str());
    push_str(out, " ");
    push_str(out, value);
    push_str(out, "\n");
}

/// Render `acl status` as an aligned label/value block.
pub fn render_status_table(state: &GovernanceInfo, source: Option<&str>) -> (r: String)
    ensures
        r@ == status_text(
            *state,
            match source {
                Some(s) => Some(s@),
                None => None,
            },
        ),
{
    let acl_line = if state.acl_configured {
        match source {
            Some(p) => concat3("yes  (", p, ")"),
            None => owned("yes"),
        }
    } else {
        owned("no")
    };
    let mut out = String::new();
    push_status_row(&mut out, "Control modules registered:", yes_no(state.control_modules_registered));
    push_status_row(&mut out, "Read modules registered:", yes_no(state.read_modules_registered));
    push_status_row(&mut out, "ACL configured:", acl_line.as_str());
    push_status_row(&mut out, "Built-in ACL gate wired:", yes_no(state.builtin_acl_gate_wired));
    push_status_row(&mut out, "Approval handler configured:", yes_no(state.approval_handler_configured));
    push_status_row(&mut out, "Built-in approval gate wired:", yes_no(state.builtin_approval_gate_wired));
    push_status_row(&mut out, "Policy strict:", yes_no(state.policy_strict));
    push_status_row(
        &mut out,
        "All control modules gated:",
        yes_no(state.all_control_modules_require_approval),
    );
    let ghost before_rule = out@;
    let mut k: usize = 0;
    while k < 35
        invariant
            0 <= k <= 35,
            out@ == before_rule + Seq::new(k as nat, |i: int| '-'),
        decreases 35 - k,
    {
        crate::text::push_char(&mut out, '-');
        assert(Seq::new((k + 1) as nat, |i: int| '-') =~= Seq::new(k as nat, |i: int| '-').push('-'));
        k = k + 1;
    }
    push_str(&mut out, "\n");
    let padded = pad_right("Unprotected control surface:", STATUS_LABEL_WIDTH);
    push_str(&mut out, padded.as_str());
    push_str(&mut out, " ");
    if state.unprotected_control_surface {
        push_str(&mut out, "YES");
    } else {
        push_str(&mut out, "NO");
    }
    proof {
        reveal_strlit("yes");
        reveal_strlit("no");
    }
    assert(out@ =~= status_text(
        *state,
        match source {
            Some(s) => Some(s@),
            None => None,
        },
    ));
    out
}

// ---------------------------------------------------------------------------
// acl check
// ---------------------------------------------------------------------------

/// The body of `acl check --format json`: the simulated call, its access
/// decision, the independent approval axis, the deciding rule and why.
pub open spec fn check_json(target: Seq<char>, caller: Seq<char>, d: DecisionInfo) -> JsonV {
    JsonV::Object(
        seq![
            ("target"@, JsonV::Str(target)),
            ("caller"@, JsonV::Str(caller)),
            ("access"@, JsonV::Str(d.access@)),
            ("approval_required"@, JsonV::Bool(d.approval_required)),
            (
                "matched_rule_index"@,
                match d.matched_rule_index {
                    Some(i) => index_json(i),
                    None => JsonV::Null,
                },
            ),
            ("reason"@, JsonV::Str(d.reason@)),
        ],
    )
}

/// The JSON body of `acl check`.
pub fn check_payload(target: &str, caller: &str, decision: &DecisionInfo) -> (r: Json)
    ensures
        r@ == check_json(target@, caller@, *decision),
{
    let matched = match decision.matched_rule_index {
        Some(i) => Json::Number(JsonNumber::PosInt(i as u64)),
        None => Json::Null,
    };
    let mut e: Vec<(String, Json)> = Vec::new();
    e.push((owned("target"), Json::Str(owned(target))));
    e.push((owned("caller"), Json::Str(owned(caller))));
    e.push((owned("access"), Json::Str(decision.access.clone())));
    e.push((owned("approval_required"), Json::Bool(decision.approval_required)));
    e.push((owned("matched_rule_index"), matched));
    e.push((owned("reason"), Json::Str(decision.reason.clone())));
    let ghost ev = entries_view(e@);
    let r = object(e);
    assert(ev =~= check_json(target@, caller@, *decision)->Object_0);
    r
}

/// The note after the decision: the deciding rule (with its description
/// when it has one), or that the default effect decided.
pub open spec fn matched_note(d: DecisionInfo, rules: Seq<AclRuleInfo>) -> Seq<char> {
    match d.matched_rule_index {
        Some(i) => if i < rules.len() {
            match rules[i as int].description {
                Some(desc) => "  (rule #"@ + decimal(i as nat) + ": \""@ + desc@ + "\")"@,
                None => "  (rule #"@ + decimal(i as nat) + ")"@,
            }
        } else {
            "  (no rule matched; default_effect)"@
        },
        None => "  (no rule matched; default_effect)"@,
    }
}

/// The `acl check` block.
pub open spec fn check_text(
    target: Seq<char>,
    caller: Seq<char>,
    d: DecisionInfo,
    rules: Seq<AclRuleInfo>,
) -> Seq<char> {
    "Target:   "@ + target + "\nCaller:   "@ + caller + "\nDecision: "@ + unicode_uppercase(d.access@)
        + matched_note(d, rules) + "\nApproval: "@ + (if d.approval_required {
        "REQUIRED"@
    } else {
        "NOT REQUIRED"@
    }) + "\nReason:   "@ + d.reason@
}

/// Render the `acl check` decision as a text block.
pub fn render_check_table(
    target: &str,
    caller: &str,
    decision: &DecisionInfo,
    rules: &Vec<AclRuleInfo>,
) -> (r: String)
    ensures
        r@ == check_text(target@, caller@, *decision, rules@),
{
    let mut out = owned("Target:   ");
    push_str(&mut out, target);
    push_str(&mut out, "\nCaller:   ");
    push_str(&mut out, caller);
    push_str(&mut out, "\nDecision: ");
    let upper = to_uppercase(decision.access.as_str());
    push_str(&mut out, upper.as_str());
    match decision.matched_rule_index {
        Some(i) => {
            if i < rules.len() {
                push_str(&mut out, "  (rule #");
                push_str(&mut out, usize_to_string(i).as_str());
                match &rules[i].description {
                    Some(d) => {
                        push_str(&mut out, ": \"");
                        push_str(&mut out, d.as_str());
                        push_str(&mut out, "\")");
                    },
                    None => {
                        push_str(&mut out, ")");
                    },
                }
            } else {
                push_str(&mut out, "  (no rule matched; default_effect)");
            }
        },
        None => {
            push_str(&mut out, "  (no rule matched; default_effect)");
        },
    }
    push_str(&mut out, "\nApproval: ");
    if decision.approval_required {
        push_str(&mut out, "REQUIRED");
    } else {
        push_str(&mut out, "NOT REQUIRED");
    }
    push_str(&mut out, "\nReason:   ");
    push_str(&mut out, decision.reason.as_str());
    assert(out@ =~= check_text(target@, caller@, *decision, rules@));
    out
}

/// The output format of an `acl` subcommand: the resolved format when the
/// subcommand offers it, else its first format (`table` when it offers
/// none).
pub fn resolve_acl_format(explicit: Option<&str>, is_tty: bool, allowed: &Vec<&str>) -> (r: String)
    ensures
        ({
            let f = crate::output::resolved_format(
                match explicit {
                    Some(e) => Some(e@),
                    None => None,
                },
                is_tty,
            );
            if exists|i: int| 0 <= i < allowed@.len() && allowed@[i]@ == f {
                r@ == f
            } else if allowed@.len() > 0 {
                r@ == allowed@[0]@
            } else {
                r@ == "table"@
            }
        }),
{
    let resolved = crate::output::resolve_format_inner(explicit, is_tty);
    let mut i: usize = 0;
    while i < allowed.len()
        invariant
            0 <= i <= allowed@.len(),
            resolved@ == crate::output::resolved_format(
                match explicit {
                    Some(e) => Some(e@),
                    None => None,
                },
                is_tty,
            ),
            forall|j: int| 0 <= j < i ==> allowed@[j]@ != resolved@,
        decreases allowed.len() - i,
    {
        if str_eq(allowed[i], resolved) {
            assert(allowed@[i as int]@ == resolved@);
            return owned(resolved);
        }
        i = i + 1;
    }
    if allowed.len() > 0 {
        owned(allowed[0])
    } else {
        owned("table")
    }
}

/// The context `acl check` simulates: the asserted identity, if any, and a
/// call chain of the requested depth.
#[derive(Debug)]
pub struct CheckContext {
    /// `(id, type, roles)` of the asserted identity; `None` for an anonymous
    /// context.
    pub identity: Option<(String, String, Vec<String>)>,
    pub call_chain: Vec<String>,
}

pub open spec fn frame_name(i: nat) -> Seq<char> {
    "synthetic.frame."@ + decimal(i)
}

/// The simulation context of `acl check`: none when no identity was
/// asserted and neither `--depth` nor `--input` was given (conditions then
/// see the genuine no-context case); otherwise the asserted identity (or an
/// anonymous one) with `depth` synthetic call-chain frames.
pub fn build_check_context(cell: &IdentityCell, depth: Option<usize>, has_projection: bool) -> (r: Option<CheckContext>)
    ensures
        (cell.get_spec() is None && depth is None && !has_projection) <==> r is None,
        r matches Some(c) ==> {
            &&& (c.identity is Some <==> cell.get_spec() is Some)
            &&& c.call_chain@.len() == match depth {
                Some(n) => n as nat,
                None => 0nat,
            }
            &&& forall|i: int| 0 <= i < c.call_chain@.len() ==> #[trigger] c.call_chain@[i]@ == frame_name(i as nat)
        },
{
    let identity = cli_identity(cell);
    if identity.is_none() && depth.is_none() && !has_projection {
        return None;
    }
    let parts = match identity {
        Some(i) => Some(i.identity_parts()),
        None => None,
    };
    let n: usize = match depth {
        Some(n) => n,
        None => 0,
    };
    let mut chain: Vec<String> = Vec::new();
    let mut i: usize = 0;
    while i < n
        invariant
            0 <= i <= n,
            chain@.len() == i,
            forall|j: int| 0 <= j < i ==> #[trigger] chain@[j]@ == frame_name(j as nat),
        decreases n - i,
    {
        chain.push(concat2("synthetic.frame.", usize_to_string(i).as_str()));
        i = i + 1;
    }
    Some(CheckContext { identity: parts, call_chain: chain })
}

/// The identity a delegated-execution gate presents: the asserted identity,
/// or, without one, the `@external` caller of type `external` with no roles,
/// as the executor builds it for a call without a context.
pub fn delegated_gate_identity(cell: &IdentityCell) -> (r: (String, String, Vec<String>))
    ensures
        cell.get_spec() is None ==> r.0@ == crate::acl::DEFAULT_CALLER@ && r.1@ == "external"@
            && r.2@.len() == 0,
        cell.get_spec() matches Some(i) ==> {
            &&& r.0@ == match i.id {
                Some(x) => x@,
                None => crate::acl::DEFAULT_IDENTITY_ID@,
            }
            &&& r.1@ == match i.identity_type {
                Some(t) => t@,
                None => crate::acl::DEFAULT_IDENTITY_TYPE@,
            }
            &&& strings_view(r.2@) == strings_view(i.roles@)
        },
{
    match cli_identity(cell) {
        Some(i) => i.identity_parts(),
        None => (owned(crate::acl::DEFAULT_CALLER), owned("external"), Vec::new()),
    }
}

/// `--depth` for `acl check`: a non-negative integer, else the error line.
pub fn parse_depth(raw: &str) -> (r: Result<usize, String>)
    ensures
        match crate::text::parse_u64_spec(raw@) {
            Some(n) => if n <= usize::MAX {
                r == Ok::<usize, String>(n as usize)
            } else {
                r matches Err(m) && m@ == "Error: Invalid --depth value '"@ + raw@
                    + "': expected a non-negative integer."@
            },
            None => r matches Err(m) && m@ == "Error: Invalid --depth value '"@ + raw@
                + "': expected a non-negative integer."@,
        },
{
    match crate::text::parse_u64(raw) {
        Some(n) => {
            if n <= usize::MAX as u64 {
                Ok(n as usize)
            } else {
                Err(concat3("Error: Invalid --depth value '", raw, "': expected a non-negative integer."))
            }
        },
        None => Err(concat3("Error: Invalid --depth value '", raw, "': expected a non-negative integer.")),
    }
}

} // verus!
