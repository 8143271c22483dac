//! Output formatting: choosing a format, truncating descriptions, field
//! selection, and rendering module lists, module details and execution
//! results as tables or JSON.
//!
//! Tables are drawn by `comfy-table`; the `csv`, `jsonl`, `markdown` and
//! `skill` renderings come from `apcore-toolkit` and `yaml` from
//! `serde_yaml_ng`. What those crates produce is named, not restated; what
//! is handed to them is stated exactly.
use vstd::prelude::*;
use crate::json::{Json, JsonV, JsonNumber, lookup, entries_view, json_seq_view, get_str, json_text, pretty_text, to_json_text, to_pretty_text, entries_set, entries_get, lemma_object_view, lemma_array_view, entries_insert};
use crate::text::{owned, concat2, concat3, str_eq, chars_of, string_from_chars, push_str, utf8_len, fit_count, fit_prefix, utf8_len_exceeds, lemma_fit_count, split_seq, trim_seq, split_chars, views_of, trim_chars, usize_to_string, decimal};
use crate::discovery::{extract_tag_strings, module_tags};
use crate::exposure::{ExposureFilter, exposed};

use crate::text::{strings_view, opt_view};

verus! {

/// The toolkit's scanned-module record, carried through opaquely.
#[verifier::external_type_specification]
#[verifier::external_body]
pub struct ExScannedModule(apcore_toolkit::ScannedModule);

// ---------------------------------------------------------------------------
// Format resolution
// ---------------------------------------------------------------------------

/// Descriptions in module lists are cut to this many bytes.
pub const DESCRIPTION_TRUNCATE_LEN: usize = 80;

pub open spec fn resolved_format(explicit: Option<Seq<char>>, is_tty: bool) -> Seq<char> {
    match explicit {
        Some(f) => if f == "json"@ || f == "table"@ || f == "csv"@ || f == "yaml"@ || f
            == "jsonl"@ || f == "markdown"@ || f == "skill"@ {
            f
        } else {
            "json"@
        },
        None => if is_tty {
            "table"@
        } else {
            "json"@
        },
    }
}

/// The output format: an explicit known format as given (an unknown one
/// falls back to `json`), else `table` on a terminal and `json` otherwise.
pub fn resolve_format_inner(explicit_format: Option<&str>, is_tty: bool) -> (r: &'static str)
    ensures
        r@ == resolved_format(
            match explicit_format {
                Some(f) => Some(f@),
                None => None,
            },
            is_tty,
        ),
{
    match explicit_format {
        Some(f) => {
            if str_eq(f, "json") {
                "json"
            } else if str_eq(f, "table") {
                "table"
            } else if str_eq(f, "csv") {
                "csv"
            } else if str_eq(f, "yaml") {
                "yaml"
            } else if str_eq(f, "jsonl") {
                "jsonl"
            } else if str_eq(f, "markdown") {
                "markdown"
            } else if str_eq(f, "skill") {
                "skill"
            } else {
                "json"
            }
        },
        None => if is_tty {
            "table"
        } else {
            "json"
        },
    }
}

// ---------------------------------------------------------------------------
// Truncation
// ---------------------------------------------------------------------------

/// `text` cut to at most `max` characters: unchanged when its UTF-8 length
/// is at most `max` bytes; otherwise the longest whole-character prefix of
/// at most `max - 3` bytes followed by `...`, or, when `max` leaves no room
/// for the ellipsis, the first `max` dots of it.
pub open spec fn truncated(t: Seq<char>, max: nat) -> Seq<char> {
    if utf8_len(t) <= max {
        t
    } else if max >= 3 {
        t.take(fit_count(t, (max - 3) as nat) as int) + "..."@
    } else {
        "..."@.take(max as int)
    }
}

/// Truncate `text` to at most `max_length` characters, on a character
/// boundary.
pub fn truncate(text: &str, max_length: usize) -> (r: String)
    ensures
        r@ == truncated(text@, max_length as nat),
        r@.len() <= max_length,
{
    let cs = chars_of(text);
    if !utf8_len_exceeds(&cs, max_length) {
        proof {
            crate::text::lemma_utf8_len_ge_len(text@);
        }
        return owned(text);
    }
    proof {
        reveal_strlit("...");
    }
    if max_length < 3 {
        let mut out = String::new();
        let mut i: usize = 0;
        while i < max_length
            invariant
                0 <= i <= max_length < 3,
                out@ == "..."@.take(i as int),
            decreases max_length - i,
        {
            crate::text::push_char(&mut out, '.');
            proof {
                reveal_strlit("...");
            }
            i = i + 1;
            assert(out@ =~= "..."@.take(i as int));
        }
        return out;
    }
    let cutoff: usize = max_length - 3;
    let k = fit_prefix(&cs, cutoff);
    proof {
        lemma_fit_count(cs@, cutoff as nat);
        crate::text::lemma_utf8_len_ge_len(cs@.take(k as int));
    }
    let mut head: Vec<char> = Vec::new();
    let mut i: usize = 0;
    while i < k
        invariant
            0 <= i <= k <= cs.len(),
            head@ == cs@.take(i as int),
        decreases k - i,
    {
        head.push(cs[i]);
        i = i + 1;
        assert(head@ =~= cs@.take(i as int));
    }
    let mut out = string_from_chars(&head);
    push_str(&mut out, "...");
    out
}

/// Truncation never gives more than `max` characters, nor more than `max`
/// bytes once `max` leaves room for the ellipsis.
pub proof fn lemma_truncated_fits(t: Seq<char>, max: nat)
    ensures
        truncated(t, max).len() <= max,
        max >= 3 ==> utf8_len(truncated(t, max)) <= max,
{
    reveal_strlit("...");
    crate::text::lemma_utf8_len_ge_len(t);
    if utf8_len(t) > max && max >= 3 {
        let budget = (max - 3) as nat;
        let k = fit_count(t, budget);
        lemma_fit_count(t, budget);
        crate::text::lemma_utf8_len_ge_len(t.take(k as int));
        crate::text::lemma_utf8_len_concat(t.take(k as int), "..."@);
        assert(utf8_len("..."@) == 3) by {
            let d = "..."@;
            assert(d.len() == 3);
            assert(d.drop_last().drop_last().drop_last() =~= Seq::<char>::empty());
            reveal_with_fuel(utf8_len, 4);
        }
    }
}

// ---------------------------------------------------------------------------
// Descriptor fields
// ---------------------------------------------------------------------------

/// The first of `keys` whose value is a string; empty when none is.
pub open spec fn first_str(v: JsonV, keys: Seq<Seq<char>>) -> Seq<char>
    decreases keys.len(),
{
    if keys.len() == 0 {
        Seq::empty()
    } else {
        match get_str(v, keys[0]) {
            Some(s) => s,
            None => first_str(v, keys.drop_first()),
        }
    }
}

/// Extract a string field trying `keys` in order.
pub fn extract_str<'a>(v: &'a Json, keys: &[&str]) -> (r: &'a str)
    ensures
        r@ == first_str(v@, keys@.map_values(|k: &str| k@)),
{
    let ghost kv = keys@.map_values(|k: &str| k@);
    let mut i: usize = 0;
    assert(kv.skip(0) =~= kv);
    while i < keys.len()
        invariant
            0 <= i <= keys.len(),
            kv == keys@.map_values(|k: &str| k@),
            first_str(v@, kv) == first_str(v@, kv.skip(i as int)),
        decreases keys.len() - i,
    {
        assert(kv.skip(i as int)[0] == keys@[i as int]@);
        assert(kv.skip(i as int).drop_first() == kv.skip(i + 1));
        match v.get(keys[i]) {
            Some(x) => match x.as_str() {
                Some(s) => {
                    return s.as_str();
                },
                None => {},
            },
            None => {},
        }
        i = i + 1;
    }
    assert(kv.skip(i as int).len() == 0);
    proof {
        reveal_strlit("");
    }
    ""
}

pub open spec fn id_keys() -> Seq<Seq<char>> {
    seq!["module_id"@, "id"@, "canonical_id"@, "name"@]
}

fn module_id_text(m: &Json) -> (r: &str)
    ensures
        r@ == first_str(m@, id_keys()),
{
    let keys: [&str; 4] = ["module_id", "id", "canonical_id", "name"];
    let r = extract_str(m, &keys);
    proof {
        reveal_strlit("module_id");
        reveal_strlit("id");
        reveal_strlit("canonical_id");
        reveal_strlit("name");
        assert(keys@.map_values(|k: &str| k@) =~= id_keys());
    }
    r
}

fn description_text(m: &Json) -> (r: &str)
    ensures
        r@ == first_str(m@, seq!["description"@]),
{
    let keys: [&str; 1] = ["description"];
    let r = extract_str(m, &keys);
    proof {
        assert(keys@.map_values(|k: &str| k@) =~= seq!["description"@]);
    }
    r
}

/// The tag strings of a descriptor.
pub fn extract_tags(v: &Json) -> (r: Vec<String>)
    ensures
        strings_view(r@) == module_tags(v@),
{
    extract_tag_strings(v)
}

/// The length of a descriptor's `dependencies` array (0 when absent or not
/// an array).
pub fn dependency_count(m: &Json) -> (r: usize)
    ensures
        r == match m@.get("dependencies"@) {
            Some(JsonV::Array(a)) => a.len(),
            _ => 0,
        },
{
    match m.get("dependencies") {
        Some(v) => match v.as_array() {
            Some(a) => a.len(),
            None => 0,
        },
        None => 0,
    }
}

/// The rows of a value shaped for tabular output: an object is one row; a
/// non-empty array of objects is one row each; anything else has no rows.
pub open spec fn tabular_rows(v: JsonV) -> Option<Seq<Seq<(Seq<char>, JsonV)>>> {
    match v {
        JsonV::Object(o) => Some(seq![o]),
        JsonV::Array(items) => if items.len() > 0 && (forall|i: int| 0 <= i < items.len() ==> #[trigger] items[i] is Object) {
            Some(Seq::new(items.len(), |i: int| items[i]->Object_0))
        } else {
            None
        },
        _ => None,
    }
}

pub open spec fn rows_view(rows: Seq<Vec<(String, Json)>>) -> Seq<Seq<(Seq<char>, JsonV)>> {
    rows.map_values(|r: Vec<(String, Json)>| entries_view(r@))
}

/// Shape a value into rows for tabular output.
pub fn rows_for_tabular(value: &Json) -> (r: Option<Vec<Vec<(String, Json)>>>)
    ensures
        match r {
            Some(rows) => tabular_rows(value@) == Some(rows_view(rows@)),
            None => tabular_rows(value@) is None,
        },
{
    match value {
        Json::Object(o) => {
            proof {
                lemma_object_view(o);
            }
            let mut rows: Vec<Vec<(String, Json)>> = Vec::new();
            rows.push(crate::json::dup_entries(o));
            assert(rows_view(rows@) =~= seq![entries_view(o@)]);
            Some(rows)
        },
        Json::Array(items) => {
            proof {
                lemma_array_view(items);
            }
            if items.len() == 0 {
                return None;
            }
            let ghost iv = json_seq_view(items@);
            let mut rows: Vec<Vec<(String, Json)>> = Vec::new();
            let mut i: usize = 0;
            while i < items.len()
                invariant
                    0 <= i <= items.len(),
                    iv == json_seq_view(items@),
                    value@ == JsonV::Array(iv),
                    forall|k: int| 0 <= k < i ==> #[trigger] iv[k] is Object,
                    rows@.len() == i,
                    forall|k: int| 0 <= k < i ==> #[trigger] rows_view(rows@)[k] == iv[k]->Object_0,
                decreases items.len() - i,
            {
                match &items[i] {
                    Json::Object(o) => {
                        proof {
                            lemma_object_view(o);
                        }
                        let ghost prev = rows@;
                        rows.push(crate::json::dup_entries(o));
                        proof {
                            assert forall|k: int| 0 <= k < i + 1 implies #[trigger] rows_view(rows@)[k] == iv[k]->Object_0 by {
                                if k < i {
                                    assert(rows_view(rows@)[k] == rows_view(prev)[k]);
                                }
                            }
                        }
                    },
                    _ => {
                        assert(!(iv[i as int] is Object));
                        return None;
                    },
                }
                i = i + 1;
            }
            assert(rows_view(rows@) =~= Seq::new(iv.len(), |k: int| iv[k]->Object_0));
            Some(rows)
        },
        _ => None,
    }
}

// ---------------------------------------------------------------------------
// Field selection
// ---------------------------------------------------------------------------

/// Follow a dot-path; a missing step gives `null`.
pub open spec fn follow_path(v: JsonV, parts: Seq<Seq<char>>) -> JsonV
    decreases parts.len(),
{
    if parts.len() == 0 {
        v
    } else {
        match v.get(parts[0]) {
            Some(next) => follow_path(next, parts.drop_first()),
            None => JsonV::Null,
        }
    }
}

/// The selected object: for each non-empty trimmed comma-separated field,
/// the value at its dot-path (null when missing), keyed by the field.
pub open spec fn select_fields(obj: JsonV, fields: Seq<Seq<char>>) -> Seq<(Seq<char>, JsonV)>
    decreases fields.len(),
{
    if fields.len() == 0 {
        Seq::empty()
    } else {
        let r = select_fields(obj, fields.drop_last());
        let f = trim_seq(fields.last());
        if f.len() == 0 {
            r
        } else {
            entries_insert(r, f, follow_path(obj, split_seq(f, '.')))
        }
    }
}

/// Field selection applied to an execution result: objects are narrowed,
/// anything else is left as is.
pub open spec fn field_selection(result: JsonV, fields: Seq<char>) -> JsonV {
    match result {
        JsonV::Object(_) => JsonV::Object(select_fields(result, split_seq(fields, ','))),
        _ => result,
    }
}

fn follow(v: &Json, parts: &Vec<Vec<char>>) -> (r: Json)
    ensures
        r@ == follow_path(v@, views_of(parts@)),
{
    let ghost pv = views_of(parts@);
    let mut cur: &Json = v;
    let mut i: usize = 0;
    assert(pv.skip(0) =~= pv);
    while i < parts.len()
        invariant
            0 <= i <= parts.len(),
            pv == views_of(parts@),
            follow_path(v@, pv) == follow_path(cur@, pv.skip(i as int)),
        decreases parts.len() - i,
    {
        assert(pv.skip(i as int)[0] == parts@[i as int]@);
        assert(pv.skip(i as int).drop_first() == pv.skip(i + 1));
        let key = string_from_chars(&parts[i]);
        match cur.get(key.as_str()) {
            Some(next) => {
                cur = next;
            },
            None => {
                return Json::Null;
            },
        }
        i = i + 1;
    }
    assert(pv.skip(i as int).len() == 0);
    cur.dup()
}

/// Apply field selection (`fields` a comma-separated list of dot-paths).
pub fn apply_field_selection(result: &Json, fields: &str) -> (r: Json)
    ensures
        r@ == field_selection(result@, fields@),
{
    match result {
        Json::Object(_) => {},
        _ => {
            return result.dup();
        },
    }
    let fs = split_chars(&chars_of(fields), ',');
    let ghost fv = views_of(fs@);
    let mut selected: Vec<(String, Json)> = Vec::new();
    let mut i: usize = 0;
    assert(fv.take(0) =~= Seq::<Seq<char>>::empty());
    assert(entries_view(selected@) =~= Seq::<(Seq<char>, JsonV)>::empty());
    while i < fs.len()
        invariant
            0 <= i <= fs.len(),
            fv == views_of(fs@),
            fv == split_seq(fields@, ','),
            entries_view(selected@) == select_fields(result@, fv.take(i as int)),
        decreases fs.len() - i,
    {
        assert(fv.take(i + 1).drop_last() == fv.take(i as int));
        assert(fv.take(i + 1).last() == fs@[i as int]@);
        let f = trim_chars(&fs[i]);
        if f.len() > 0 {
            let parts = split_chars(&f, '.');
            let v = follow(result, &parts);
            entries_set(&mut selected, string_from_chars(&f), v);
        }
        i = i + 1;
    }
    assert(fv.take(fs.len() as int) == fv);
    proof {
        lemma_object_view(&selected);
    }
    Json::Object(selected)
}

// ---------------------------------------------------------------------------
// Tables
// ---------------------------------------------------------------------------

/// What `comfy-table` draws for a one-cell `UTF8_FULL` table holding
/// `title`.
pub uninterp spec fn panel_drawing(title: Seq<char>) -> Seq<char>;

/// A one-cell `comfy_table::Table` with the `UTF8_FULL` preset, rendered.
/// The drawing is named by [`panel_drawing`] over the title.
#[verifier::external_body]
fn render_panel(title: &str) -> (r: String)
    ensures
        r@ == panel_drawing(title@),
{
    let mut table = comfy_table::Table::new();
    table.load_preset(comfy_table::presets::UTF8_FULL);
    table.add_row(vec![title]);
    table.to_string()
}

/// What `comfy-table` draws for a table with this header and these rows,
/// with dynamic content arrangement, treated as not printed to a terminal
/// and given no width (so nothing is wrapped).
pub uninterp spec fn grid_drawing(headers: Seq<Seq<char>>, rows: Seq<Seq<Seq<char>>>) -> Seq<char>;

/// What `comfy-table` draws for such a table fitted to `width` columns.
pub uninterp spec fn sized_grid_drawing(headers: Seq<Seq<char>>, rows: Seq<Seq<Seq<char>>>, width: u16) -> Seq<char>;

/// A `comfy_table::Table` with dynamic arrangement, `force_no_tty` (so no
/// terminal is consulted and nothing is styled), the header and the rows,
/// rendered. The drawing is named by [`grid_drawing`].
#[verifier::external_body]
fn render_grid_free(headers: &Vec<String>, rows: &Vec<Vec<String>>) -> (r: String)
    ensures
        r@ == grid_drawing(strings_view(headers@), text_rows_view(rows@)),
{
    let mut table = comfy_table::Table::new();
    table.force_no_tty();
    table.set_content_arrangement(comfy_table::ContentArrangement::Dynamic);
    table.set_header(headers.clone());
    for row in rows {
        table.add_row(row.clone());
    }
    table.to_string()
}

/// The same table with `set_width(width)`. The drawing is named by
/// [`sized_grid_drawing`].
#[verifier::external_body]
fn render_grid_sized(headers: &Vec<String>, rows: &Vec<Vec<String>>, width: u16) -> (r: String)
    ensures
        r@ == sized_grid_drawing(strings_view(headers@), text_rows_view(rows@), width),
{
    let mut table = comfy_table::Table::new();
    table.force_no_tty();
    table.set_content_arrangement(comfy_table::ContentArrangement::Dynamic);
    table.set_width(width);
    table.set_header(headers.clone());
    for row in rows {
        table.add_row(row.clone());
    }
    table.to_string()
}

/// A drawn table: fitted to the terminal's width when there is one.
pub open spec fn grid_text(headers: Seq<Seq<char>>, rows: Seq<Seq<Seq<char>>>, width: Option<u16>) -> Seq<char> {
    match width {
        Some(w) => sized_grid_drawing(headers, rows, w),
        None => grid_drawing(headers, rows),
    }
}

/// Draw a table, fitted to `width` (the terminal's width, read by the
/// caller) when given.
pub(crate) fn render_grid(headers: &Vec<String>, rows: &Vec<Vec<String>>, width: Option<u16>) -> (r: String)
    ensures
        r@ == grid_text(strings_view(headers@), text_rows_view(rows@), width),
{
    match width {
        Some(w) => render_grid_sized(headers, rows, w),
        None => render_grid_free(headers, rows),
    }
}

/// What `serde_yaml_ng::to_string` gives for the value `v` stands for
/// (`None` when it reports an error).
pub uninterp spec fn yaml_text(v: JsonV) -> Option<Seq<char>>;

/// `serde_yaml_ng::to_string` of the value, handed over as a
/// `serde_json::Value`. Named by [`yaml_text`].
#[verifier::external_body]
pub(crate) fn render_yaml(v: &Json) -> (r: Option<String>)
    ensures
        opt_view(r) == yaml_text(v@),
{
    serde_yaml_ng::to_string(&crate::json::to_serde(v)).ok()
}

/// What `apcore_toolkit::format_csv` (without a byte-order mark) gives for
/// these rows.
pub uninterp spec fn csv_text(rows: Seq<Seq<(Seq<char>, JsonV)>>) -> Seq<char>;

/// What `apcore_toolkit::format_jsonl` gives for these rows.
pub uninterp spec fn jsonl_text(rows: Seq<Seq<(Seq<char>, JsonV)>>) -> Seq<char>;

/// `apcore_toolkit::format_csv(rows, false)`, each row handed over as a
/// JSON map of its members in order. Named by [`csv_text`].
#[verifier::external_body]
pub(crate) fn render_csv(rows: &Vec<Vec<(String, Json)>>) -> (r: String)
    ensures
        r@ == csv_text(rows_view(rows@)),
{
    let maps: Vec<serde_json::Map<String, serde_json::Value>> = rows
        .iter()
        .map(|row| row.iter().map(|(k, x)| (k.clone(), crate::json::to_serde(x))).collect())
        .collect();
    apcore_toolkit::format_csv(&maps, false)
}

/// `apcore_toolkit::format_jsonl(rows)`, converted as for [`render_csv`].
/// Named by [`jsonl_text`].
#[verifier::external_body]
pub(crate) fn render_jsonl(rows: &Vec<Vec<(String, Json)>>) -> (r: String)
    ensures
        r@ == jsonl_text(rows_view(rows@)),
{
    let maps: Vec<serde_json::Map<String, serde_json::Value>> = rows
        .iter()
        .map(|row| row.iter().map(|(k, x)| (k.clone(), crate::json::to_serde(x))).collect())
        .collect();
    apcore_toolkit::format_jsonl(&maps)
}

/// A labelled section, or nothing for empty content.
pub fn render_section(title: &str, content: &str) -> (r: Option<String>)
    ensures
        content@.len() == 0 ==> r is None,
        content@.len() > 0 ==> (r matches Some(s) && s@ == "\n"@ + title@ + ":\n"@ + content@),
{
    if content.is_empty() {
        return None;
    }
    let mut s = owned("\n");
    push_str(&mut s, title);
    push_str(&mut s, ":\n");
    push_str(&mut s, content);
    Some(s)
}

// ---------------------------------------------------------------------------
// Execution results
// ---------------------------------------------------------------------------

/// The text of a table cell: a string as itself, anything else as JSON.
pub open spec fn cell_text(v: JsonV) -> Seq<char> {
    match v {
        JsonV::Str(s) => s,
        _ => json_text(v),
    }
}

fn cell(v: &Json) -> (r: String)
    ensures
        r@ == cell_text(v@),
{
    match v {
        Json::Str(s) => s.clone(),
        _ => to_json_text(v),
    }
}

/// What [`format_exec_result`] renders itself, for a value `v` (after field
/// selection) in `format`; `None` for the table drawing, which is not stated,
/// and for the formats left to the caller.
pub open spec fn exec_text(v: JsonV, format: Seq<char>, width: Option<u16>) -> Seq<char> {
    match v {
        JsonV::Null => Seq::empty(),
        JsonV::Str(s) => s,
        _ => if format == "csv"@ {
            match tabular_rows(v) {
                Some(rows) => crate::text::strip_suffixes(csv_text(rows), "\r\n"@),
                None => json_text(v),
            }
        } else if format == "yaml"@ {
            match yaml_text(v) {
                Some(y) => crate::text::trim_end_seq(y),
                None => pretty_text(v),
            }
        } else if format == "jsonl"@ {
            match tabular_rows(v) {
                Some(rows) => crate::text::strip_suffixes(jsonl_text(rows), "\n"@),
                None => json_text(v),
            }
        } else if format == "table"@ && v is Object {
            grid_text(seq!["Key"@, "Value"@], key_value_rows(v->Object_0), width)
        } else if v is Object || v is Array {
            pretty_text(v)
        } else {
            json_text(v)
        },
    }
}

/// Rows of strings, as plain values.
pub open spec fn text_rows_view(rows: Seq<Vec<String>>) -> Seq<Seq<Seq<char>>> {
    rows.map_values(|r: Vec<String>| strings_view(r@))
}

/// The key/value rows of an object result's table: each key beside its
/// value (a string as itself, anything else as its JSON text).
pub open spec fn key_value_rows(entries: Seq<(Seq<char>, JsonV)>) -> Seq<Seq<Seq<char>>> {
    entries.map_values(|e: (Seq<char>, JsonV)| seq![e.0, cell_text(e.1)])
}

/// The rows of the `Key` / `Value` table of an object result.
pub fn key_value_grid(entries: &Vec<(String, Json)>) -> (r: Vec<Vec<String>>)
    ensures
        text_rows_view(r@) == key_value_rows(entries_view(entries@)),
{
    let ghost ev = entries_view(entries@);
    let mut rows: Vec<Vec<String>> = Vec::new();
    let mut i: usize = 0;
    while i < entries.len()
        invariant
            0 <= i <= entries.len(),
            ev == entries_view(entries@),
            text_rows_view(rows@) == key_value_rows(ev.take(i as int)),
        decreases entries.len() - i,
    {
        let mut row: Vec<String> = Vec::new();
        let k = entries[i].0.clone();
        let c = cell(&entries[i].1);
        let ghost kv = k@;
        let ghost cv = c@;
        row.push(k);
        row.push(c);
        assert(strings_view(row@) =~= seq![kv, cv]);
        let ghost prev = rows@;
        rows.push(row);
        assert(ev[i as int] == (entries@[i as int].0@, entries@[i as int].1@));
        assert(ev.take(i + 1) =~= ev.take(i as int).push(ev[i as int]));
        assert(text_rows_view(rows@) =~= text_rows_view(prev).push(seq![kv, cv]));
        assert(text_rows_view(rows@) =~= key_value_rows(ev.take(i + 1)));
        i = i + 1;
    }
    assert(ev.take(i as int) =~= ev);
    rows
}

/// Render an execution result in `format` (`fields`: an optional field
/// selection). A null result renders as the empty string and a string as
/// itself. Otherwise `csv` and `jsonl` render the tabular rows through
/// `apcore-toolkit` (without trailing line breaks; a value without rows is
/// its compact JSON), `yaml` through `serde_yaml_ng` (without trailing
/// whitespace; pretty JSON if it fails), `table` draws an object's
/// [`key_value_grid`] (fitted to `width` when given); other objects and
/// arrays are pretty JSON, numbers and booleans their JSON text.
pub fn format_exec_result(result: &Json, format: &str, fields: Option<&str>, width: Option<u16>) -> (r: String)
    ensures
        r@ == exec_text(
            match fields {
                Some(f) => field_selection(result@, f@),
                None => result@,
            },
            format@,
            width,
        ),
{
    let selected = match fields {
        Some(f) => apply_field_selection(result, f),
        None => result.dup(),
    };
    proof {
        reveal_strlit("csv");
        reveal_strlit("yaml");
        reveal_strlit("jsonl");
        reveal_strlit("table");
        reveal_strlit("\r\n");
        reveal_strlit("\n");
        assert("table"@.len() == 5 && "csv"@.len() == 3 && "yaml"@.len() == 4 && "jsonl"@.len() == 5);
        assert("table"@[0] != "jsonl"@[0]);
    }
    let ghost v = selected@;
    assert(v == match fields {
        Some(f) => field_selection(result@, f@),
        None => result@,
    });
    match &selected {
        Json::Null => {
            return String::new();
        },
        Json::Str(s) => {
            return s.clone();
        },
        _ => {},
    }
    if str_eq(format, "csv") {
        return match rows_for_tabular(&selected) {
            Some(rows) => {
                let t = render_csv(&rows);
                crate::text::trim_end_matches(t.as_str(), "\r\n")
            },
            None => to_json_text(&selected),
        };
    }
    if str_eq(format, "yaml") {
        return match render_yaml(&selected) {
            Some(y) => crate::text::trim_end(y.as_str()),
            None => to_pretty_text(&selected),
        };
    }
    if str_eq(format, "jsonl") {
        return match rows_for_tabular(&selected) {
            Some(rows) => {
                let t = render_jsonl(&rows);
                crate::text::trim_end_matches(t.as_str(), "\n")
            },
            None => to_json_text(&selected),
        };
    }
    match &selected {
        Json::Object(o) => {
            if str_eq(format, "table") {
                let mut headers: Vec<String> = Vec::new();
                headers.push(owned("Key"));
                headers.push(owned("Value"));
                assert(strings_view(headers@) =~= seq!["Key"@, "Value"@]);
                proof {
                    lemma_object_view(o);
                }
                let rows = key_value_grid(o);
                return render_grid(&headers, &rows, width);
            }
            to_pretty_text(&selected)
        },
        Json::Array(_) => to_pretty_text(&selected),
        _ => to_json_text(&selected),
    }
}

/// What to print for an execution result: nothing when the rendering is
/// empty (a null result or an empty string), else the rendering.
pub fn exec_result_to_print(result: &Json, format: &str, fields: Option<&str>, width: Option<u16>) -> (r: Option<String>)
    ensures
        ({
            let t = exec_text(
                match fields {
                    Some(f) => field_selection(result@, f@),
                    None => result@,
                },
                format@,
                width,
            );
            &&& t.len() == 0 ==> r is None
            &&& t.len() > 0 ==> (r matches Some(s) && s@ == t)
        }),
{
    let t = format_exec_result(result, format, fields, width);
    if t.as_str().is_empty() {
        None
    } else {
        Some(t)
    }
}

// ---------------------------------------------------------------------------
// Module lists
// ---------------------------------------------------------------------------

/// Optional columns of a module list.
pub struct ListDisplayOptions<'a> {
    /// Show each module's dependency count.
    pub show_deps: bool,
    /// Show whether each module is exposed under this filter.
    pub exposure_filter: Option<&'a ExposureFilter>,
}

pub open spec fn tags_json(tags: Seq<Seq<char>>) -> Seq<JsonV> {
    tags.map_values(|t: Seq<char>| JsonV::Str(t))
}

pub open spec fn dep_count(m: JsonV) -> nat {
    match m.get("dependencies"@) {
        Some(JsonV::Array(a)) => a.len(),
        _ => 0,
    }
}

/// One module of the JSON list: `id`, `description`, `tags`, then
/// `dependency_count` and `exposed` when asked for.
pub open spec fn list_entry(m: JsonV, show_deps: bool, ef: Option<crate::exposure::ExposureFilterV>) -> JsonV {
    let id = first_str(m, id_keys());
    let base = seq![
        ("id"@, JsonV::Str(id)),
        ("description"@, JsonV::Str(first_str(m, seq!["description"@]))),
        ("tags"@, JsonV::Array(tags_json(module_tags(m)))),
    ];
    let with_deps = if show_deps {
        entries_insert(base, "dependency_count"@, JsonV::Number(crate::json::NumV::PosInt(dep_count(m) as u64)))
    } else {
        base
    };
    JsonV::Object(
        match ef {
            Some(f) => entries_insert(with_deps, "exposed"@, JsonV::Bool(exposed(f, id))),
            None => with_deps,
        },
    )
}

/// The JSON rendering of a module list.
pub open spec fn list_json_text(ms: Seq<JsonV>, show_deps: bool, ef: Option<crate::exposure::ExposureFilterV>) -> Seq<char> {
    pretty_text(JsonV::Array(ms.map_values(|m: JsonV| list_entry(m, show_deps, ef))))
}

pub open spec fn opt_filter_view(ef: Option<&ExposureFilter>) -> Option<crate::exposure::ExposureFilterV> {
    match ef {
        Some(f) => Some(f@),
        None => None,
    }
}

fn tags_to_json(tags: &Vec<String>) -> (r: Vec<Json>)
    ensures
        json_seq_view(r@) == tags_json(strings_view(tags@)),
{
    let mut out: Vec<Json> = Vec::new();
    let mut i: usize = 0;
    while i < tags.len()
        invariant
            0 <= i <= tags.len(),
            json_seq_view(out@) == tags_json(strings_view(tags@)).take(i as int),
        decreases tags.len() - i,
    {
        let ghost prev = out@;
        let t = tags[i].clone();
        let ghost tv = t@;
        out.push(Json::Str(t));
        assert(out@[prev.len() as int]@ == JsonV::Str(tv));
        assert(json_seq_view(out@) =~= json_seq_view(prev).push(JsonV::Str(tv)));
        assert(json_seq_view(out@) =~= tags_json(strings_view(tags@)).take(i + 1));
        i = i + 1;
    }
    assert(tags_json(strings_view(tags@)).take(i as int) =~= tags_json(strings_view(tags@)));
    out
}

fn list_entry_exec(m: &Json, show_deps: bool, ef: Option<&ExposureFilter>) -> (r: Json)
    ensures
        r@ == list_entry(m@, show_deps, opt_filter_view(ef)),
{
    let id = module_id_text(m);
    let desc = description_text(m);
    let tags = tags_to_json(&extract_tags(m));
    proof {
        lemma_array_view(&tags);
    }
    let ghost tv = json_seq_view(tags@);
    let mut e: Vec<(String, Json)> = Vec::new();
    e.push((owned("id"), Json::Str(owned(id))));
    e.push((owned("description"), Json::Str(owned(desc))));
    e.push((owned("tags"), Json::Array(tags)));
    assert(entries_view(e@) =~= seq![
        ("id"@, JsonV::Str(id@)),
        ("description"@, JsonV::Str(desc@)),
        ("tags"@, JsonV::Array(tv)),
    ]);
    if show_deps {
        let n = dependency_count(m);
        entries_set(&mut e, owned("dependency_count"), Json::Number(JsonNumber::PosInt(n as u64)));
    }
    match ef {
        Some(f) => {
            let x = f.is_exposed(id);
            entries_set(&mut e, owned("exposed"), Json::Bool(x));
        },
        None => {},
    }
    proof {
        lemma_object_view(&e);
    }
    Json::Object(e)
}

/// The header row of the module list table.
pub open spec fn list_table_headers(show_deps: bool, show_exposure: bool) -> Seq<Seq<char>> {
    let h = seq!["ID"@, "Description"@, "Tags"@];
    let h2 = if show_deps {
        h.push("Deps"@)
    } else {
        h
    };
    if show_exposure {
        h2.push("Exposure"@)
    } else {
        h2
    }
}

/// One row of the module list table: the ID, the description cut to
/// [`DESCRIPTION_TRUNCATE_LEN`] bytes, the tags joined with `, `, then the
/// dependency count and a check mark (exposed) or a dash (hidden) when
/// those columns are shown.
pub open spec fn list_table_row(m: JsonV, show_deps: bool, ef: Option<crate::exposure::ExposureFilterV>) -> Seq<Seq<char>> {
    let id = first_str(m, id_keys());
    let r = seq![
        id,
        truncated(first_str(m, seq!["description"@]), DESCRIPTION_TRUNCATE_LEN as nat),
        crate::text::join_with(module_tags(m), ", "@),
    ];
    let r2 = if show_deps {
        r.push(decimal(dep_count(m)))
    } else {
        r
    };
    match ef {
        Some(f) => r2.push(
            if exposed(f, id) {
                "\u{2713}"@
            } else {
                "\u{2014}"@
            },
        ),
        None => r2,
    }
}

/// The header and rows of the module list table.
pub fn module_list_grid(modules: &Vec<Json>, opts: &ListDisplayOptions) -> (r: (Vec<String>, Vec<Vec<String>>))
    ensures
        strings_view(r.0@) == list_table_headers(opts.show_deps, opts.exposure_filter is Some),
        text_rows_view(r.1@) == json_seq_view(modules@).map_values(
            |m: JsonV| list_table_row(m, opts.show_deps, opt_filter_view(opts.exposure_filter)),
        ),
{
    let mut headers: Vec<String> = Vec::new();
    headers.push(owned("ID"));
    headers.push(owned("Description"));
    headers.push(owned("Tags"));
    let ghost h0 = strings_view(headers@);
    assert(h0 =~= seq!["ID"@, "Description"@, "Tags"@]);
    if opts.show_deps {
        headers.push(owned("Deps"));
    }
    let ghost h1 = strings_view(headers@);
    assert(h1 =~= if opts.show_deps { h0.push("Deps"@) } else { h0 });
    if opts.exposure_filter.is_some() {
        headers.push(owned("Exposure"));
    }
    assert(strings_view(headers@) =~= if opts.exposure_filter is Some { h1.push("Exposure"@) } else { h1 });
    let ghost mv = json_seq_view(modules@);
    let ghost efv = opt_filter_view(opts.exposure_filter);
    let mut rows: Vec<Vec<String>> = Vec::new();
    let mut i: usize = 0;
    while i < modules.len()
        invariant
            0 <= i <= modules.len(),
            mv == json_seq_view(modules@),
            efv == opt_filter_view(opts.exposure_filter),
            text_rows_view(rows@) == mv.take(i as int).map_values(
                |m: JsonV| list_table_row(m, opts.show_deps, efv),
            ),
        decreases modules.len() - i,
    {
        let m = &modules[i];
        let id = module_id_text(m);
        let desc = truncate(description_text(m), DESCRIPTION_TRUNCATE_LEN);
        let tags = crate::text::join_strings(&extract_tags(m), ", ");
        let mut row: Vec<String> = Vec::new();
        let ghost c0 = seq![id@, desc@, tags@];
        row.push(owned(id));
        row.push(desc);
        row.push(tags);
        assert(strings_view(row@) =~= c0);
        let ghost c1 = if opts.show_deps { c0.push(decimal(dep_count(m@))) } else { c0 };
        if opts.show_deps {
            let n = usize_to_string(dependency_count(m));
            row.push(n);
        }
        assert(strings_view(row@) =~= c1);
        match opts.exposure_filter {
            Some(f) => {
                if f.is_exposed(id) {
                    row.push(owned("\u{2713}"));
                } else {
                    row.push(owned("\u{2014}"));
                }
            },
            None => {},
        }
        assert(strings_view(row@) =~= list_table_row(m@, opts.show_deps, efv));
        let ghost prev = rows@;
        let ghost rv = strings_view(row@);
        rows.push(row);
        assert(mv[i as int] == m@);
        assert(mv.take(i + 1) =~= mv.take(i as int).push(mv[i as int]));
        assert(text_rows_view(rows@) =~= text_rows_view(prev).push(rv));
        i = i + 1;
    }
    assert(mv.take(i as int) =~= mv);
    (headers, rows)
}

/// The modules carrying every tag of `tags` (an AND filter), in order.
pub open spec fn tag_filtered(ms: Seq<JsonV>, tags: Seq<Seq<char>>) -> Seq<JsonV> {
    ms.filter(|m: JsonV| crate::discovery::has_all_tags(m, tags))
}

/// Keep the modules carrying every tag of `tags`.
pub fn filter_by_tags(modules: &Vec<Json>, tags: &Vec<String>) -> (r: Vec<Json>)
    ensures
        json_seq_view(r@) == tag_filtered(json_seq_view(modules@), strings_view(tags@)),
{
    let ghost tv = strings_view(tags@);
    let ghost pred = |m: JsonV| crate::discovery::has_all_tags(m, tv);
    let ghost mv = json_seq_view(modules@);
    let mut kept: Vec<Json> = Vec::new();
    let mut i: usize = 0;
    proof {
        reveal(Seq::filter);
        assert(mv.take(0).filter(pred) =~= Seq::<JsonV>::empty());
        assert(json_seq_view(kept@) =~= Seq::<JsonV>::empty());
    }
    while i < modules.len()
        invariant
            0 <= i <= modules.len(),
            tv == strings_view(tags@),
            mv == json_seq_view(modules@),
            pred == (|m: JsonV| crate::discovery::has_all_tags(m, tv)),
            json_seq_view(kept@) == mv.take(i as int).filter(pred),
        decreases modules.len() - i,
    {
        let ghost x = mv[i as int];
        proof {
            assert(mv.take(i + 1) =~= mv.take(i as int).push(x));
            mv.take(i as int).lemma_filter_push(x, pred);
        }
        if crate::discovery::module_has_all_tags(&modules[i], tags) {
            let ghost prev = kept@;
            let d = modules[i].dup();
            kept.push(d);
            assert(json_seq_view(kept@) =~= json_seq_view(prev).push(x));
        }
        i = i + 1;
    }
    assert(mv.take(i as int) =~= mv);
    kept
}

/// A descriptor in the shape of `apcore_toolkit::ScannedModule`: ID,
/// description, the two schemas (an empty object when absent), the tags,
/// an empty target, the `metadata` object (empty when it is not an object)
/// and, when the metadata holds a non-null `display`, that display.
pub open spec fn scanned_shape(m: JsonV) -> JsonV {
    let meta = match m.get("metadata"@) {
        Some(JsonV::Object(e)) => e,
        _ => Seq::empty(),
    };
    let base = seq![
        ("module_id"@, JsonV::Str(first_str(m, id_keys()))),
        ("description"@, JsonV::Str(first_str(m, seq!["description"@]))),
        ("input_schema"@, match m.get("input_schema"@) {
            Some(v) => v,
            None => JsonV::Object(Seq::empty()),
        }),
        ("output_schema"@, match m.get("output_schema"@) {
            Some(v) => v,
            None => JsonV::Object(Seq::empty()),
        }),
        ("tags"@, JsonV::Array(tags_json(module_tags(m)))),
        ("target"@, JsonV::Str(Seq::empty())),
        ("metadata"@, JsonV::Object(meta)),
    ];
    match crate::json::lookup(meta, "display"@) {
        Some(d) => if d is Null {
            JsonV::Object(base)
        } else {
            JsonV::Object(base.push(("display"@, d)))
        },
        None => JsonV::Object(base),
    }
}

fn schema_or_empty(m: &Json, key: &str) -> (r: Json)
    ensures
        r@ == match m@.get(key@) {
            Some(v) => v,
            None => JsonV::Object(Seq::empty()),
        },
{
    match m.get(key) {
        Some(v) => v.dup(),
        None => {
            let e: Vec<(String, Json)> = Vec::new();
            proof {
                lemma_object_view(&e);
            }
            assert(entries_view(e@) =~= Seq::<(Seq<char>, JsonV)>::empty());
            Json::Object(e)
        },
    }
}

/// Build [`scanned_shape`].
pub fn scanned_shape_of(m: &Json) -> (r: Json)
    ensures
        r@ == scanned_shape(m@),
{
    let id = module_id_text(m);
    let desc = description_text(m);
    let tags = tags_to_json(&extract_tags(m));
    proof {
        lemma_array_view(&tags);
    }
    let ghost tv = json_seq_view(tags@);
    let input = schema_or_empty(m, "input_schema");
    let output = schema_or_empty(m, "output_schema");
    let meta: Vec<(String, Json)> = match m.get("metadata") {
        Some(Json::Object(e)) => crate::json::dup_entries(e),
        _ => Vec::new(),
    };
    let ghost mev = entries_view(meta@);
    assert(mev == match m@.get("metadata"@) {
        Some(JsonV::Object(e)) => e,
        _ => Seq::empty(),
    });
    let display: Option<Json> = match crate::json::entries_get(&meta, "display") {
        Some(d) => match d {
            Json::Null => None,
            _ => Some(d.dup()),
        },
        None => None,
    };
    assert(match display {
        Some(d) => crate::json::lookup(mev, "display"@) == Some(d@) && !(d@ is Null),
        None => crate::json::lookup(mev, "display"@) is None || crate::json::lookup(mev, "display"@)
            == Some(JsonV::Null),
    });
    proof {
        lemma_object_view(&meta);
    }
    let mut e: Vec<(String, Json)> = Vec::new();
    e.push((owned("module_id"), Json::Str(owned(id))));
    e.push((owned("description"), Json::Str(owned(desc))));
    let ghost iv = input@;
    let ghost ov = output@;
    e.push((owned("input_schema"), input));
    e.push((owned("output_schema"), output));
    e.push((owned("tags"), Json::Array(tags)));
    e.push((owned("target"), Json::Str(String::new())));
    e.push((owned("metadata"), Json::Object(meta)));
    let ghost base = seq![
        ("module_id"@, JsonV::Str(id@)),
        ("description"@, JsonV::Str(desc@)),
        ("input_schema"@, iv),
        ("output_schema"@, ov),
        ("tags"@, JsonV::Array(tv)),
        ("target"@, JsonV::Str(Seq::empty())),
        ("metadata"@, JsonV::Object(mev)),
    ];
    assert(entries_view(e@) =~= base);
    assert(tv == tags_json(module_tags(m@)));
    assert(iv == match m@.get("input_schema"@) {
        Some(v) => v,
        None => JsonV::Object(Seq::empty()),
    });
    assert(ov == match m@.get("output_schema"@) {
        Some(v) => v,
        None => JsonV::Object(Seq::empty()),
    });
    assert(base =~= seq![
        ("module_id"@, JsonV::Str(first_str(m@, id_keys()))),
        ("description"@, JsonV::Str(first_str(m@, seq!["description"@]))),
        ("input_schema"@, match m@.get("input_schema"@) {
            Some(v) => v,
            None => JsonV::Object(Seq::empty()),
        }),
        ("output_schema"@, match m@.get("output_schema"@) {
            Some(v) => v,
            None => JsonV::Object(Seq::empty()),
        }),
        ("tags"@, JsonV::Array(tags_json(module_tags(m@)))),
        ("target"@, JsonV::Str(Seq::empty())),
        ("metadata"@, JsonV::Object(mev)),
    ]);
    match display {
        Some(d) => {
            let ghost dv = d@;
            e.push((owned("display"), d));
            assert(entries_view(e@) =~= base.push(("display"@, dv)));
            assert(JsonV::Object(entries_view(e@)) == scanned_shape(m@));
        },
        None => {
            assert(entries_view(e@) =~= base);
            assert(JsonV::Object(entries_view(e@)) == scanned_shape(m@));
        },
    }
    proof {
        lemma_object_view(&e);
    }
    Json::Object(e)
}

/// The `annotations` member of a descriptor, if any.
pub open spec fn annotations_member(m: JsonV) -> Option<JsonV> {
    m.get("annotations"@)
}

pub open spec fn opt_jsons(v: Seq<Option<Json>>) -> Seq<Option<JsonV>> {
    v.map_values(|o: Option<Json>| match o {
        Some(j) => Some(j@),
        None => None,
    })
}

/// An `apcore_toolkit::ScannedModule` deserialised from a
/// [`scanned_shape`] (an empty module when that fails), with the given
/// annotations deserialised when they fit. Nothing is claimed of it.
#[verifier::external_body]
fn to_scanned(shape: &Json, annotations: Option<&Json>) -> (r: apcore_toolkit::ScannedModule) {
    let empty = || apcore_toolkit::ScannedModule::new(String::new(), String::new(), serde_json::Value::Null, serde_json::Value::Null, Vec::new(), String::new());
    let mut m: apcore_toolkit::ScannedModule = serde_json::from_value(crate::json::to_serde(shape)).unwrap_or_else(|_| empty());
    m.annotations = annotations.and_then(|a| serde_json::from_value(crate::json::to_serde(a)).ok());
    m
}

/// What `apcore_toolkit::format_module(.., Markdown or Skill, true)` gives
/// for the module built by [`to_scanned`] from a shape and annotations.
pub uninterp spec fn toolkit_module_text(shape: JsonV, annotations: Option<JsonV>, skill: bool) -> Seq<char>;

/// What `apcore_toolkit::format_modules(.., Markdown or Skill, None, true)`
/// gives for the modules built by [`to_scanned`].
pub uninterp spec fn toolkit_modules_text(shapes: Seq<JsonV>, annotations: Seq<Option<JsonV>>, skill: bool) -> Seq<char>;

/// `apcore_toolkit::format_module` in the skill style when `skill`, else
/// markdown. Named by [`toolkit_module_text`].
#[verifier::external_body]
fn toolkit_format_module(shape: &Json, annotations: Option<&Json>, skill: bool) -> (r: String)
    ensures
        r@ == toolkit_module_text(shape@, match annotations {
            Some(a) => Some(a@),
            None => None,
        }, skill),
{
    let style = if skill { apcore_toolkit::ModuleStyle::Skill } else { apcore_toolkit::ModuleStyle::Markdown };
    match apcore_toolkit::format_module(&to_scanned(shape, annotations), style, true) {
        apcore_toolkit::FormatOutput::Text(t) => t,
        other => format!("{other:?}"),
    }
}

/// `apcore_toolkit::format_modules` in the skill style when `skill`, else
/// markdown, ungrouped. Named by [`toolkit_modules_text`].
#[verifier::external_body]
fn toolkit_format_modules(shapes: &Vec<Json>, annotations: &Vec<Option<Json>>, skill: bool) -> (r: String)
    ensures
        r@ == toolkit_modules_text(json_seq_view(shapes@), opt_jsons(annotations@), skill),
{
    let mods: Vec<apcore_toolkit::ScannedModule> = shapes.iter().zip(annotations.iter()).map(|(s, a)| to_scanned(s, a.as_ref())).collect();
    let style = if skill { apcore_toolkit::ModuleStyle::Skill } else { apcore_toolkit::ModuleStyle::Markdown };
    match apcore_toolkit::format_modules(&mods, style, None, true) {
        apcore_toolkit::FormatOutput::Text(t) => t,
        other => format!("{other:?}"),
    }
}

/// The shapes and annotations of a list of descriptors.
fn toolkit_inputs(modules: &Vec<Json>) -> (r: (Vec<Json>, Vec<Option<Json>>))
    ensures
        json_seq_view(r.0@) == json_seq_view(modules@).map_values(|m: JsonV| scanned_shape(m)),
        opt_jsons(r.1@) == json_seq_view(modules@).map_values(|m: JsonV| annotations_member(m)),
{
    let ghost mv = json_seq_view(modules@);
    let mut shapes: Vec<Json> = Vec::new();
    let mut anns: Vec<Option<Json>> = Vec::new();
    let mut i: usize = 0;
    while i < modules.len()
        invariant
            0 <= i <= modules.len(),
            mv == json_seq_view(modules@),
            json_seq_view(shapes@) == mv.take(i as int).map_values(|m: JsonV| scanned_shape(m)),
            opt_jsons(anns@) == mv.take(i as int).map_values(|m: JsonV| annotations_member(m)),
        decreases modules.len() - i,
    {
        let m = &modules[i];
        let sh = scanned_shape_of(m);
        let an: Option<Json> = match m.get("annotations") {
            Some(a) => Some(a.dup()),
            None => None,
        };
        let ghost shv = sh@;
        let ghost anv = annotations_member(m@);
        let ghost ps = shapes@;
        let ghost pa = anns@;
        shapes.push(sh);
        anns.push(an);
        assert(mv.take(i + 1) =~= mv.take(i as int).push(mv[i as int]));
        assert(json_seq_view(shapes@) =~= json_seq_view(ps).push(shv));
        assert(opt_jsons(anns@) =~= opt_jsons(pa).push(anv));
        i = i + 1;
    }
    assert(mv.take(i as int) =~= mv);
    (shapes, anns)
}

/// The text of a module list in `format`: see
/// [`format_module_list_with_options`].
pub open spec fn list_text(
    ms: Seq<JsonV>,
    format: Seq<char>,
    tags: Seq<Seq<char>>,
    show_deps: bool,
    ef: Option<crate::exposure::ExposureFilterV>,
    width: Option<u16>,
) -> Seq<char> {
    let shown = tag_filtered(ms, tags);
    if format == "table"@ {
        if shown.len() == 0 {
            if tags.len() > 0 {
                "No modules found matching tags: "@ + crate::text::join_with(tags, ", "@) + "."@
            } else {
                "No modules found."@
            }
        } else {
            grid_text(
                list_table_headers(show_deps, ef is Some),
                shown.map_values(|m: JsonV| list_table_row(m, show_deps, ef)),
                width,
            )
        }
    } else if format == "markdown"@ || format == "skill"@ {
        toolkit_modules_text(
            shown.map_values(|m: JsonV| scanned_shape(m)),
            shown.map_values(|m: JsonV| annotations_member(m)),
            format == "skill"@,
        )
    } else {
        list_json_text(shown, show_deps, ef)
    }
}

/// Render a module list, keeping only the modules that carry every tag of
/// `filter_tags` (an AND filter). `table`: a message when none is left
/// (naming the tag filter if there was one), otherwise the
/// [`module_list_grid`] drawn as a table (fitted to `width` when given);
/// `markdown` and `skill`: the `apcore-toolkit` rendering; `json` (and any
/// other format): the pretty JSON list of [`list_entry`].
pub fn format_module_list_with_options(
    modules: &Vec<Json>,
    format: &str,
    filter_tags: &Vec<String>,
    opts: &ListDisplayOptions,
    width: Option<u16>,
) -> (r: String)
    ensures
        r@ == list_text(
            json_seq_view(modules@),
            format@,
            strings_view(filter_tags@),
            opts.show_deps,
            opt_filter_view(opts.exposure_filter),
            width,
        ),
{
    let shown = filter_by_tags(modules, filter_tags);
    let ghost sv = json_seq_view(shown@);
    proof {
        reveal_strlit("markdown");
        reveal_strlit("skill");
        reveal_strlit("table");
    }
    if str_eq(format, "table") {
        if shown.len() == 0 {
            if filter_tags.len() > 0 {
                let joined = crate::text::join_strings(filter_tags, ", ");
                return concat3("No modules found matching tags: ", joined.as_str(), ".");
            }
            return owned("No modules found.");
        }
        let (headers, rows) = module_list_grid(&shown, opts);
        return render_grid(&headers, &rows, width);
    }
    if str_eq(format, "markdown") || str_eq(format, "skill") {
        let (shapes, anns) = toolkit_inputs(&shown);
        return toolkit_format_modules(&shapes, &anns, str_eq(format, "skill"));
    }
    let ghost efv = opt_filter_view(opts.exposure_filter);
    let mut entries: Vec<Json> = Vec::new();
    let mut i: usize = 0;
    while i < shown.len()
        invariant
            0 <= i <= shown.len(),
            sv == json_seq_view(shown@),
            efv == opt_filter_view(opts.exposure_filter),
            json_seq_view(entries@) == sv.take(i as int).map_values(|m: JsonV| list_entry(m, opts.show_deps, efv)),
        decreases shown.len() - i,
    {
        let ghost prev = entries@;
        let e = list_entry_exec(&shown[i], opts.show_deps, opts.exposure_filter);
        let ghost ev = e@;
        entries.push(e);
        assert(json_seq_view(entries@) =~= json_seq_view(prev).push(ev));
        assert(sv.take(i + 1) =~= sv.take(i as int).push(sv[i as int]));
        assert(json_seq_view(entries@) =~= sv.take(i + 1).map_values(|m: JsonV| list_entry(m, opts.show_deps, efv)));
        i = i + 1;
    }
    assert(sv.take(i as int) =~= sv);
    proof {
        lemma_array_view(&entries);
    }
    let arr = Json::Array(entries);
    to_pretty_text(&arr)
}

/// [`format_module_list_with_options`] without the optional columns.
pub fn format_module_list(modules: &Vec<Json>, format: &str, filter_tags: &Vec<String>, width: Option<u16>) -> (r: String)
    ensures
        r@ == list_text(json_seq_view(modules@), format@, strings_view(filter_tags@), false, None, width),
{
    let opts = ListDisplayOptions { show_deps: false, exposure_filter: None };
    format_module_list_with_options(modules, format, filter_tags, &opts, width)
}


// ---------------------------------------------------------------------------
// Module detail
// ---------------------------------------------------------------------------

/// A member that is present and not null.
pub open spec fn present(m: JsonV, key: Seq<char>) -> Option<JsonV> {
    match m.get(key) {
        Some(v) => if v is Null {
            None
        } else {
            Some(v)
        },
        None => None,
    }
}

/// The non-empty `annotations` object's entries.
pub open spec fn annotation_entries(m: JsonV) -> Option<Seq<(Seq<char>, JsonV)>> {
    match m.get("annotations"@) {
        Some(JsonV::Object(e)) => if e.len() > 0 {
            Some(e)
        } else {
            None
        },
        _ => None,
    }
}

/// A top-level key that carries extension metadata.
pub open spec fn is_extension_key(k: Seq<char>) -> bool {
    crate::text::has_prefix(k, "x-"@) || crate::text::has_prefix(k, "x_"@)
}

/// The extension-metadata entries of a descriptor, in order.
pub open spec fn extension_entries(m: JsonV) -> Seq<(Seq<char>, JsonV)> {
    match m {
        JsonV::Object(e) => e.filter(|kv: (Seq<char>, JsonV)| is_extension_key(kv.0)),
        _ => Seq::empty(),
    }
}

/// `  key: value` lines (a string value as itself, others as JSON).
pub open spec fn kv_lines(e: Seq<(Seq<char>, JsonV)>) -> Seq<Seq<char>> {
    e.map_values(|kv: (Seq<char>, JsonV)| "  "@ + kv.0 + ": "@ + cell_text(kv.1))
}

pub open spec fn section_text(title: Seq<char>, content: Seq<char>) -> Seq<char> {
    "\n"@ + title + ":\n"@ + content
}

/// The parts of the table rendering of a descriptor, joined by newlines.
pub open spec fn detail_parts(m: JsonV) -> Seq<Seq<char>> {
    let id = first_str(m, id_keys());
    let p0 = seq![panel_drawing("Module: "@ + id), "\nDescription:\n  "@ + first_str(m, seq!["description"@])];
    let p1 = match present(m, "input_schema"@) {
        Some(v) => p0.push(section_text("Input Schema"@, pretty_text(v))),
        None => p0,
    };
    let p2 = match present(m, "output_schema"@) {
        Some(v) => p1.push(section_text("Output Schema"@, pretty_text(v))),
        None => p1,
    };
    let p3 = match annotation_entries(m) {
        Some(e) => p2.push(section_text("Annotations"@, crate::text::join_with(kv_lines(e), "\n"@))),
        None => p2,
    };
    let x = extension_entries(m);
    let p4 = if x.len() > 0 {
        p3.push(section_text("Extension Metadata"@, crate::text::join_with(kv_lines(x), "\n"@)))
    } else {
        p3
    };
    let tags = module_tags(m);
    if tags.len() > 0 {
        p4.push(section_text("Tags"@, "  "@ + crate::text::join_with(tags, ", "@)))
    } else {
        p4
    }
}

/// Insert each entry in turn.
pub open spec fn insert_all(m: Seq<(Seq<char>, JsonV)>, e: Seq<(Seq<char>, JsonV)>) -> Seq<(Seq<char>, JsonV)>
    decreases e.len(),
{
    if e.len() == 0 {
        m
    } else {
        entries_insert(insert_all(m, e.drop_last()), e.last().0, e.last().1)
    }
}

/// The JSON object of a descriptor's detail: `id`, `description`, the
/// present schemas, non-empty annotations, non-empty tags, then the
/// extension metadata.
pub open spec fn detail_json(m: JsonV) -> Seq<(Seq<char>, JsonV)> {
    let e0 = seq![
        ("id"@, JsonV::Str(first_str(m, id_keys()))),
        ("description"@, JsonV::Str(first_str(m, seq!["description"@]))),
    ];
    let e1 = match present(m, "input_schema"@) {
        Some(v) => entries_insert(e0, "input_schema"@, v),
        None => e0,
    };
    let e2 = match present(m, "output_schema"@) {
        Some(v) => entries_insert(e1, "output_schema"@, v),
        None => e1,
    };
    let e3 = match annotation_entries(m) {
        Some(a) => entries_insert(e2, "annotations"@, JsonV::Object(a)),
        None => e2,
    };
    let tags = module_tags(m);
    let e4 = if tags.len() > 0 {
        entries_insert(e3, "tags"@, JsonV::Array(tags_json(tags)))
    } else {
        e3
    };
    insert_all(e4, extension_entries(m))
}

fn present_member<'a>(m: &'a Json, key: &str) -> (r: Option<&'a Json>)
    ensures
        match r {
            Some(v) => present(m@, key@) == Some(v@),
            None => present(m@, key@) is None,
        },
{
    match m.get(key) {
        Some(v) => if v.is_null() {
            None
        } else {
            Some(v)
        },
        None => None,
    }
}

fn annotation_members(m: &Json) -> (r: Option<&Vec<(String, Json)>>)
    ensures
        match r {
            Some(e) => annotation_entries(m@) == Some(entries_view(e@)),
            None => annotation_entries(m@) is None,
        },
{
    match m.get("annotations") {
        Some(Json::Object(e)) => {
            proof {
                lemma_object_view(e);
            }
            if e.len() > 0 {
                Some(e)
            } else {
                None
            }
        },
        _ => None,
    }
}

fn extension_members(m: &Json) -> (r: Vec<(String, Json)>)
    ensures
        entries_view(r@) == extension_entries(m@),
{
    let mut out: Vec<(String, Json)> = Vec::new();
    match m {
        Json::Object(e) => {
            proof {
                lemma_object_view(e);
            }
            let ghost ev = entries_view(e@);
            let ghost pred = |kv: (Seq<char>, JsonV)| is_extension_key(kv.0);
            let mut i: usize = 0;
            proof {
                reveal(Seq::filter);
                assert(ev.take(0).filter(pred) =~= Seq::<(Seq<char>, JsonV)>::empty());
                assert(entries_view(out@) =~= Seq::<(Seq<char>, JsonV)>::empty());
            }
            while i < e.len()
                invariant
                    0 <= i <= e.len(),
                    ev == entries_view(e@),
                    m@ == JsonV::Object(ev),
                    pred == (|kv: (Seq<char>, JsonV)| is_extension_key(kv.0)),
                    entries_view(out@) == ev.take(i as int).filter(pred),
                decreases e.len() - i,
            {
                proof {
                    assert(ev.take(i + 1) =~= ev.take(i as int).push(ev[i as int]));
                    ev.take(i as int).lemma_filter_push(ev[i as int], pred);
                }
                let k = e[i].0.as_str();
                if crate::text::starts_with(k, "x-") || crate::text::starts_with(k, "x_") {
                    let ghost prev = out@;
                    let kk = e[i].0.clone();
                    let vv = e[i].1.dup();
                    let ghost pair = (kk@, vv@);
                    out.push((kk, vv));
                    assert(entries_view(out@) =~= entries_view(prev).push(pair));
                }
                i = i + 1;
            }
            assert(ev.take(e.len() as int) =~= ev);
            out
        },
        _ => {
            assert(entries_view(out@) =~= Seq::<(Seq<char>, JsonV)>::empty());
            out
        },
    }
}

fn kv_line_strings(e: &Vec<(String, Json)>) -> (r: Vec<String>)
    ensures
        r@.map_values(|s: String| s@) == kv_lines(entries_view(e@)),
{
    let ghost ev = entries_view(e@);
    let mut out: Vec<String> = Vec::new();
    let mut i: usize = 0;
    while i < e.len()
        invariant
            0 <= i <= e.len(),
            ev == entries_view(e@),
            out@.map_values(|s: String| s@) == kv_lines(ev).take(i as int),
        decreases e.len() - i,
    {
        let mut line = owned("  ");
        push_str(&mut line, e[i].0.as_str());
        push_str(&mut line, ": ");
        let c = cell(&e[i].1);
        push_str(&mut line, c.as_str());
        let ghost prev = out@;
        let ghost lv = line@;
        out.push(line);
        assert(out@.map_values(|s: String| s@) =~= prev.map_values(|s: String| s@).push(lv));
        assert(out@.map_values(|s: String| s@) =~= kv_lines(ev).take(i + 1));
        i = i + 1;
    }
    assert(kv_lines(ev).take(i as int) =~= kv_lines(ev));
    out
}

fn section(title: &str, content: &str) -> (r: String)
    ensures
        r@ == section_text(title@, content@),
{
    let mut s = owned("\n");
    push_str(&mut s, title);
    push_str(&mut s, ":\n");
    push_str(&mut s, content);
    s
}

/// Render one descriptor in detail. `table`: a panel naming the module,
/// the description, the present schemas, annotations, extension metadata
/// and tags, each a section; `json` (and any unknown format): the pretty
/// [`detail_json`] object; `markdown` and `skill`: the `apcore-toolkit`
/// rendering of the descriptor.
pub fn format_module_detail(module: &Json, format: &str) -> (r: String)
    ensures
        format@ == "markdown"@ || format@ == "skill"@ ==> r@ == toolkit_module_text(
            scanned_shape(module@),
            annotations_member(module@),
            format@ == "skill"@,
        ),
        format@ == "table"@ ==> r@ == crate::text::join_with(detail_parts(module@), "\n"@),
        !(format@ == "table"@ || format@ == "markdown"@ || format@ == "skill"@) ==> r@ == pretty_text(
            JsonV::Object(detail_json(module@)),
        ),
{
    proof {
        reveal_strlit("markdown");
        reveal_strlit("skill");
        reveal_strlit("table");
        assert("markdown"@.len() == 8 && "skill"@.len() == 5 && "table"@.len() == 5);
        assert("skill"@[0] != "table"@[0]);
    }
    if str_eq(format, "markdown") || str_eq(format, "skill") {
        let shape = scanned_shape_of(module);
        return toolkit_format_module(&shape, module.get("annotations"), str_eq(format, "skill"));
    }
    let id = module_id_text(module);
    let description = description_text(module);
    let tags = extract_tags(module);
    if str_eq(format, "table") {
        let mut parts: Vec<String> = Vec::new();
        let title = concat2("Module: ", id);
        parts.push(render_panel(title.as_str()));
        parts.push(concat2("\nDescription:\n  ", description));
        let ghost p0 = parts@.map_values(|s: String| s@);
        match present_member(module, "input_schema") {
            Some(v) => {
                let t = to_pretty_text(v);
                parts.push(section("Input Schema", t.as_str()));
            },
            None => {},
        }
        match present_member(module, "output_schema") {
            Some(v) => {
                let t = to_pretty_text(v);
                parts.push(section("Output Schema", t.as_str()));
            },
            None => {},
        }
        match annotation_members(module) {
            Some(e) => {
                let lines = kv_line_strings(e);
                let content = crate::text::join_strings(&lines, "\n");
                parts.push(section("Annotations", content.as_str()));
            },
            None => {},
        }
        let x = extension_members(module);
        if x.len() > 0 {
            let lines = kv_line_strings(&x);
            let content = crate::text::join_strings(&lines, "\n");
            parts.push(section("Extension Metadata", content.as_str()));
        }
        if tags.len() > 0 {
            let joined = crate::text::join_strings(&tags, ", ");
            let content = concat2("  ", joined.as_str());
            parts.push(section("Tags", content.as_str()));
        }
        assert(parts@.map_values(|s: String| s@) =~= detail_parts(module@));
        return crate::text::join_strings(&parts, "\n");
    }
    let mut result: Vec<(String, Json)> = Vec::new();
    result.push((owned("id"), Json::Str(owned(id))));
    result.push((owned("description"), Json::Str(owned(description))));
    assert(entries_view(result@) =~= seq![
        ("id"@, JsonV::Str(id@)),
        ("description"@, JsonV::Str(description@)),
    ]);
    match present_member(module, "input_schema") {
        Some(v) => entries_set(&mut result, owned("input_schema"), v.dup()),
        None => {},
    }
    match present_member(module, "output_schema") {
        Some(v) => entries_set(&mut result, owned("output_schema"), v.dup()),
        None => {},
    }
    match annotation_members(module) {
        Some(e) => {
            let copy = crate::json::dup_entries(e);
            proof {
                lemma_object_view(&copy);
            }
            entries_set(&mut result, owned("annotations"), Json::Object(copy));
        },
        None => {},
    }
    if tags.len() > 0 {
        let tj = tags_to_json(&tags);
        proof {
            lemma_array_view(&tj);
        }
        entries_set(&mut result, owned("tags"), Json::Array(tj));
    }
    let x = extension_members(module);
    let ghost xv = entries_view(x@);
    let ghost start = entries_view(result@);
    let mut i: usize = 0;
    let mut rest = x;
    let ghost orig = rest@;
    let n = rest.len();
    assert(xv.take(0) =~= Seq::<(Seq<char>, JsonV)>::empty());
    while rest.len() > 0
        invariant
            n == orig.len(),
            i + rest.len() == n,
            rest@ == orig.skip(i as int),
            xv == entries_view(orig),
            entries_view(result@) == insert_all(start, xv.take(i as int)),
        decreases rest.len(),
    {
        let e = rest.remove(0);
        assert(e == orig[i as int]);
        assert(rest@ =~= orig.skip(i + 1));
        assert(xv.take(i + 1).drop_last() == xv.take(i as int));
        assert(xv.take(i + 1).last() == (e.0@, e.1@));
        entries_set(&mut result, e.0, e.1);
        i = i + 1;
    }
    assert(xv.take(n as int) =~= xv);
    proof {
        lemma_object_view(&result);
    }
    let obj = Json::Object(result);
    to_pretty_text(&obj)
}

} // verus!
