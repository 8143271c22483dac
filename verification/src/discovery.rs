//! The `list` and `describe` discovery commands: tag validation, the list
//! filters (tags, search, status, deprecation, annotations, exposure) and the
//! ordering by module ID.
use vstd::prelude::*;
use crate::json::{Json, JsonV, get_str, get_bool, json_seq_view};
use crate::text::{
    owned, concat3, chars_of, str_eq, string_in, is_ascii_lower, is_ascii_digit, char_is_ascii_lower,
    char_is_ascii_digit, to_lowercase, unicode_lowercase, str_contains, contains_sub, str_le, seq_le,
    concat2,
};
use crate::exposure::{ExposureFilter, exposed};

use crate::text::{strings_view, opt_view};

verus! {

// ---------------------------------------------------------------------------
// Errors
// ---------------------------------------------------------------------------

/// Errors produced by the discovery commands.
#[derive(Debug)]
pub enum DiscoveryError {
    ModuleNotFound(String),
    InvalidModuleId(String),
    InvalidTag(String),
}

impl DiscoveryError {
    /// The error's message.
    pub fn message(&self) -> (r: String)
        ensures
            r@ == match self {
                DiscoveryError::ModuleNotFound(s) => "module '"@ + s@ + "' not found"@,
                DiscoveryError::InvalidModuleId(s) => "invalid module id: "@ + s@,
                DiscoveryError::InvalidTag(s) => "invalid tag format: '"@ + s@
                    + "'. Tags must match [a-z][a-z0-9_-]*."@,
            },
    {
        match self {
            DiscoveryError::ModuleNotFound(s) => concat3("module '", s.as_str(), "' not found"),
            DiscoveryError::InvalidModuleId(s) => concat2("invalid module id: ", s.as_str()),
            DiscoveryError::InvalidTag(s) => concat3(
                "invalid tag format: '",
                s.as_str(),
                "'. Tags must match [a-z][a-z0-9_-]*.",
            ),
        }
    }

    /// The exit code: 44 for an unknown module, 2 for malformed input.
    pub fn exit_code(&self) -> (r: i32)
        ensures
            r == match self {
                DiscoveryError::ModuleNotFound(_) => crate::EXIT_MODULE_NOT_FOUND,
                _ => crate::EXIT_INVALID_INPUT,
            },
    {
        match self {
            DiscoveryError::ModuleNotFound(_) => crate::EXIT_MODULE_NOT_FOUND,
            _ => crate::EXIT_INVALID_INPUT,
        }
    }
}

// ---------------------------------------------------------------------------
// Tags
// ---------------------------------------------------------------------------

/// `^[a-z][a-z0-9_-]*$`.
pub open spec fn valid_tag(t: Seq<char>) -> bool {
    &&& t.len() > 0
    &&& is_ascii_lower(t[0])
    &&& forall|i: int|
        1 <= i < t.len() ==> is_ascii_lower(#[trigger] t[i]) || is_ascii_digit(t[i]) || t[i] == '_'
            || t[i] == '-'
}

/// Whether `tag` has the shape `[a-z][a-z0-9_-]*`.
pub fn validate_tag(tag: &str) -> (r: bool)
    ensures
        r == valid_tag(tag@),
{
    let cs = chars_of(tag);
    if cs.len() == 0 || !char_is_ascii_lower(cs[0]) {
        return false;
    }
    let mut i: usize = 1;
    while i < cs.len()
        invariant
            cs@ == tag@,
            1 <= i <= cs.len(),
            forall|k: int|
                1 <= k < i ==> is_ascii_lower(#[trigger] cs@[k]) || is_ascii_digit(cs@[k]) || cs@[k]
                    == '_' || cs@[k] == '-',
        decreases cs.len() - i,
    {
        let c = cs[i];
        if !(char_is_ascii_lower(c) || char_is_ascii_digit(c) || c == '_' || c == '-') {
            return false;
        }
        i = i + 1;
    }
    true
}

/// The string entries of a module's `tags` array.
pub open spec fn module_tags(m: JsonV) -> Seq<Seq<char>> {
    match m.get("tags"@) {
        Some(JsonV::Array(items)) => string_items(items),
        _ => Seq::empty(),
    }
}

pub open spec fn string_items(items: Seq<JsonV>) -> Seq<Seq<char>>
    decreases items.len(),
{
    if items.len() == 0 {
        Seq::empty()
    } else {
        let r = string_items(items.drop_last());
        match items.last() {
            JsonV::Str(s) => r.push(s),
            _ => r,
        }
    }
}

/// Every tag of `tags` is among the module's tags.
pub open spec fn has_all_tags(m: JsonV, tags: Seq<Seq<char>>) -> bool {
    forall|i: int| 0 <= i < tags.len() ==> module_tags(m).contains(#[trigger] tags[i])
}

/// The string entries of a module's `tags` array.
pub fn extract_tag_strings(m: &Json) -> (r: Vec<String>)
    ensures
        strings_view(r@) == module_tags(m@),
{
    let mut out: Vec<String> = Vec::new();
    let items = match m.get("tags") {
        Some(t) => match t.as_array() {
            Some(a) => a,
            None => {
                assert(strings_view(out@) =~= Seq::<Seq<char>>::empty());
                return out;
            },
        },
        None => {
            assert(strings_view(out@) =~= Seq::<Seq<char>>::empty());
            return out;
        },
    };
    let ghost iv = json_seq_view(items@);
    let mut i: usize = 0;
    assert(strings_view(out@) =~= string_items(iv.take(0)));
    while i < items.len()
        invariant
            0 <= i <= items.len(),
            iv == json_seq_view(items@),
            m@.get("tags"@) == Some(JsonV::Array(iv)),
            strings_view(out@) == string_items(iv.take(i as int)),
        decreases items.len() - i,
    {
        assert(iv.take(i + 1).drop_last() == iv.take(i as int));
        assert(iv.take(i + 1).last() == items@[i as int]@);
        match items[i].as_str() {
            Some(s) => {
                let ghost prev = out@;
                let c = s.clone();
                out.push(c);
                assert(strings_view(out@) =~= strings_view(prev).push(c@));
            },
            None => {},
        }
        i = i + 1;
    }
    assert(iv.take(items.len() as int) == iv);
    out
}

/// Whether the module carries every tag of `tags`.
pub fn module_has_all_tags(module: &Json, tags: &Vec<String>) -> (r: bool)
    ensures
        r == has_all_tags(module@, strings_view(tags@)),
{
    let mod_tags = extract_tag_strings(module);
    let ghost mt = strings_view(mod_tags@);
    let mut i: usize = 0;
    while i < tags.len()
        invariant
            0 <= i <= tags.len(),
            mt == strings_view(mod_tags@),
            mt == module_tags(module@),
            forall|k: int| 0 <= k < i ==> mt.contains(#[trigger] strings_view(tags@)[k]),
        decreases tags.len() - i,
    {
        let found = string_in(tags[i].as_str(), &mod_tags);
        proof {
            if found {
                let m = choose|m: int| 0 <= m < mod_tags@.len() && mod_tags@[m]@ == tags@[i as int]@;
                assert(mt[m] == strings_view(tags@)[i as int]);
            } else {
                assert forall|m: int| 0 <= m < mt.len() implies mt[m] != strings_view(tags@)[i as int] by {
                    assert(mod_tags@[m]@ != tags@[i as int]@);
                }
            }
        }
        if !found {
            assert(!mt.contains(strings_view(tags@)[i as int]));
            return false;
        }
        i = i + 1;
    }
    true
}

// ---------------------------------------------------------------------------
// List options and filters
// ---------------------------------------------------------------------------

/// Options of the `list` command.
#[derive(Debug)]
pub struct ListOptions {
    /// AND tag filter.
    pub tags: Vec<String>,
    pub explicit_format: Option<String>,
    /// Case-insensitive substring filter on ID and description.
    pub search: Option<String>,
    /// `enabled` (the default), `disabled` or `all`.
    pub status: Option<String>,
    /// Annotation flags that must all be `true` (AND).
    pub annotations: Vec<String>,
    /// `id` (the default), `calls`, `errors` or `latency`.
    pub sort: Option<String>,
    pub reverse: bool,
    /// Include deprecated modules.
    pub deprecated: bool,
    /// Show the dependency count.
    pub deps: bool,
    /// `exposed` (the default), `hidden` or `all`.
    pub exposure: Option<String>,
}

impl Default for ListOptions {
    fn default() -> (r: Self)
        ensures
            r.tags@.len() == 0,
            r.explicit_format is None,
            r.search is None,
            r.status is None,
            r.annotations@.len() == 0,
            r.sort is None,
            !r.reverse,
            !r.deprecated,
            !r.deps,
            r.exposure is None,
    {
        ListOptions {
            tags: Vec::new(),
            explicit_format: None,
            search: None,
            status: None,
            annotations: Vec::new(),
            sort: None,
            reverse: false,
            deprecated: false,
            deps: false,
            exposure: None,
        }
    }
}

/// The plain contents of [`ListOptions`] the filters read.
pub struct ListFilterV {
    pub tags: Seq<Seq<char>>,
    pub search: Option<Seq<char>>,
    pub status: Option<Seq<char>>,
    pub annotations: Seq<Seq<char>>,
    pub deprecated: bool,
    pub exposure: Option<Seq<char>>,
}

pub open spec fn list_filter_view(o: ListOptions) -> ListFilterV {
    ListFilterV {
        tags: strings_view(o.tags@),
        search: opt_view(o.search),
        status: opt_view(o.status),
        annotations: strings_view(o.annotations@),
        deprecated: o.deprecated,
        exposure: opt_view(o.exposure),
    }
}

/// A module's ID for searching and exposure: `module_id`, else `id`, when a
/// string; empty otherwise.
pub open spec fn search_id(m: JsonV) -> Seq<char> {
    let v = match m.get("module_id"@) {
        Some(x) => Some(x),
        None => m.get("id"@),
    };
    match v {
        Some(JsonV::Str(s)) => s,
        _ => Seq::empty(),
    }
}

/// The key modules are ordered by: `module_id` when a string, else empty.
pub open spec fn sort_key(m: JsonV) -> Seq<char> {
    match get_str(m, "module_id"@) {
        Some(s) => s,
        None => Seq::empty(),
    }
}

pub open spec fn description_of(m: JsonV) -> Seq<char> {
    match get_str(m, "description"@) {
        Some(s) => s,
        None => Seq::empty(),
    }
}

/// The annotation attribute a `--annotation` flag names.
pub open spec fn annotation_attr(flag: Seq<char>) -> Seq<char> {
    if flag == "requires-approval"@ {
        "requires_approval"@
    } else {
        flag
    }
}

pub open spec fn annotation_true(m: JsonV, attr: Seq<char>) -> bool {
    match m.get("annotations"@) {
        Some(a) => get_bool(a, attr) == Some(true),
        None => false,
    }
}

/// Whether a module survives every filter of the `list` command.
pub open spec fn list_keeps(m: JsonV, f: ListFilterV, ef: Option<crate::exposure::ExposureFilterV>) -> bool {
    &&& (f.tags.len() == 0 || has_all_tags(m, f.tags))
    &&& match f.search {
        Some(q) => {
            let ql = unicode_lowercase(q);
            contains_sub(unicode_lowercase(search_id(m)), ql) || contains_sub(
                unicode_lowercase(description_of(m)),
                ql,
            )
        },
        None => true,
    }
    &&& {
        let status = match f.status {
            Some(s) => s,
            None => "enabled"@,
        };
        if status == "enabled"@ {
            get_bool(m, "enabled"@) != Some(false)
        } else if status == "disabled"@ {
            get_bool(m, "enabled"@) == Some(false)
        } else {
            true
        }
    }
    &&& (f.deprecated || get_bool(m, "deprecated"@) != Some(true))
    &&& forall|i: int| 0 <= i < f.annotations.len() ==> annotation_true(m, annotation_attr(#[trigger] f.annotations[i]))
    &&& match ef {
        Some(flt) => {
            let e = match f.exposure {
                Some(s) => s,
                None => "exposed"@,
            };
            if e == "exposed"@ {
                exposed(flt, search_id(m))
            } else if e == "hidden"@ {
                !exposed(flt, search_id(m))
            } else {
                true
            }
        },
        None => true,
    }
}

/// The first tag that is not well-formed.
pub open spec fn first_bad_tag(tags: Seq<Seq<char>>) -> Option<Seq<char>>
    decreases tags.len(),
{
    if tags.len() == 0 {
        None
    } else if !valid_tag(tags[0]) {
        Some(tags[0])
    } else {
        first_bad_tag(tags.drop_first())
    }
}

// ---------------------------------------------------------------------------
// Ordering
// ---------------------------------------------------------------------------

/// Insert `x` into the key-sorted `sorted`, after every element whose key is
/// not greater than its own (so equal keys keep their order).
pub open spec fn insert_by_key(sorted: Seq<JsonV>, x: JsonV) -> Seq<JsonV>
    decreases sorted.len(),
{
    if sorted.len() == 0 {
        seq![x]
    } else if seq_le(sort_key(sorted.last()), sort_key(x)) {
        sorted.push(x)
    } else {
        insert_by_key(sorted.drop_last(), x).push(sorted.last())
    }
}

/// The stable sort of `s` by [`sort_key`].
pub open spec fn sort_by_key(s: Seq<JsonV>) -> Seq<JsonV>
    decreases s.len(),
{
    if s.len() == 0 {
        Seq::empty()
    } else {
        insert_by_key(sort_by_key(s.drop_last()), s.last())
    }
}

pub open spec fn reversed(s: Seq<JsonV>) -> Seq<JsonV> {
    Seq::new(s.len(), |i: int| s[s.len() - 1 - i])
}

/// What the `list` command shows, in order: the modules that pass every
/// filter, sorted by module ID, reversed on request.
pub open spec fn listed(
    ms: Seq<JsonV>,
    f: ListFilterV,
    ef: Option<crate::exposure::ExposureFilterV>,
    reverse: bool,
) -> Seq<JsonV> {
    let kept = ms.filter(|m: JsonV| list_keeps(m, f, ef));
    let sorted = sort_by_key(kept);
    if reverse {
        reversed(sorted)
    } else {
        sorted
    }
}

proof fn lemma_insert_at(s: Seq<JsonV>, x: JsonV, pos: int)
    requires
        0 <= pos <= s.len(),
        pos == 0 || seq_le(sort_key(s[pos - 1]), sort_key(x)),
        forall|j: int| pos <= j < s.len() ==> !seq_le(sort_key(#[trigger] s[j]), sort_key(x)),
    ensures
        insert_by_key(s, x) == s.insert(pos, x),
    decreases s.len(),
{
    if s.len() == 0 {
        assert(s.insert(0, x) =~= seq![x]);
    } else if pos == s.len() {
        assert(s.insert(pos, x) =~= s.push(x));
    } else {
        let init = s.drop_last();
        assert(!seq_le(sort_key(s[s.len() - 1]), sort_key(x)));
        assert forall|j: int| pos <= j < init.len() implies !seq_le(sort_key(#[trigger] init[j]), sort_key(x)) by {
            assert(init[j] == s[j]);
        }
        if pos > 0 {
            assert(init[pos - 1] == s[pos - 1]);
        }
        lemma_insert_at(init, x, pos);
        assert(init.insert(pos, x).push(s.last()) =~= s.insert(pos, x));
    }
}

fn key_of(m: &Json) -> (r: &str)
    ensures
        r@ == sort_key(m@),
{
    proof {
        reveal_strlit("");
    }
    match m.get("module_id") {
        Some(v) => match v.as_str() {
            Some(s) => s.as_str(),
            None => "",
        },
        None => "",
    }
}

/// Stable insertion sort by module ID.
fn sort_modules(items: Vec<Json>) -> (r: Vec<Json>)
    ensures
        json_seq_view(r@) == sort_by_key(json_seq_view(items@)),
{
    let ghost iv = json_seq_view(items@);
    let mut rest = items;
    let ghost orig = rest@;
    let mut out: Vec<Json> = Vec::new();
    let mut i: usize = 0;
    let n = rest.len();
    assert(json_seq_view(out@) =~= sort_by_key(iv.take(0)));
    while rest.len() > 0
        invariant
            n == orig.len(),
            i + rest.len() == n,
            rest@ == orig.skip(i as int),
            iv == json_seq_view(orig),
            json_seq_view(out@) == sort_by_key(iv.take(i as int)),
        decreases rest.len(),
    {
        let x = rest.remove(0);
        assert(x == orig[i as int]);
        assert(rest@ =~= orig.skip(i + 1));
        assert(iv.take(i + 1).drop_last() == iv.take(i as int));
        assert(iv.take(i + 1).last() == x@);
        let ghost ov = json_seq_view(out@);
        let mut pos: usize = out.len();
        while pos > 0 && !str_le(key_of(&out[pos - 1]), key_of(&x))
            invariant
                0 <= pos <= out.len(),
                ov == json_seq_view(out@),
                forall|j: int| pos <= j < ov.len() ==> !seq_le(sort_key(#[trigger] ov[j]), sort_key(x@)),
            decreases pos,
        {
            pos = pos - 1;
        }
        proof {
            lemma_insert_at(ov, x@, pos as int);
        }
        out.insert(pos, x);
        assert(json_seq_view(out@) =~= ov.insert(pos as int, x@));
        i = i + 1;
    }
    assert(iv.take(n as int) == iv);
    out
}

fn reverse_modules(items: Vec<Json>) -> (r: Vec<Json>)
    ensures
        json_seq_view(r@) == reversed(json_seq_view(items@)),
{
    let ghost iv = json_seq_view(items@);
    let mut rest = items;
    let mut out: Vec<Json> = Vec::new();
    let n = rest.len();
    while rest.len() > 0
        invariant
            iv.len() == n,
            rest.len() + out.len() == n,
            json_seq_view(rest@) == iv.take(rest.len() as int),
            forall|k: int| 0 <= k < out.len() ==> #[trigger] json_seq_view(out@)[k] == iv[n - 1 - k],
        decreases rest.len(),
    {
        let ghost before = rest@;
        let ghost prev_out = out@;
        let x = rest.pop().unwrap();
        assert(json_seq_view(rest@) =~= iv.take(rest.len() as int)) by {
            assert(rest@ =~= before.drop_last());
        }
        assert(x@ == iv[rest.len() as int]) by {
            assert(json_seq_view(before)[rest.len() as int] == x@);
        }
        out.push(x);
        proof {
            assert forall|k: int| 0 <= k < out.len() implies #[trigger] json_seq_view(out@)[k] == iv[n - 1 - k] by {
                if k < prev_out.len() {
                    assert(json_seq_view(out@)[k] == json_seq_view(prev_out)[k]);
                } else {
                    assert(json_seq_view(out@)[k] == x@);
                }
            }
        }
    }
    assert(json_seq_view(out@) =~= reversed(iv));
    out
}

fn lower(s: &str) -> (r: String)
    ensures
        r@ == unicode_lowercase(s@),
{
    to_lowercase(s)
}

fn search_id_of(m: &Json) -> (r: &str)
    ensures
        r@ == search_id(m@),
{
    proof {
        reveal_strlit("");
    }
    let v = match m.get("module_id") {
        Some(x) => Some(x),
        None => m.get("id"),
    };
    match v {
        Some(Json::Str(s)) => s.as_str(),
        _ => "",
    }
}

fn bool_member(m: &Json, key: &str) -> (r: Option<bool>)
    ensures
        r == get_bool(m@, key@),
{
    match m.get(key) {
        Some(v) => v.as_bool(),
        None => None,
    }
}

fn keeps(m: &Json, opts: &ListOptions, ef: Option<&ExposureFilter>) -> (r: bool)
    ensures
        r == list_keeps(
            m@,
            list_filter_view(*opts),
            match ef {
                Some(f) => Some(f@),
                None => None,
            },
        ),
{
    let ghost f = list_filter_view(*opts);
    proof {
        reveal_strlit("");
    }
    if opts.tags.len() > 0 && !module_has_all_tags(m, &opts.tags) {
        return false;
    }
    match &opts.search {
        Some(q) => {
            let ql = lower(q.as_str());
            let idl = lower(search_id_of(m));
            let desc: &str = match m.get("description") {
                Some(d) => match d.as_str() {
                    Some(s) => s.as_str(),
                    None => "",
                },
                None => "",
            };
            let dl = lower(desc);
            assert(desc@ == description_of(m@));
            assert(f.search == Some(q@));
            if !(str_contains(idl.as_str(), ql.as_str()) || str_contains(dl.as_str(), ql.as_str())) {
                assert(!contains_sub(unicode_lowercase(search_id(m@)), unicode_lowercase(q@)));
                assert(!contains_sub(unicode_lowercase(description_of(m@)), unicode_lowercase(q@)));
                return false;
            }
        },
        None => {},
    }
    let status: &str = match &opts.status {
        Some(s) => s.as_str(),
        None => "enabled",
    };
    let enabled = bool_member(m, "enabled");
    if str_eq(status, "enabled") {
        if enabled == Some(false) {
            return false;
        }
    } else if str_eq(status, "disabled") {
        if enabled != Some(false) {
            return false;
        }
    }
    if !opts.deprecated && bool_member(m, "deprecated") == Some(true) {
        return false;
    }
    let mut i: usize = 0;
    while i < opts.annotations.len()
        invariant
            0 <= i <= opts.annotations.len(),
            f == list_filter_view(*opts),
            forall|k: int| 0 <= k < i ==> annotation_true(m@, annotation_attr(#[trigger] f.annotations[k])),
        decreases opts.annotations.len() - i,
    {
        let flag = opts.annotations[i].as_str();
        let attr: &str = if str_eq(flag, "requires-approval") {
            "requires_approval"
        } else {
            flag
        };
        let ok = match m.get("annotations") {
            Some(a) => match a.get(attr) {
                Some(v) => v.as_bool() == Some(true),
                None => false,
            },
            None => false,
        };
        assert(f.annotations[i as int] == flag@);
        if !ok {
            return false;
        }
        i = i + 1;
    }
    match ef {
        Some(flt) => {
            let e: &str = match &opts.exposure {
                Some(s) => s.as_str(),
                None => "exposed",
            };
            if str_eq(e, "exposed") {
                flt.is_exposed(search_id_of(m))
            } else if str_eq(e, "hidden") {
                !flt.is_exposed(search_id_of(m))
            } else {
                true
            }
        },
        None => true,
    }
}

/// A sort by usage: `calls`, `errors` or `latency`.
pub open spec fn is_usage_sort(s: Seq<char>) -> bool {
    s == "calls"@ || s == "errors"@ || s == "latency"@
}

/// The note a usage-based sort prints when there are no usage figures.
pub open spec fn sort_note_text(s: Seq<char>) -> Seq<char> {
    "note: no usage data available for --sort "@ + s
        + "; sorted by id. Run some modules first to populate ~/.apcore-cli/audit.jsonl."@
}

/// The note for a usage-based sort. Usage figures are read from the audit
/// log, which this build does not keep, so a `calls`, `errors` or `latency`
/// sort falls back to module-ID order (the order [`list_modules`] gives,
/// reversed on request) and the caller prints this note on stderr; any other
/// sort needs no note.
pub fn sort_fallback_note(sort: Option<&str>) -> (r: Option<String>)
    ensures
        match sort {
            Some(s) => (is_usage_sort(s@) ==> (r matches Some(t) && t@ == sort_note_text(s@)))
                && (!is_usage_sort(s@) ==> r is None),
            None => r is None,
        },
{
    match sort {
        Some(s) => {
            if str_eq(s, "calls") || str_eq(s, "errors") || str_eq(s, "latency") {
                Some(concat3(
                    "note: no usage data available for --sort ",
                    s,
                    "; sorted by id. Run some modules first to populate ~/.apcore-cli/audit.jsonl.",
                ))
            } else {
                None
            }
        },
        None => None,
    }
}

/// The modules the `list` command shows, in order: tags must be
/// well-formed (the first bad one is refused); then the modules passing
/// every filter, sorted by module ID and reversed on request. `ef` is the
/// exposure filter, when exposure filtering is wired in.
pub fn list_modules(modules: Vec<Json>, opts: &ListOptions, ef: Option<&ExposureFilter>) -> (r: Result<
    Vec<Json>,
    DiscoveryError,
>)
    ensures
        match first_bad_tag(strings_view(opts.tags@)) {
            Some(t) => r matches Err(DiscoveryError::InvalidTag(s)) && s@ == t,
            None => r matches Ok(v) && json_seq_view(v@) == listed(
                json_seq_view(modules@),
                list_filter_view(*opts),
                match ef {
                    Some(f) => Some(f@),
                    None => None,
                },
                opts.reverse,
            ),
        },
{
    let ghost tv = strings_view(opts.tags@);
    let mut t: usize = 0;
    assert(tv.skip(0) =~= tv);
    while t < opts.tags.len()
        invariant
            0 <= t <= opts.tags.len(),
            tv == strings_view(opts.tags@),
            first_bad_tag(tv) == first_bad_tag(tv.skip(t as int)),
        decreases opts.tags.len() - t,
    {
        assert(tv.skip(t as int)[0] == opts.tags@[t as int]@);
        assert(tv.skip(t as int).drop_first() == tv.skip(t + 1));
        if !validate_tag(opts.tags[t].as_str()) {
            return Err(DiscoveryError::InvalidTag(opts.tags[t].clone()));
        }
        t = t + 1;
    }
    assert(tv.skip(t as int).len() == 0);
    let ghost efv = match ef {
        Some(f) => Some(f@),
        None => None,
    };
    let ghost fv = list_filter_view(*opts);
    let ghost pred = |m: JsonV| list_keeps(m, fv, efv);
    let ghost mv = json_seq_view(modules@);
    let mut rest = modules;
    let ghost orig = rest@;
    let mut kept: Vec<Json> = Vec::new();
    let n = rest.len();
    let mut i: usize = 0;
    proof {
        reveal(Seq::filter);
        assert(mv.take(0).filter(pred) =~= Seq::<JsonV>::empty());
        assert(json_seq_view(kept@) =~= Seq::<JsonV>::empty());
    }
    while rest.len() > 0
        invariant
            n == orig.len(),
            i + rest.len() == n,
            rest@ == orig.skip(i as int),
            mv == json_seq_view(orig),
            fv == list_filter_view(*opts),
            efv == match ef {
                Some(f) => Some(f@),
                None => None,
            },
            pred == (|m: JsonV| list_keeps(m, fv, efv)),
            json_seq_view(kept@) == mv.take(i as int).filter(pred),
        decreases rest.len(),
    {
        let x = rest.remove(0);
        assert(x == orig[i as int]);
        assert(rest@ =~= orig.skip(i + 1));
        proof {
            assert(mv.take(i + 1) =~= mv.take(i as int).push(x@));
            mv.take(i as int).lemma_filter_push(x@, pred);
        }
        if keeps(&x, opts, ef) {
            let ghost prev = kept@;
            kept.push(x);
            assert(json_seq_view(kept@) =~= json_seq_view(prev).push(kept@[prev.len() as int]@));
        }
        i = i + 1;
    }
    assert(mv.take(n as int) =~= mv);
    let sorted = sort_modules(kept);
    if opts.reverse {
        Ok(reverse_modules(sorted))
    } else {
        Ok(sorted)
    }
}

/// Whether the list shows the Exposure column: only for `--exposure all`.
pub open spec fn shows_exposure_column(exposure: Option<Seq<char>>) -> bool {
    exposure == Some("all"@)
}

/// The exposure filter to annotate rows with: `ef`, when the Exposure
/// column is shown.
pub open spec fn column_filter(
    exposure: Option<Seq<char>>,
    ef: Option<crate::exposure::ExposureFilterV>,
) -> Option<crate::exposure::ExposureFilterV> {
    if shows_exposure_column(exposure) {
        ef
    } else {
        None
    }
}

/// The `list` command: [`list_modules`], rendered by
/// [`crate::output::format_module_list_with_options`] in the resolved
/// format, with a dependency column on `--deps` and an Exposure column for
/// `--exposure all`; tables are fitted to `width` when given. `modules` are
/// the registry's descriptors.
pub fn cmd_list_enhanced(
    modules: Vec<Json>,
    opts: &ListOptions,
    ef: Option<&ExposureFilter>,
    is_tty: bool,
    width: Option<u16>,
) -> (r: Result<String, DiscoveryError>)
    ensures
        match first_bad_tag(strings_view(opts.tags@)) {
            Some(t) => r matches Err(DiscoveryError::InvalidTag(s)) && s@ == t,
            None => r matches Ok(text) && text@ == crate::output::list_text(
                listed(
                    json_seq_view(modules@),
                    list_filter_view(*opts),
                    match ef {
                        Some(f) => Some(f@),
                        None => None,
                    },
                    opts.reverse,
                ),
                crate::output::resolved_format(opt_view(opts.explicit_format), is_tty),
                strings_view(opts.tags@),
                opts.deps,
                column_filter(
                    opt_view(opts.exposure),
                    match ef {
                        Some(f) => Some(f@),
                        None => None,
                    },
                ),
                width,
            ),
        },
{
    let explicit: Option<&str> = match &opts.explicit_format {
        Some(f) => Some(f.as_str()),
        None => None,
    };
    let fmt = crate::output::resolve_format_inner(explicit, is_tty);
    assert(opt_view(opts.explicit_format) == match explicit {
        Some(f) => Some(f@),
        None => None,
    });
    let shown = match list_modules(modules, opts, ef) {
        Ok(v) => v,
        Err(e) => {
            return Err(e);
        },
    };
    let show_col = match &opts.exposure {
        Some(e) => str_eq(e.as_str(), "all"),
        None => false,
    };
    let col: Option<&ExposureFilter> = if show_col {
        ef
    } else {
        None
    };
    let display = crate::output::ListDisplayOptions { show_deps: opts.deps, exposure_filter: col };
    Ok(crate::output::format_module_list_with_options(&shown, fmt, &opts.tags, &display, width))
}

/// [`cmd_list_enhanced`] with only a tag filter and a format.
pub fn cmd_list(
    modules: Vec<Json>,
    tags: Vec<String>,
    explicit_format: Option<String>,
    is_tty: bool,
    width: Option<u16>,
) -> (r: Result<String, DiscoveryError>)
    ensures
        match first_bad_tag(strings_view(tags@)) {
            Some(t) => r matches Err(DiscoveryError::InvalidTag(s)) && s@ == t,
            None => r matches Ok(text) && text@ == crate::output::list_text(
                listed(
                    json_seq_view(modules@),
                    ListFilterV {
                        tags: strings_view(tags@),
                        search: None,
                        status: None,
                        annotations: Seq::empty(),
                        deprecated: false,
                        exposure: None,
                    },
                    None,
                    false,
                ),
                crate::output::resolved_format(opt_view(explicit_format), is_tty),
                strings_view(tags@),
                false,
                None,
                width,
            ),
        },
{
    let mut opts = ListOptions::default();
    opts.tags = tags;
    opts.explicit_format = explicit_format;
    assert(strings_view(opts.annotations@) =~= Seq::<Seq<char>>::empty());
    cmd_list_enhanced(modules, &opts, None, is_tty, width)
}

/// The `describe` command, given the descriptor the registry returned for
/// `module_id` (`None` when it has none): the ID is checked first, then the
/// module must exist, then it is rendered by
/// [`crate::output::format_module_detail`] in the resolved format.
pub fn cmd_describe(module: Option<Json>, module_id: &str, explicit_format: Option<&str>, is_tty: bool) -> (r: Result<
    String,
    DiscoveryError,
>)
    ensures
        !(crate::cli::module_id_check(module_id@) is Valid) ==> (r matches Err(DiscoveryError::InvalidModuleId(s))
            && s@ == module_id@),
        crate::cli::module_id_check(module_id@) is Valid && module is None ==> (r matches Err(
            DiscoveryError::ModuleNotFound(s),
        ) && s@ == module_id@),
        crate::cli::module_id_check(module_id@) is Valid && module is Some ==> ({
            let m = module.unwrap()@;
            let fmt = crate::output::resolved_format(
                match explicit_format {
                    Some(f) => Some(f@),
                    None => None,
                },
                is_tty,
            );
            &&& r is Ok
            &&& (fmt == "markdown"@ || fmt == "skill"@) ==> (r matches Ok(t) && t@
                == crate::output::toolkit_module_text(
                crate::output::scanned_shape(m),
                crate::output::annotations_member(m),
                fmt == "skill"@,
            ))
            &&& fmt == "table"@ ==> (r matches Ok(t) && t@ == crate::text::join_with(
                crate::output::detail_parts(m),
                "\n"@,
            ))
            &&& !(fmt == "table"@ || fmt == "markdown"@ || fmt == "skill"@) ==> (r matches Ok(t)
                && t@ == crate::json::pretty_text(JsonV::Object(crate::output::detail_json(m))))
        }),
{
    match describe_precheck(module_id) {
        Ok(()) => {},
        Err(e) => {
            return Err(e);
        },
    }
    match module {
        Some(m) => {
            let fmt = crate::output::resolve_format_inner(explicit_format, is_tty);
            Ok(crate::output::format_module_detail(&m, fmt))
        },
        None => Err(DiscoveryError::ModuleNotFound(owned(module_id))),
    }
}

/// The check `describe` makes before looking a module up: the ID must be
/// valid (see [`crate::cli::validate_module_id`]).
pub fn describe_precheck(module_id: &str) -> (r: Result<(), DiscoveryError>)
    ensures
        match crate::cli::module_id_check(module_id@) {
            crate::cli::ModuleIdCheck::Valid => r is Ok,
            _ => r matches Err(DiscoveryError::InvalidModuleId(s)) && s@ == module_id@,
        },
{
    match crate::cli::validate_module_id(module_id) {
        Ok(()) => Ok(()),
        Err(_) => Err(DiscoveryError::InvalidModuleId(owned(module_id))),
    }
}

// ---------------------------------------------------------------------------
// Laws
// ---------------------------------------------------------------------------

/// Sorting keeps the number of modules.
pub proof fn lemma_sort_len(s: Seq<JsonV>)
    ensures
        sort_by_key(s).len() == s.len(),
    decreases s.len(),
{
    if s.len() > 0 {
        lemma_sort_len(s.drop_last());
        lemma_insert_len(sort_by_key(s.drop_last()), s.last());
    }
}

proof fn lemma_insert_len(s: Seq<JsonV>, x: JsonV)
    ensures
        insert_by_key(s, x).len() == s.len() + 1,
    decreases s.len(),
{
    if s.len() > 0 {
        lemma_insert_len(s.drop_last(), x);
    }
}

/// Every module the list shows passed the filters.
pub proof fn lemma_listed_pass_filters(
    ms: Seq<JsonV>,
    f: ListFilterV,
    ef: Option<crate::exposure::ExposureFilterV>,
    m: JsonV,
)
    requires
        ms.filter(|x: JsonV| list_keeps(x, f, ef)).contains(m),
    ensures
        list_keeps(m, f, ef),
{
    let pred = |x: JsonV| list_keeps(x, f, ef);
    let k = choose|k: int| 0 <= k < ms.filter(pred).len() && ms.filter(pred)[k] == m;
    ms.lemma_filter_pred(pred, k);
}

proof fn lemma_insert_contains(s: Seq<JsonV>, x: JsonV, y: JsonV)
    ensures
        insert_by_key(s, x).contains(y) <==> (s.contains(y) || y == x),
    decreases s.len(),
{
    if s.len() == 0 {
        assert(insert_by_key(s, x) == seq![x]);
        assert(seq![x][0] == x);
    } else {
        let d = s.drop_last();
        assert(s == d.push(s.last()));
        if seq_le(sort_key(s.last()), sort_key(x)) {
            assert(insert_by_key(s, x) == s.push(x));
            assert(s.push(x)[s.len() as int] == x);
            if s.push(x).contains(y) && y != x {
                let i = choose|i: int| 0 <= i < s.push(x).len() && s.push(x)[i] == y;
                assert(s[i] == y);
            }
            if s.contains(y) {
                let i = choose|i: int| 0 <= i < s.len() && s[i] == y;
                assert(s.push(x)[i] == y);
            }
        } else {
            lemma_insert_contains(d, x, y);
            let t = insert_by_key(d, x);
            assert(insert_by_key(s, x) == t.push(s.last()));
            assert(t.push(s.last())[t.len() as int] == s.last());
            if t.push(s.last()).contains(y) && y != s.last() {
                let i = choose|i: int| 0 <= i < t.push(s.last()).len() && t.push(s.last())[i] == y;
                assert(t[i] == y);
            }
            if t.contains(y) {
                let i = choose|i: int| 0 <= i < t.len() && t[i] == y;
                assert(t.push(s.last())[i] == y);
            }
            if d.contains(y) {
                let i = choose|i: int| 0 <= i < d.len() && d[i] == y;
                assert(s[i] == y);
            }
            if s.contains(y) && y != s.last() {
                let i = choose|i: int| 0 <= i < s.len() && s[i] == y;
                assert(d[i] == y);
            }
            assert(s[s.len() - 1] == s.last());
        }
    }
}

proof fn lemma_sort_contains(s: Seq<JsonV>, y: JsonV)
    ensures
        sort_by_key(s).contains(y) <==> s.contains(y),
    decreases s.len(),
{
    if s.len() > 0 {
        let d = s.drop_last();
        lemma_sort_contains(d, y);
        lemma_insert_contains(sort_by_key(d), s.last(), y);
        if d.contains(y) {
            let i = choose|i: int| 0 <= i < d.len() && d[i] == y;
            assert(s[i] == y);
        }
        if s.contains(y) && y != s.last() {
            let i = choose|i: int| 0 <= i < s.len() && s[i] == y;
            assert(d[i] == y);
        }
        assert(s[s.len() - 1] == s.last());
    }
}

proof fn lemma_reversed_contains(s: Seq<JsonV>, y: JsonV)
    ensures
        reversed(s).contains(y) <==> s.contains(y),
{
    let r = reversed(s);
    if r.contains(y) {
        let i = choose|i: int| 0 <= i < r.len() && r[i] == y;
        assert(s[s.len() - 1 - i] == y);
    }
    if s.contains(y) {
        let i = choose|i: int| 0 <= i < s.len() && s[i] == y;
        assert(r[s.len() - 1 - i] == y);
    }
}

proof fn lemma_listed_contains(
    ms: Seq<JsonV>,
    f: ListFilterV,
    ef: Option<crate::exposure::ExposureFilterV>,
    reverse: bool,
    m: JsonV,
)
    ensures
        listed(ms, f, ef, reverse).contains(m) <==> (ms.contains(m) && list_keeps(m, f, ef)),
{
    let pred = |x: JsonV| list_keeps(x, f, ef);
    let kept = ms.filter(pred);
    lemma_sort_contains(kept, m);
    lemma_reversed_contains(sort_by_key(kept), m);
    if kept.contains(m) {
        ms.lemma_filter_contains_rev(pred, m);
        let k = choose|k: int| 0 <= k < kept.len() && kept[k] == m;
        ms.lemma_filter_pred(pred, k);
    }
    if ms.contains(m) && list_keeps(m, f, ef) {
        let i = choose|i: int| 0 <= i < ms.len() && ms[i] == m;
        ms.lemma_filter_contains(pred, i);
    }
}

/// A search narrows the list to the modules whose ID or description contains
/// the query, ignoring case: with the other filters unchanged, a module is
/// listed under search `q` exactly when it is listed without a search and the
/// lower-cased `q` occurs in its lower-cased ID or lower-cased description.
pub proof fn lemma_search_matches_id_or_description(
    ms: Seq<JsonV>,
    f: ListFilterV,
    ef: Option<crate::exposure::ExposureFilterV>,
    reverse: bool,
    q: Seq<char>,
    m: JsonV,
)
    requires
        f.search is None,
    ensures
        listed(
            ms,
            ListFilterV {
                tags: f.tags,
                search: Some(q),
                status: f.status,
                annotations: f.annotations,
                deprecated: f.deprecated,
                exposure: f.exposure,
            },
            ef,
            reverse,
        ).contains(m) <==> (listed(ms, f, ef, reverse).contains(m) && (contains_sub(
            unicode_lowercase(search_id(m)),
            unicode_lowercase(q),
        ) || contains_sub(unicode_lowercase(description_of(m)), unicode_lowercase(q)))),
{
    let fq = ListFilterV {
        tags: f.tags,
        search: Some(q),
        status: f.status,
        annotations: f.annotations,
        deprecated: f.deprecated,
        exposure: f.exposure,
    };
    lemma_listed_contains(ms, fq, ef, reverse, m);
    lemma_listed_contains(ms, f, ef, reverse, m);
}

/// The tag filter keeps exactly the modules that carry every requested tag:
/// with the other filters unchanged, a module is listed under tags `ts` (at
/// least one) exactly when it is listed without a tag filter and each of `ts`
/// is among the strings of its `tags` array.
pub proof fn lemma_tag_filter_requires_every_tag(
    ms: Seq<JsonV>,
    f: ListFilterV,
    ef: Option<crate::exposure::ExposureFilterV>,
    reverse: bool,
    ts: Seq<Seq<char>>,
    m: JsonV,
)
    requires
        f.tags.len() == 0,
        ts.len() > 0,
    ensures
        listed(
            ms,
            ListFilterV {
                tags: ts,
                search: f.search,
                status: f.status,
                annotations: f.annotations,
                deprecated: f.deprecated,
                exposure: f.exposure,
            },
            ef,
            reverse,
        ).contains(m) <==> (listed(ms, f, ef, reverse).contains(m) && forall|i: int|
            0 <= i < ts.len() ==> module_tags(m).contains(#[trigger] ts[i])),
{
    let ft = ListFilterV {
        tags: ts,
        search: f.search,
        status: f.status,
        annotations: f.annotations,
        deprecated: f.deprecated,
        exposure: f.exposure,
    };
    lemma_listed_contains(ms, ft, ef, reverse, m);
    lemma_listed_contains(ms, f, ef, reverse, m);
    assert(list_keeps(m, ft, ef) <==> (list_keeps(m, f, ef) && has_all_tags(m, ts)));
}

/// Deprecated modules are hidden unless asked for: without `--deprecated` a
/// module is listed exactly when it is listed with it and its `deprecated`
/// member is not `true`.
pub proof fn lemma_deprecated_hidden_by_default(
    ms: Seq<JsonV>,
    f: ListFilterV,
    ef: Option<crate::exposure::ExposureFilterV>,
    reverse: bool,
    m: JsonV,
)
    requires
        f.deprecated,
    ensures
        listed(
            ms,
            ListFilterV {
                tags: f.tags,
                search: f.search,
                status: f.status,
                annotations: f.annotations,
                deprecated: false,
                exposure: f.exposure,
            },
            ef,
            reverse,
        ).contains(m) <==> (listed(ms, f, ef, reverse).contains(m) && m.get("deprecated"@) != Some(
            JsonV::Bool(true),
        )),
{
    let fd = ListFilterV {
        tags: f.tags,
        search: f.search,
        status: f.status,
        annotations: f.annotations,
        deprecated: false,
        exposure: f.exposure,
    };
    lemma_listed_contains(ms, fd, ef, reverse, m);
    lemma_listed_contains(ms, f, ef, reverse, m);
}

/// The status filter: by default (and with `enabled`) a module is listed
/// exactly when it is listed under `all` and its `enabled` member is not
/// `false`; under `disabled`, exactly when it is listed under `all` and its
/// `enabled` member is `false`.
#[verifier::rlimit(40)]
pub proof fn lemma_status_filter(
    ms: Seq<JsonV>,
    f: ListFilterV,
    ef: Option<crate::exposure::ExposureFilterV>,
    reverse: bool,
    m: JsonV,
)
    requires
        f.status == Some("all"@),
    ensures
        listed(
            ms,
            ListFilterV {
                tags: f.tags,
                search: f.search,
                status: None,
                annotations: f.annotations,
                deprecated: f.deprecated,
                exposure: f.exposure,
            },
            ef,
            reverse,
        ).contains(m) <==> (listed(ms, f, ef, reverse).contains(m) && m.get("enabled"@) != Some(
            JsonV::Bool(false),
        )),
        listed(
            ms,
            ListFilterV {
                tags: f.tags,
                search: f.search,
                status: Some("disabled"@),
                annotations: f.annotations,
                deprecated: f.deprecated,
                exposure: f.exposure,
            },
            ef,
            reverse,
        ).contains(m) <==> (listed(ms, f, ef, reverse).contains(m) && m.get("enabled"@) == Some(
            JsonV::Bool(false),
        )),
{
    let fe = ListFilterV {
        tags: f.tags,
        search: f.search,
        status: None,
        annotations: f.annotations,
        deprecated: f.deprecated,
        exposure: f.exposure,
    };
    let fdis = ListFilterV {
        tags: f.tags,
        search: f.search,
        status: Some("disabled"@),
        annotations: f.annotations,
        deprecated: f.deprecated,
        exposure: f.exposure,
    };
    reveal_strlit("all");
    reveal_strlit("enabled");
    reveal_strlit("disabled");
    assert("all"@ != "enabled"@ && "all"@ != "disabled"@ && "disabled"@ != "enabled"@) by {
        assert("all"@.len() == 3 && "enabled"@.len() == 7 && "disabled"@.len() == 8);
    }
    lemma_listed_contains(ms, fe, ef, reverse, m);
    lemma_listed_contains(ms, fdis, ef, reverse, m);
    lemma_listed_contains(ms, f, ef, reverse, m);
    assert(get_bool(m, "enabled"@) == Some(false) <==> m.get("enabled"@) == Some(JsonV::Bool(false)));
    assert(list_keeps(m, fe, ef) <==> (list_keeps(m, f, ef) && get_bool(m, "enabled"@) != Some(false)));
    assert(("disabled"@ == "enabled"@) == false);
    assert(("all"@ == "enabled"@) == false);
    assert(("all"@ == "disabled"@) == false);
    assert(list_keeps(m, fdis, ef) ==> get_bool(m, "enabled"@) == Some(false));
    if list_keeps(m, fdis, ef) {
        assert forall|i: int| 0 <= i < f.annotations.len() implies annotation_true(
            m,
            annotation_attr(#[trigger] f.annotations[i]),
        ) by {
            assert(fdis.annotations[i] == f.annotations[i]);
        }
    }
    assert(list_keeps(m, fdis, ef) ==> list_keeps(m, f, ef));
    assert((list_keeps(m, f, ef) && get_bool(m, "enabled"@) == Some(false)) ==> list_keeps(m, fdis, ef));
}

/// The annotation filter keeps the modules whose `annotations` object has
/// every requested flag set to `true` (`requires-approval` naming the
/// `requires_approval` member).
#[verifier::rlimit(40)]
pub proof fn lemma_annotation_filter(
    ms: Seq<JsonV>,
    f: ListFilterV,
    ef: Option<crate::exposure::ExposureFilterV>,
    reverse: bool,
    anns: Seq<Seq<char>>,
    m: JsonV,
)
    requires
        f.annotations.len() == 0,
    ensures
        listed(
            ms,
            ListFilterV {
                tags: f.tags,
                search: f.search,
                status: f.status,
                annotations: anns,
                deprecated: f.deprecated,
                exposure: f.exposure,
            },
            ef,
            reverse,
        ).contains(m) <==> (listed(ms, f, ef, reverse).contains(m) && forall|i: int|
            0 <= i < anns.len() ==> (m.get("annotations"@) matches Some(a) && a.get(
                if #[trigger] anns[i] == "requires-approval"@ {
                    "requires_approval"@
                } else {
                    anns[i]
                },
            ) == Some(JsonV::Bool(true)))),
{
    let fa = ListFilterV {
        tags: f.tags,
        search: f.search,
        status: f.status,
        annotations: anns,
        deprecated: f.deprecated,
        exposure: f.exposure,
    };
    lemma_listed_contains(ms, fa, ef, reverse, m);
    lemma_listed_contains(ms, f, ef, reverse, m);
    assert forall|i: int| 0 <= i < anns.len() implies (annotation_true(m, annotation_attr(#[trigger] anns[i]))
        <==> (m.get("annotations"@) matches Some(a) && a.get(
        if anns[i] == "requires-approval"@ {
            "requires_approval"@
        } else {
            anns[i]
        },
    ) == Some(JsonV::Bool(true)))) by {
        if let Some(a) = m.get("annotations"@) {
            let attr = annotation_attr(anns[i]);
            assert(get_bool(a, attr) == Some(true) <==> a.get(attr) == Some(JsonV::Bool(true)));
        }
    }
    if list_keeps(m, fa, ef) {
        assert forall|i: int| 0 <= i < f.annotations.len() implies annotation_true(
            m,
            annotation_attr(#[trigger] f.annotations[i]),
        ) by {}
        assert forall|i: int| 0 <= i < anns.len() implies annotation_true(
            m,
            annotation_attr(#[trigger] anns[i]),
        ) by {
            assert(fa.annotations[i] == anns[i]);
        }
    }
    if list_keeps(m, f, ef) && forall|i: int| 0 <= i < anns.len() ==> annotation_true(m, annotation_attr(#[trigger] anns[i])) {
        assert forall|i: int| 0 <= i < fa.annotations.len() implies annotation_true(
            m,
            annotation_attr(#[trigger] fa.annotations[i]),
        ) by {
            assert(fa.annotations[i] == anns[i]);
        }
    }
    assert(list_keeps(m, fa, ef) <==> (list_keeps(m, f, ef) && forall|i: int|
        0 <= i < anns.len() ==> annotation_true(m, annotation_attr(#[trigger] anns[i]))));
}

/// Each module's ID key is not greater, in string order, than the next one's.
pub open spec fn key_sorted(s: Seq<JsonV>) -> bool {
    forall|i: int| #![trigger s[i]] 0 <= i < s.len() - 1 ==> seq_le(sort_key(s[i]), sort_key(s[i + 1]))
}

proof fn lemma_seq_le_total(a: Seq<char>, b: Seq<char>)
    ensures
        seq_le(a, b) || seq_le(b, a),
    decreases a.len(),
{
    if a.len() > 0 && b.len() > 0 {
        if a[0] == b[0] {
            lemma_seq_le_total(a.drop_first(), b.drop_first());
        } else {
            if (a[0] as u32) == (b[0] as u32) {
                vstd::utf8::char_u32_cast(a[0], a[0] as u32);
                vstd::utf8::char_u32_cast(b[0], a[0] as u32);
            }
        }
    }
}

proof fn lemma_insert_ends(s: Seq<JsonV>, x: JsonV)
    requires
        s.len() > 0,
    ensures
        insert_by_key(s, x).last() == x || insert_by_key(s, x).last() == s.last(),
        insert_by_key(s, x).len() == s.len() + 1,
{
    lemma_insert_len(s, x);
}

proof fn lemma_insert_sorted(s: Seq<JsonV>, x: JsonV)
    requires
        key_sorted(s),
    ensures
        key_sorted(insert_by_key(s, x)),
    decreases s.len(),
{
    lemma_insert_len(s, x);
    if s.len() == 0 {
    } else if seq_le(sort_key(s.last()), sort_key(x)) {
        let t = s.push(x);
        assert forall|i: int| #![trigger t[i]] 0 <= i < t.len() - 1 implies seq_le(sort_key(t[i]), sort_key(t[i + 1])) by {
            if i < s.len() - 1 {
                assert(t[i] == s[i] && t[i + 1] == s[i + 1]);
            } else {
                assert(t[i] == s.last() && t[i + 1] == x);
            }
        }
    } else {
        let d = s.drop_last();
        assert(key_sorted(d)) by {
            assert forall|i: int| #![trigger d[i]] 0 <= i < d.len() - 1 implies seq_le(sort_key(d[i]), sort_key(d[i + 1])) by {
                assert(d[i] == s[i] && d[i + 1] == s[i + 1]);
            }
        }
        lemma_insert_sorted(d, x);
        lemma_insert_len(d, x);
        let u = insert_by_key(d, x);
        let t = u.push(s.last());
        lemma_seq_le_total(sort_key(s.last()), sort_key(x));
        if d.len() > 0 {
            lemma_insert_ends(d, x);
            assert(s[d.len() - 1] == d.last());
            assert(seq_le(sort_key(s[d.len() - 1]), sort_key(s[d.len() as int])));
            assert(s[d.len() as int] == s.last());
        } else {
            assert(u == seq![x]);
            assert(u.last() == x);
        }
        assert(seq_le(sort_key(u.last()), sort_key(s.last())));
        assert forall|i: int| #![trigger t[i]] 0 <= i < t.len() - 1 implies seq_le(sort_key(t[i]), sort_key(t[i + 1])) by {
            if i < u.len() - 1 {
                assert(t[i] == u[i] && t[i + 1] == u[i + 1]);
            } else {
                assert(t[i] == u.last() && t[i + 1] == s.last());
            }
        }
    }
}

proof fn lemma_sort_sorted(s: Seq<JsonV>)
    ensures
        key_sorted(sort_by_key(s)),
    decreases s.len(),
{
    if s.len() > 0 {
        lemma_sort_sorted(s.drop_last());
        lemma_insert_sorted(sort_by_key(s.drop_last()), s.last());
    }
}

/// The list shows exactly the modules that pass every filter, in module-ID
/// order: ascending (each ID not greater, in string order, than the next),
/// and the reverse of that order when `reverse` is set.
pub proof fn lemma_list_order_and_members(
    ms: Seq<JsonV>,
    f: ListFilterV,
    ef: Option<crate::exposure::ExposureFilterV>,
    m: JsonV,
)
    ensures
        listed(ms, f, ef, false).contains(m) <==> (ms.contains(m) && list_keeps(m, f, ef)),
        key_sorted(listed(ms, f, ef, false)),
        listed(ms, f, ef, true).len() == listed(ms, f, ef, false).len(),
        forall|i: int| #![trigger listed(ms, f, ef, true)[i]]
            0 <= i < listed(ms, f, ef, false).len() ==> listed(ms, f, ef, true)[i] == listed(ms, f, ef, false)[listed(
                ms,
                f,
                ef,
                false,
            ).len() - 1 - i],
{
    lemma_listed_contains(ms, f, ef, false, m);
    lemma_sort_sorted(ms.filter(|x: JsonV| list_keeps(x, f, ef)));
}

} // verus!
