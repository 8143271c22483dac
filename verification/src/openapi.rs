//! OpenAPI import support: `--header` parsing, load-error classification,
//! query-parameter hazards of proxied body methods, and binding file names.
use vstd::prelude::*;
use crate::json::{Json, JsonV, get_str, json_seq_view, entries_view, lemma_object_view, lemma_array_view};
use crate::text::{
    owned, concat2, concat3, chars_of, string_from_chars, push_str, push_char, trim_chars, trim_seq,
    str_eq, is_ascii_alnum, char_is_ascii_alnum, pair_get, pair_set, str_pairs_view, find_str_pair,
    set_str_pair, usize_to_string, decimal,
};

use crate::text::{copy_strings, strings_view, opt_view};

verus! {

// ---------------------------------------------------------------------------
// Errors
// ---------------------------------------------------------------------------

/// Failure loading an OpenAPI document (every variant exits 47).
#[derive(Debug)]
pub enum OpenApiSourceError {
    /// The source could not be read or fetched.
    Unreadable { source_name: String, detail: String },
    /// The document was retrieved but is neither JSON nor YAML.
    Unparseable { source_name: String, detail: String },
}

impl OpenApiSourceError {
    /// Every load failure is a configuration fault.
    pub fn exit_code(&self) -> (r: i32)
        ensures
            r == crate::EXIT_CONFIG_NOT_FOUND,
    {
        crate::EXIT_CONFIG_NOT_FOUND
    }

    /// The error's message.
    pub fn message(&self) -> (r: String)
        ensures
            r@ == match self {
                OpenApiSourceError::Unreadable { source_name, detail } =>
                    "Cannot read OpenAPI source '"@ + source_name@ + "': "@ + detail@,
                OpenApiSourceError::Unparseable { source_name, detail } =>
                    "Cannot parse OpenAPI source '"@ + source_name@ + "': "@ + detail@,
            },
    {
        match self {
            OpenApiSourceError::Unreadable { source_name, detail } => {
                let mut r = concat3("Cannot read OpenAPI source '", source_name.as_str(), "': ");
                push_str(&mut r, detail.as_str());
                r
            },
            OpenApiSourceError::Unparseable { source_name, detail } => {
                let mut r = concat3("Cannot parse OpenAPI source '", source_name.as_str(), "': ");
                push_str(&mut r, detail.as_str());
                r
            },
        }
    }
}

/// How the document loader failed, as plain values.
pub enum LoadFailure {
    /// Reading the local file failed (the I/O error's text).
    Io(String),
    /// The HTTP fetch failed: the response status when there was one, else
    /// the error's text.
    Http { status: Option<u16>, text: String },
    /// The document is not valid JSON (the parser's message).
    Json(String),
    /// The document is not valid YAML (the parser's message).
    Yaml(String),
}

/// Classify a loader failure for `source`: read and fetch failures are
/// `Unreadable` (an HTTP status is reported as `HTTP <code>`), parse
/// failures `Unparseable`.
pub fn map_load_error(source: &str, err: LoadFailure) -> (r: OpenApiSourceError)
    ensures
        match err {
            LoadFailure::Io(t) => r matches OpenApiSourceError::Unreadable { source_name, detail }
                && source_name@ == source@ && detail@ == t@,
            LoadFailure::Http { status, text } => r matches OpenApiSourceError::Unreadable {
                source_name,
                detail,
            } && source_name@ == source@ && detail@ == match status {
                Some(c) => "HTTP "@ + decimal(c as nat),
                None => text@,
            },
            LoadFailure::Json(t) => r matches OpenApiSourceError::Unparseable {
                source_name,
                detail,
            } && source_name@ == source@ && detail@ == t@,
            LoadFailure::Yaml(t) => r matches OpenApiSourceError::Unparseable {
                source_name,
                detail,
            } && source_name@ == source@ && detail@ == t@,
        },
{
    match err {
        LoadFailure::Io(t) => OpenApiSourceError::Unreadable { source_name: owned(source), detail: t },
        LoadFailure::Http { status, text } => {
            let detail = match status {
                Some(c) => concat2("HTTP ", usize_to_string(c as usize).as_str()),
                None => text,
            };
            OpenApiSourceError::Unreadable { source_name: owned(source), detail }
        },
        LoadFailure::Json(t) => OpenApiSourceError::Unparseable { source_name: owned(source), detail: t },
        LoadFailure::Yaml(t) => OpenApiSourceError::Unparseable { source_name: owned(source), detail: t },
    }
}

// ---------------------------------------------------------------------------
// Header parsing
// ---------------------------------------------------------------------------

/// A malformed `--header` value.
#[derive(Debug)]
pub struct HeaderParseError(pub String);

impl HeaderParseError {
    pub fn message(&self) -> (r: String)
        ensures
            r@ == "Invalid --header value '"@ + self.0@ + "': expected \"Key: Value\"."@,
    {
        concat3("Invalid --header value '", self.0.as_str(), "': expected \"Key: Value\".")
    }
}

/// Parsed request headers (name → value; a repeated name keeps the last
/// value).
#[derive(Debug)]
pub struct Headers {
    entries: Vec<(String, String)>,
}

impl View for Headers {
    type V = Seq<(Seq<char>, Seq<char>)>;

    closed spec fn view(&self) -> Seq<(Seq<char>, Seq<char>)> {
        str_pairs_view(self.entries@)
    }
}

impl Headers {
    /// The value stored under `name`.
    pub fn get(&self, name: &str) -> (r: Option<&String>)
        ensures
            match r {
                Some(v) => pair_get(self@, name@) == Some(v@),
                None => pair_get(self@, name@) is None,
            },
    {
        proof {
            crate::text::lemma_first_index(str_pairs_view(self.entries@), name@);
        }
        match find_str_pair(&self.entries, name) {
            Some(i) => Some(&self.entries[i].1),
            None => None,
        }
    }

    /// The number of distinct header names.
    pub fn len(&self) -> (r: usize)
        ensures
            r == self@.len(),
    {
        self.entries.len()
    }

    pub fn is_empty(&self) -> (r: bool)
        ensures
            r == (self@.len() == 0),
    {
        self.entries.len() == 0
    }

    /// The entries, in first-insertion order.
    pub fn entries(&self) -> (r: &Vec<(String, String)>)
        ensures
            str_pairs_view(r@) == self@,
    {
        &self.entries
    }
}

/// The index of the first `:` in `s`.
pub open spec fn first_colon(s: Seq<char>) -> Option<int>
    decreases s.len(),
{
    if s.len() == 0 {
        None
    } else if s[0] == ':' {
        Some(0)
    } else {
        match first_colon(s.drop_first()) {
            Some(i) => Some(i + 1),
            None => None,
        }
    }
}

/// A `Key: Value` header split on its first colon and trimmed; `None` when
/// there is no colon or the name is blank.
pub open spec fn header_parts(raw: Seq<char>) -> Option<(Seq<char>, Seq<char>)> {
    match first_colon(raw) {
        None => None,
        Some(i) => {
            let name = trim_seq(raw.take(i));
            if name.len() == 0 {
                None
            } else {
                Some((name, trim_seq(raw.skip(i + 1))))
            }
        },
    }
}

/// The headers `raws` give, or the first malformed one.
pub open spec fn headers_spec(raws: Seq<Seq<char>>) -> Result<Seq<(Seq<char>, Seq<char>)>, Seq<char>>
    decreases raws.len(),
{
    if raws.len() == 0 {
        Ok(Seq::empty())
    } else {
        match headers_spec(raws.drop_last()) {
            Err(e) => Err(e),
            Ok(acc) => match header_parts(raws.last()) {
                None => Err(raws.last()),
                Some((n, v)) => Ok(pair_set(acc, n, v)),
            },
        }
    }
}

proof fn lemma_first_colon(s: Seq<char>)
    ensures
        match first_colon(s) {
            Some(i) => 0 <= i < s.len() && s[i] == ':' && forall|j: int| 0 <= j < i ==> s[j] != ':',
            None => forall|j: int| 0 <= j < s.len() ==> s[j] != ':',
        },
    decreases s.len(),
{
    if s.len() > 0 {
        lemma_first_colon(s.drop_first());
        assert forall|j: int| 1 <= j < s.len() implies s[j] == s.drop_first()[j - 1] by {}
    }
}

fn split_header(raw: &String) -> (r: Option<(String, String)>)
    ensures
        match r {
            Some((n, v)) => header_parts(raw@) == Some((n@, v@)),
            None => header_parts(raw@) is None,
        },
{
    let cs = chars_of(raw.as_str());
    proof {
        lemma_first_colon(raw@);
    }
    let mut i: usize = 0;
    while i < cs.len() && cs[i] != ':'
        invariant
            cs@ == raw@,
            0 <= i <= cs.len(),
            forall|j: int| 0 <= j < i ==> cs@[j] != ':',
        decreases cs.len() - i,
    {
        i = i + 1;
    }
    if i == cs.len() {
        return None;
    }
    assert(first_colon(raw@) == Some(i as int));
    let mut name_cs: Vec<char> = Vec::new();
    let mut k: usize = 0;
    while k < i
        invariant
            0 <= k <= i < cs.len(),
            name_cs@ == cs@.take(k as int),
        decreases i - k,
    {
        name_cs.push(cs[k]);
        k = k + 1;
        assert(name_cs@ =~= cs@.take(k as int));
    }
    let mut value_cs: Vec<char> = Vec::new();
    let mut m: usize = i + 1;
    assert(value_cs@ =~= cs@.subrange(i + 1, m as int));
    while m < cs.len()
        invariant
            i < cs.len(),
            i + 1 <= m <= cs.len(),
            value_cs@ == cs@.subrange(i + 1, m as int),
        decreases cs.len() - m,
    {
        value_cs.push(cs[m]);
        m = m + 1;
        assert(value_cs@ =~= cs@.subrange(i + 1, m as int));
    }
    assert(cs@.subrange(i + 1, cs.len() as int) =~= raw@.skip(i + 1));
    let name = trim_chars(&name_cs);
    if name.len() == 0 {
        return None;
    }
    let value = trim_chars(&value_cs);
    Some((string_from_chars(&name), string_from_chars(&value)))
}

/// Parse repeated `--header "Key: Value"` values, splitting on the first
/// colon so values may contain colons.
pub fn parse_headers(headers: &[String]) -> (r: Result<Headers, HeaderParseError>)
    ensures
        match r {
            Ok(h) => headers_spec(headers@.map_values(|s: String| s@)) == Ok::<
                Seq<(Seq<char>, Seq<char>)>,
                Seq<char>,
            >(h@),
            Err(HeaderParseError(s)) => headers_spec(headers@.map_values(|s: String| s@)) == Err::<
                Seq<(Seq<char>, Seq<char>)>,
                Seq<char>,
            >(s@),
        },
{
    let ghost rv = headers@.map_values(|s: String| s@);
    let mut out: Vec<(String, String)> = Vec::new();
    let mut i: usize = 0;
    assert(rv.take(0) =~= Seq::<Seq<char>>::empty());
    assert(str_pairs_view(out@) =~= Seq::<(Seq<char>, Seq<char>)>::empty());
    while i < headers.len()
        invariant
            0 <= i <= headers.len(),
            rv == headers@.map_values(|s: String| s@),
            headers_spec(rv.take(i as int)) == Ok::<Seq<(Seq<char>, Seq<char>)>, Seq<char>>(
                str_pairs_view(out@),
            ),
        decreases headers.len() - i,
    {
        assert(rv.take(i + 1).drop_last() == rv.take(i as int));
        assert(rv.take(i + 1).last() == headers@[i as int]@);
        match split_header(&headers[i]) {
            None => {
                proof {
                    lemma_headers_err_extends(rv, i + 1);
                }
                return Err(HeaderParseError(headers[i].clone()));
            },
            Some((n, v)) => {
                set_str_pair(&mut out, n, v);
            },
        }
        i = i + 1;
    }
    assert(rv.take(headers.len() as int) == rv);
    Ok(Headers { entries: out })
}

proof fn lemma_headers_err_extends(s: Seq<Seq<char>>, n: int)
    requires
        0 <= n <= s.len(),
        headers_spec(s.take(n)) is Err,
    ensures
        headers_spec(s) == headers_spec(s.take(n)),
    decreases s.len() - n,
{
    if n < s.len() {
        assert(s.take(n + 1).drop_last() == s.take(n));
        lemma_headers_err_extends(s, n + 1);
    } else {
        assert(s.take(n) == s);
    }
}

// ---------------------------------------------------------------------------
// Hazards
// ---------------------------------------------------------------------------

/// One operation whose query parameters a proxy writer would misroute.
#[derive(Debug, PartialEq, Eq)]
pub struct Hazard {
    pub module_id: String,
    /// Uppercase HTTP method.
    pub http_method: String,
    /// The path template, braces retained.
    pub url_path: String,
    /// The `in: query` parameter names.
    pub parameters: Vec<String>,
}

pub open spec fn join_comma(items: Seq<Seq<char>>) -> Seq<char>
    decreases items.len(),
{
    if items.len() == 0 {
        Seq::empty()
    } else if items.len() == 1 {
        items[0]
    } else {
        join_comma(items.drop_last()) + ", "@ + items.last()
    }
}

/// `POST with 2 'in: query' parameters: a, b`.
pub open spec fn summary_text(h: HazardV) -> Seq<char> {
    h.http_method + " with "@ + decimal(h.parameters.len()) + " 'in: query' "@ + (if h.parameters.len()
        == 1 {
        "parameter"@
    } else {
        "parameters"@
    }) + ": "@ + join_comma(h.parameters)
}

/// The JSON form of a hazard, as listed under a scan's `hazards` key.
pub open spec fn hazard_json(h: HazardV) -> JsonV {
    JsonV::Object(
        seq![
            ("module_id"@, JsonV::Str(h.module_id)),
            ("http_method"@, JsonV::Str(h.http_method)),
            ("url_path"@, JsonV::Str(h.url_path)),
            ("parameters"@, JsonV::Array(h.parameters.map_values(|p: Seq<char>| JsonV::Str(p)))),
        ],
    )
}

impl Hazard {
    /// One-line summary: `POST with 2 'in: query' parameters: a, b`.
    pub fn summary(&self) -> (r: String)
        ensures
            r@ == summary_text(hazard_view(*self)),
    {
        let mut r = self.http_method.clone();
        push_str(&mut r, " with ");
        push_str(&mut r, usize_to_string(self.parameters.len()).as_str());
        push_str(&mut r, " 'in: query' ");
        if self.parameters.len() == 1 {
            push_str(&mut r, "parameter");
        } else {
            push_str(&mut r, "parameters");
        }
        push_str(&mut r, ": ");
        let ghost head = r@;
        let ghost pv = strings_view(self.parameters@);
        let mut i: usize = 0;
        assert(join_comma(pv.take(0)) =~= Seq::<char>::empty());
        while i < self.parameters.len()
            invariant
                0 <= i <= self.parameters.len(),
                pv == strings_view(self.parameters@),
                r@ == head + join_comma(pv.take(i as int)),
            decreases self.parameters.len() - i,
        {
            assert(pv.take(i + 1).drop_last() == pv.take(i as int));
            assert(pv.take(i + 1).last() == self.parameters@[i as int]@);
            if i > 0 {
                push_str(&mut r, ", ");
            }
            push_str(&mut r, self.parameters[i].as_str());
            proof {
                if i == 0 {
                    assert(pv.take(1).len() == 1);
                }
            }
            i = i + 1;
        }
        assert(pv.take(self.parameters.len() as int) == pv);
        r
    }
}

impl Hazard {
    /// The JSON form: `module_id`, `http_method`, `url_path` and
    /// `parameters`, in that order.
    pub fn to_json(&self) -> (r: Json)
        ensures
            r@ == hazard_json(hazard_view(*self)),
    {
        let mut params: Vec<Json> = Vec::new();
        let mut i: usize = 0;
        let ghost pv = strings_view(self.parameters@);
        while i < self.parameters.len()
            invariant
                0 <= i <= self.parameters.len(),
                pv == strings_view(self.parameters@),
                json_seq_view(params@) == pv.take(i as int).map_values(|p: Seq<char>| JsonV::Str(p)),
            decreases self.parameters.len() - i,
        {
            let ghost before = json_seq_view(params@);
            let c = self.parameters[i].clone();
            assert(c@ == pv[i as int]);
            params.push(Json::Str(c));
            assert(json_seq_view(params@) =~= before.push(JsonV::Str(pv[i as int])));
            assert(pv.take(i + 1) =~= pv.take(i as int).push(pv[i as int]));
            assert(json_seq_view(params@) =~= pv.take(i + 1).map_values(|p: Seq<char>| JsonV::Str(p)));
            i = i + 1;
        }
        assert(pv.take(i as int) == pv);
        proof {
            lemma_array_view(&params);
        }
        let arr = Json::Array(params);
        let mut entries: Vec<(String, Json)> = Vec::new();
        entries.push((owned("module_id"), Json::Str(self.module_id.clone())));
        entries.push((owned("http_method"), Json::Str(self.http_method.clone())));
        entries.push((owned("url_path"), Json::Str(self.url_path.clone())));
        entries.push((owned("parameters"), arr));
        proof {
            lemma_object_view(&entries);
        }
        let r = Json::Object(entries);
        assert(entries_view(entries@) =~= hazard_json(hazard_view(*self))->Object_0);
        r
    }
}

/// The names of an operation's `in: query` parameters, in order (entries
/// without a string `name` are skipped).
pub open spec fn query_names(params: Seq<JsonV>) -> Seq<Seq<char>>
    decreases params.len(),
{
    if params.len() == 0 {
        Seq::empty()
    } else {
        let r = query_names(params.drop_last());
        let p = params.last();
        if get_str(p, "in"@) == Some("query"@) && get_str(p, "name"@) is Some {
            r.push(get_str(p, "name"@)->0)
        } else {
            r
        }
    }
}

pub open spec fn operation_query_names(op: JsonV) -> Seq<Seq<char>> {
    match op.get("parameters"@) {
        Some(JsonV::Array(ps)) => query_names(ps),
        _ => Seq::empty(),
    }
}

/// Names of the operation's `in: query` parameters, in document order.
pub fn query_parameter_names(operation: &Json) -> (r: Vec<String>)
    ensures
        strings_view(r@) == operation_query_names(operation@),
{
    let mut out: Vec<String> = Vec::new();
    let params = match operation.get("parameters") {
        Some(p) => match p.as_array() {
            Some(a) => a,
            None => {
                assert(strings_view(out@) =~= Seq::<Seq<char>>::empty());
                return out;
            },
        },
        None => {
            assert(strings_view(out@) =~= Seq::<Seq<char>>::empty());
            return out;
        },
    };
    let ghost pv = json_seq_view(params@);
    let mut i: usize = 0;
    assert(strings_view(out@) =~= query_names(pv.take(0)));
    while i < params.len()
        invariant
            0 <= i <= params.len(),
            pv == json_seq_view(params@),
            operation@.get("parameters"@) == Some(JsonV::Array(pv)),
            strings_view(out@) == query_names(pv.take(i as int)),
        decreases params.len() - i,
    {
        assert(pv.take(i + 1).drop_last() == pv.take(i as int));
        assert(pv.take(i + 1).last() == params@[i as int]@);
        let p = &params[i];
        let is_query = match p.get("in") {
            Some(v) => match v.as_str() {
                Some(s) => str_eq(s.as_str(), "query"),
                None => false,
            },
            None => false,
        };
        if is_query {
            match p.get("name") {
                Some(v) => match v.as_str() {
                    Some(n) => {
                        let ghost prev = out@;
                        let c = n.clone();
                        out.push(c);
                        assert(strings_view(out@) =~= strings_view(prev).push(c@));
                    },
                    None => {},
                },
                None => {},
            }
        }
        i = i + 1;
    }
    assert(pv.take(params.len() as int) == pv);
    out
}

/// What the scanner recorded about one generated module, as plain values:
/// its ID, description, tags, route descriptor (`"GET /pets"`), the
/// `http_method` / `url_path` strings of its metadata when present, and the
/// warnings raised while scanning it.
#[derive(Debug)]
pub struct ScanRecord {
    pub module_id: String,
    pub description: String,
    pub tags: Vec<String>,
    pub target: String,
    pub http_method: Option<String>,
    pub url_path: Option<String>,
    pub warnings: Vec<String>,
}

pub struct HazardV {
    pub module_id: Seq<char>,
    pub http_method: Seq<char>,
    pub url_path: Seq<char>,
    pub parameters: Seq<Seq<char>>,
}

pub open spec fn hazard_view(h: Hazard) -> HazardV {
    HazardV {
        module_id: h.module_id@,
        http_method: h.http_method@,
        url_path: h.url_path@,
        parameters: strings_view(h.parameters@),
    }
}

/// The hazards for one method of one path: one per module routed there.
pub open spec fn route_hazards(
    routes: Seq<ScanRecord>,
    method: Seq<char>,
    path: Seq<char>,
    params: Seq<Seq<char>>,
) -> Seq<HazardV>
    decreases routes.len(),
{
    if routes.len() == 0 {
        Seq::empty()
    } else {
        let r = route_hazards(routes.drop_last(), method, path, params);
        let m = routes.last();
        if opt_view(m.http_method) == Some(method) && opt_view(m.url_path) == Some(path) {
            r.push(HazardV { module_id: m.module_id@, http_method: method, url_path: path, parameters: params })
        } else {
            r
        }
    }
}

/// Whether an HTTP method sends its non-path inputs as a JSON body.
pub open spec fn is_body_method(lowered: Seq<char>) -> bool {
    lowered == "post"@ || lowered == "put"@ || lowered == "patch"@
}

/// The hazards of one path item's operations, in document order.
pub open spec fn operation_hazards(
    routes: Seq<ScanRecord>,
    path: Seq<char>,
    ops: Seq<(Seq<char>, JsonV)>,
) -> Seq<HazardV>
    decreases ops.len(),
{
    if ops.len() == 0 {
        Seq::empty()
    } else {
        let r = operation_hazards(routes, path, ops.drop_last());
        let lowered = crate::text::ascii_lower_seq(ops.last().0);
        let q = operation_query_names(ops.last().1);
        if is_body_method(lowered) && q.len() > 0 {
            r + route_hazards(routes, crate::text::ascii_upper_seq(lowered), path, q)
        } else {
            r
        }
    }
}

/// The hazards of all paths, in document order.
pub open spec fn path_hazards(routes: Seq<ScanRecord>, paths: Seq<(Seq<char>, JsonV)>) -> Seq<HazardV>
    decreases paths.len(),
{
    if paths.len() == 0 {
        Seq::empty()
    } else {
        let r = path_hazards(routes, paths.drop_last());
        match paths.last().1 {
            JsonV::Object(ops) => r + operation_hazards(routes, paths.last().0, ops),
            _ => r,
        }
    }
}

/// Insert `h` into the list sorted by module ID, after every entry whose ID
/// is not greater.
pub open spec fn insert_hazard(s: Seq<HazardV>, h: HazardV) -> Seq<HazardV>
    decreases s.len(),
{
    if s.len() == 0 {
        seq![h]
    } else if crate::text::seq_le(s.last().module_id, h.module_id) {
        s.push(h)
    } else {
        insert_hazard(s.drop_last(), h).push(s.last())
    }
}

/// The stable sort of hazards by module ID.
pub open spec fn sort_hazards(s: Seq<HazardV>) -> Seq<HazardV>
    decreases s.len(),
{
    if s.len() == 0 {
        Seq::empty()
    } else {
        insert_hazard(sort_hazards(s.drop_last()), s.last())
    }
}

/// What [`detect_proxy_hazards`] reports.
pub open spec fn hazards_spec(spec: JsonV, routes: Seq<ScanRecord>) -> Seq<HazardV> {
    match spec.get("paths"@) {
        Some(JsonV::Object(paths)) => sort_hazards(path_hazards(routes, paths)),
        _ => Seq::empty(),
    }
}

pub open spec fn hazards_view(v: Seq<Hazard>) -> Seq<HazardV> {
    v.map_values(|h: Hazard| hazard_view(h))
}

proof fn lemma_insert_hazard_at(s: Seq<HazardV>, h: HazardV, pos: int)
    requires
        0 <= pos <= s.len(),
        pos == 0 || crate::text::seq_le(s[pos - 1].module_id, h.module_id),
        forall|j: int| pos <= j < s.len() ==> !crate::text::seq_le(#[trigger] s[j].module_id, h.module_id),
    ensures
        insert_hazard(s, h) == s.insert(pos, h),
    decreases s.len(),
{
    if s.len() == 0 {
        assert(s.insert(0, h) =~= seq![h]);
    } else if pos == s.len() {
        assert(s.insert(pos, h) =~= s.push(h));
    } else {
        let init = s.drop_last();
        assert(!crate::text::seq_le(s[s.len() - 1].module_id, h.module_id));
        assert forall|j: int| pos <= j < init.len() implies !crate::text::seq_le(#[trigger] init[j].module_id, h.module_id) by {
            assert(init[j] == s[j]);
        }
        if pos > 0 {
            assert(init[pos - 1] == s[pos - 1]);
        }
        lemma_insert_hazard_at(init, h, pos);
        assert(init.insert(pos, h).push(s.last()) =~= s.insert(pos, h));
    }
}


fn opt_eq(o: &Option<String>, s: &str) -> (r: bool)
    ensures
        r == (opt_view(*o) == Some(s@)),
{
    match o {
        Some(x) => str_eq(x.as_str(), s),
        None => false,
    }
}

fn push_route_hazards(
    out: &mut Vec<Hazard>,
    routes: &Vec<ScanRecord>,
    method: &str,
    path: &str,
    params: &Vec<String>,
)
    ensures
        hazards_view(final(out)@) == hazards_view(old(out)@) + route_hazards(routes@, method@, path@, strings_view(params@)),
{
    let ghost start = hazards_view(out@);
    let mut i: usize = 0;
    assert(route_hazards(routes@.take(0), method@, path@, strings_view(params@)) =~= Seq::<HazardV>::empty());
    assert(start + Seq::<HazardV>::empty() =~= start);
    while i < routes.len()
        invariant
            0 <= i <= routes.len(),
            start == hazards_view(old(out)@),
            hazards_view(out@) == start + route_hazards(routes@.take(i as int), method@, path@, strings_view(params@)),
        decreases routes.len() - i,
    {
        assert(routes@.take(i + 1).drop_last() == routes@.take(i as int));
        assert(routes@.take(i + 1).last() == routes@[i as int]);
        let m = &routes[i];
        if opt_eq(&m.http_method, method) && opt_eq(&m.url_path, path) {
            let ghost prev = hazards_view(out@);
            let h = Hazard {
                module_id: m.module_id.clone(),
                http_method: owned(method),
                url_path: owned(path),
                parameters: copy_strings(params),
            };
            let ghost hv = hazard_view(h);
            out.push(h);
            assert(hazards_view(out@) =~= prev.push(hv));
        }
        i = i + 1;
    }
    assert(routes@.take(routes.len() as int) == routes@);
}

/// Report operations whose `in: query` parameters a proxy writer would send
/// in a JSON body (query parameters declared on `POST`, `PUT` or `PATCH`),
/// one hazard per scanned module routed to such an operation, sorted by
/// module ID (stable). A document without a `paths` object reports
/// nothing.
pub fn detect_proxy_hazards(spec: &Json, modules: &Vec<ScanRecord>) -> (r: Vec<Hazard>)
    ensures
        hazards_view(r@) == hazards_spec(spec@, modules@),
{
    let mut found: Vec<Hazard> = Vec::new();
    let paths = match spec.get("paths") {
        Some(p) => match p.as_object() {
            Some(o) => o,
            None => {
                assert(hazards_view(found@) =~= Seq::<HazardV>::empty());
                return found;
            },
        },
        None => {
            assert(hazards_view(found@) =~= Seq::<HazardV>::empty());
            return found;
        },
    };
    let ghost pv = entries_view(paths@);
    let mut i: usize = 0;
    assert(hazards_view(found@) =~= path_hazards(modules@, pv.take(0)));
    while i < paths.len()
        invariant
            0 <= i <= paths.len(),
            pv == entries_view(paths@),
            spec@.get("paths"@) == Some(JsonV::Object(pv)),
            hazards_view(found@) == path_hazards(modules@, pv.take(i as int)),
        decreases paths.len() - i,
    {
        assert(pv.take(i + 1).drop_last() == pv.take(i as int));
        assert(pv.take(i + 1).last() == (paths@[i as int].0@, paths@[i as int].1@));
        let path = paths[i].0.as_str();
        match &paths[i].1 {
            Json::Object(ops) => {
                proof {
                    lemma_object_view(ops);
                }
                let ghost ov = entries_view(ops@);
                let ghost before = hazards_view(found@);
                let mut k: usize = 0;
                assert(operation_hazards(modules@, path@, ov.take(0)) =~= Seq::<HazardV>::empty());
                assert(before + Seq::<HazardV>::empty() =~= before);
                assert(pv.take(i + 1).last() == (path@, JsonV::Object(ov)));
                assert(before == path_hazards(modules@, pv.take(i as int)));
                while k < ops.len()
                    invariant
                        0 <= k <= ops.len(),
                        ov == entries_view(ops@),
                        hazards_view(found@) == before + operation_hazards(modules@, path@, ov.take(k as int)),
                    decreases ops.len() - k,
                {
                    assert(ov.take(k + 1).drop_last() == ov.take(k as int));
                    assert(ov.take(k + 1).last() == (ops@[k as int].0@, ops@[k as int].1@));
                    let lowered = crate::text::to_ascii_lowercase(ops[k].0.as_str());
                    let body = str_eq(lowered.as_str(), "post") || str_eq(lowered.as_str(), "put") || str_eq(lowered.as_str(), "patch");
                    if body {
                        let q = query_parameter_names(&ops[k].1);
                        if q.len() > 0 {
                            let upper = crate::text::to_ascii_uppercase(lowered.as_str());
                            let ghost b2 = hazards_view(found@);
                            push_route_hazards(&mut found, modules, upper.as_str(), path, &q);
                            assert(hazards_view(found@) =~= before + operation_hazards(modules@, path@, ov.take(k + 1)));
                        }
                    }
                    k = k + 1;
                }
                assert(ov.take(ops.len() as int) == ov);
                assert(path_hazards(modules@, pv.take(i + 1)) == path_hazards(modules@, pv.take(i as int)) + operation_hazards(modules@, path@, ov));
                assert(hazards_view(found@) =~= path_hazards(modules@, pv.take(i + 1)));
            },
            _ => {
                assert(path_hazards(modules@, pv.take(i + 1)) == path_hazards(modules@, pv.take(i as int)));
            },
        }
        i = i + 1;
    }
    assert(pv.take(paths.len() as int) == pv);
    // Stable insertion sort by module ID.
    let ghost unsorted = hazards_view(found@);
    let mut rest = found;
    let ghost orig = rest@;
    let mut sorted: Vec<Hazard> = Vec::new();
    let n = rest.len();
    let mut t: usize = 0;
    assert(hazards_view(sorted@) =~= sort_hazards(unsorted.take(0)));
    while rest.len() > 0
        invariant
            n == orig.len(),
            t + rest.len() == n,
            rest@ == orig.skip(t as int),
            unsorted == hazards_view(orig),
            hazards_view(sorted@) == sort_hazards(unsorted.take(t as int)),
        decreases rest.len(),
    {
        let h = rest.remove(0);
        assert(h == orig[t as int]);
        assert(rest@ =~= orig.skip(t + 1));
        assert(unsorted.take(t + 1).drop_last() == unsorted.take(t as int));
        assert(unsorted.take(t + 1).last() == hazard_view(h));
        let ghost sv = hazards_view(sorted@);
        let mut pos: usize = sorted.len();
        while pos > 0 && !crate::text::str_le(sorted[pos - 1].module_id.as_str(), h.module_id.as_str())
            invariant
                0 <= pos <= sorted.len(),
                sv == hazards_view(sorted@),
                forall|j: int| pos <= j < sv.len() ==> !crate::text::seq_le(#[trigger] sv[j].module_id, h.module_id@),
            decreases pos,
        {
            pos = pos - 1;
        }
        proof {
            lemma_insert_hazard_at(sv, hazard_view(h), pos as int);
        }
        let ghost hv = hazard_view(h);
        sorted.insert(pos, h);
        assert(hazards_view(sorted@) =~= sv.insert(pos as int, hv));
        t = t + 1;
    }
    assert(unsorted.take(n as int) =~= unsorted);
    sorted
}

// ---------------------------------------------------------------------------
// Scan rendering
// ---------------------------------------------------------------------------

/// The `(module ID, warning)` pairs of a scan, module by module.
pub open spec fn warned_pairs(records: Seq<ScanRecord>) -> Seq<(Seq<char>, Seq<char>)>
    decreases records.len(),
{
    if records.len() == 0 {
        Seq::empty()
    } else {
        let m = records.last();
        warned_pairs(records.drop_last()) + strings_view(m.warnings@).map_values(
            |w: Seq<char>| (m.module_id@, w),
        )
    }
}

/// One `  <id>  <warning>` line per pair.
pub open spec fn warning_lines(pairs: Seq<(Seq<char>, Seq<char>)>) -> Seq<char>
    decreases pairs.len(),
{
    if pairs.len() == 0 {
        Seq::empty()
    } else {
        warning_lines(pairs.drop_last()) + "  "@ + pairs.last().0 + "  "@ + pairs.last().1 + "\n"@
    }
}

/// One `  <id>  <summary>` line per hazard.
pub open spec fn hazard_lines(hs: Seq<HazardV>) -> Seq<char>
    decreases hs.len(),
{
    if hs.len() == 0 {
        Seq::empty()
    } else {
        hazard_lines(hs.drop_last()) + "  "@ + hs.last().module_id + "  "@ + summary_text(hs.last()) + "\n"@
    }
}

/// The warnings block then the hazards block; each is left out when empty.
pub open spec fn diagnostics_text(records: Seq<ScanRecord>, hs: Seq<HazardV>) -> Seq<char> {
    let pairs = warned_pairs(records);
    (if pairs.len() > 0 {
        "\n"@ + decimal(pairs.len()) + " "@ + (if pairs.len() == 1 {
            "warning"@
        } else {
            "warnings"@
        }) + ":\n"@ + warning_lines(pairs)
    } else {
        Seq::empty()
    }) + (if hs.len() > 0 {
        "\n"@ + decimal(hs.len()) + " "@ + (if hs.len() == 1 {
            "operation"@
        } else {
            "operations"@
        }) + " cannot be proxied by FE-15b:\n"@ + hazard_lines(hs)
    } else {
        Seq::empty()
    })
}

fn warned_pairs_of(records: &Vec<ScanRecord>) -> (r: Vec<(String, String)>)
    ensures
        str_pairs_view(r@) == warned_pairs(records@),
{
    let mut out: Vec<(String, String)> = Vec::new();
    let mut i: usize = 0;
    assert(str_pairs_view(out@) =~= warned_pairs(records@.take(0)));
    while i < records.len()
        invariant
            0 <= i <= records.len(),
            str_pairs_view(out@) == warned_pairs(records@.take(i as int)),
        decreases records.len() - i,
    {
        assert(records@.take(i + 1).drop_last() == records@.take(i as int));
        assert(records@.take(i + 1).last() == records@[i as int]);
        let m = &records[i];
        let ghost start = str_pairs_view(out@);
        let ghost ws = strings_view(m.warnings@);
        let mut k: usize = 0;
        assert(start + ws.take(0).map_values(|w: Seq<char>| (m.module_id@, w)) =~= start);
        while k < m.warnings.len()
            invariant
                0 <= k <= m.warnings.len(),
                ws == strings_view(m.warnings@),
                str_pairs_view(out@) == start + ws.take(k as int).map_values(|w: Seq<char>| (m.module_id@, w)),
            decreases m.warnings.len() - k,
        {
            let ghost before = str_pairs_view(out@);
            let id = m.module_id.clone();
            let w = m.warnings[k].clone();
            assert(w@ == ws[k as int]);
            out.push((id, w));
            assert(str_pairs_view(out@) =~= before.push((m.module_id@, ws[k as int])));
            assert(ws.take(k + 1) =~= ws.take(k as int).push(ws[k as int]));
            assert(str_pairs_view(out@) =~= start + ws.take(k + 1).map_values(|w: Seq<char>| (m.module_id@, w)));
            k = k + 1;
        }
        assert(ws.take(k as int) == ws);
        i = i + 1;
    }
    assert(records@.take(i as int) == records@);
    out
}

/// The warnings and hazards of a scan as text, or an empty string when
/// there are none. Every warning is listed (a module's flags may be
/// incomplete), then every hazard with its summary.
#[verifier::rlimit(40)]
pub fn render_diagnostics(modules: &Vec<ScanRecord>, hazards: &Vec<Hazard>) -> (r: String)
    ensures
        r@ == diagnostics_text(modules@, hazards_view(hazards@)),
{
    let mut out = String::new();
    let warned = warned_pairs_of(modules);
    let ghost pairs = str_pairs_view(warned@);
    if warned.len() > 0 {
        push_str(&mut out, "\n");
        push_str(&mut out, usize_to_string(warned.len()).as_str());
        push_str(&mut out, " ");
        if warned.len() == 1 {
            push_str(&mut out, "warning");
        } else {
            push_str(&mut out, "warnings");
        }
        push_str(&mut out, ":\n");
        let ghost head = out@;
        let mut i: usize = 0;
        assert(warning_lines(pairs.take(0)) =~= Seq::<char>::empty());
        while i < warned.len()
            invariant
                0 <= i <= warned.len(),
                pairs == str_pairs_view(warned@),
                out@ == head + warning_lines(pairs.take(i as int)),
            decreases warned.len() - i,
        {
            assert(pairs.take(i + 1).drop_last() == pairs.take(i as int));
            assert(pairs.take(i + 1).last() == pairs[i as int]);
            push_str(&mut out, "  ");
            push_str(&mut out, warned[i].0.as_str());
            push_str(&mut out, "  ");
            push_str(&mut out, warned[i].1.as_str());
            push_str(&mut out, "\n");
            i = i + 1;
        }
        assert(pairs.take(i as int) == pairs);
    }
    let ghost mid = out@;
    let ghost hv = hazards_view(hazards@);
    if hazards.len() > 0 {
        push_str(&mut out, "\n");
        push_str(&mut out, usize_to_string(hazards.len()).as_str());
        push_str(&mut out, " ");
        if hazards.len() == 1 {
            push_str(&mut out, "operation");
        } else {
            push_str(&mut out, "operations");
        }
        push_str(&mut out, " cannot be proxied by FE-15b:\n");
        let ghost head = out@;
        let mut i: usize = 0;
        assert(hazard_lines(hv.take(0)) =~= Seq::<char>::empty());
        while i < hazards.len()
            invariant
                0 <= i <= hazards.len(),
                hv == hazards_view(hazards@),
                out@ == head + hazard_lines(hv.take(i as int)),
            decreases hazards.len() - i,
        {
            assert(hv.take(i + 1).drop_last() == hv.take(i as int));
            assert(hv.take(i + 1).last() == hazard_view(hazards@[i as int]));
            push_str(&mut out, "  ");
            push_str(&mut out, hazards[i].module_id.as_str());
            push_str(&mut out, "  ");
            let sm = hazards[i].summary();
            push_str(&mut out, sm.as_str());
            push_str(&mut out, "\n");
            i = i + 1;
        }
        assert(hv.take(i as int) == hv);
        assert(out@ =~= mid + ("\n"@ + decimal(hv.len()) + " "@ + (if hv.len() == 1 {
            "operation"@
        } else {
            "operations"@
        }) + " cannot be proxied by FE-15b:\n"@ + hazard_lines(hv)));
    } else {
        assert(out@ =~= mid + Seq::<char>::empty());
    }
    out
}

/// The string at `key` of the document's `info` object, if any.
pub open spec fn info_str(spec: JsonV, key: Seq<char>) -> Option<Seq<char>> {
    match spec.get("info"@) {
        Some(info) => get_str(info, key),
        None => None,
    }
}

pub open spec fn str_or(v: Option<Seq<char>>, default: Seq<char>) -> Seq<char> {
    match v {
        Some(s) => s,
        None => default,
    }
}

/// `N operation(s) from SOURCE (OpenAPI VERSION, TITLE DOC_VERSION)`, with
/// `?`, `untitled` and an empty string standing in for what the document
/// lacks.
pub open spec fn scan_header_text(source: Seq<char>, spec: JsonV, count: nat) -> Seq<char> {
    decimal(count) + " "@ + (if count == 1 {
        "operation"@
    } else {
        "operations"@
    }) + " from "@ + source + " (OpenAPI "@ + str_or(get_str(spec, "openapi"@), "?"@) + ", "@ + str_or(
        info_str(spec, "title"@),
        "untitled"@,
    ) + " "@ + str_or(info_str(spec, "version"@), Seq::empty()) + ")"@
}

fn info_string<'a>(spec: &'a Json, key: &str) -> (r: Option<&'a String>)
    ensures
        match r {
            Some(s) => info_str(spec@, key@) == Some(s@),
            None => info_str(spec@, key@) is None,
        },
{
    match spec.get("info") {
        Some(info) => match info.get(key) {
            Some(v) => v.as_str(),
            None => None,
        },
        None => None,
    }
}

/// The first line of the scan table: how many operations came from which
/// document.
pub fn scan_header(source: &str, spec: &Json, count: usize) -> (r: String)
    ensures
        r@ == scan_header_text(source@, spec@, count as nat),
{
    let mut out = usize_to_string(count);
    if count == 1 {
        push_str(&mut out, " operation from ");
    } else {
        push_str(&mut out, " operations from ");
    }
    push_str(&mut out, source);
    push_str(&mut out, " (OpenAPI ");
    match spec.get("openapi") {
        Some(v) => match v.as_str() {
            Some(s) => push_str(&mut out, s.as_str()),
            None => push_str(&mut out, "?"),
        },
        None => push_str(&mut out, "?"),
    }
    push_str(&mut out, ", ");
    match info_string(spec, "title") {
        Some(s) => push_str(&mut out, s.as_str()),
        None => push_str(&mut out, "untitled"),
    }
    push_str(&mut out, " ");
    match info_string(spec, "version") {
        Some(s) => push_str(&mut out, s.as_str()),
        None => {},
    }
    push_str(&mut out, ")");
    proof {
        reveal_strlit(" operation from ");
        reveal_strlit(" operations from ");
        reveal_strlit(" ");
        reveal_strlit("operation");
        reveal_strlit("operations");
        reveal_strlit(" from ");
    }
    assert(out@ =~= scan_header_text(source@, spec@, count as nat));
    out
}

/// One row of the scan table: module ID, route, description and the tags
/// joined with `, `.
pub open spec fn scan_row(m: ScanRecord) -> Seq<Seq<char>> {
    seq![m.module_id@, m.target@, m.description@, crate::text::join_with(strings_view(m.tags@), ", "@)]
}

/// Rows of strings, as plain values.
pub open spec fn text_rows_view(rows: Seq<Vec<String>>) -> Seq<Seq<Seq<char>>> {
    rows.map_values(|r: Vec<String>| strings_view(r@))
}

/// The rows of the scan table, one per scanned module in order.
pub fn scan_grid(modules: &Vec<ScanRecord>) -> (r: Vec<Vec<String>>)
    ensures
        text_rows_view(r@) == modules@.map_values(|m: ScanRecord| scan_row(m)),
{
    let mut rows: Vec<Vec<String>> = Vec::new();
    let mut i: usize = 0;
    while i < modules.len()
        invariant
            0 <= i <= modules.len(),
            text_rows_view(rows@) == modules@.take(i as int).map_values(|m: ScanRecord| scan_row(m)),
        decreases modules.len() - i,
    {
        let m = &modules[i];
        let c0 = m.module_id.clone();
        let c1 = m.target.clone();
        let c2 = m.description.clone();
        let c3 = crate::text::join_strings(&m.tags, ", ");
        assert(m.tags@.map_values(|s: String| s@) == strings_view(m.tags@));
        let ghost cells = seq![c0@, c1@, c2@, c3@];
        let mut row: Vec<String> = Vec::new();
        row.push(c0);
        row.push(c1);
        row.push(c2);
        row.push(c3);
        assert(strings_view(row@) =~= cells);
        let ghost prev = rows@;
        rows.push(row);
        assert(modules@.take(i + 1) =~= modules@.take(i as int).push(modules@[i as int]));
        assert(text_rows_view(rows@) =~= text_rows_view(prev).push(cells));
        i = i + 1;
    }
    assert(modules@.take(i as int) =~= modules@);
    rows
}

/// The human form of a scan: the header line, then, when anything was
/// scanned, the [`scan_grid`] drawn as a table.
/// The column names of the scan table.
pub open spec fn scan_headers() -> Seq<Seq<char>> {
    seq!["Module ID"@, "Route"@, "Description"@, "Tags"@]
}

pub fn render_scan_table(source: &str, spec: &Json, modules: &Vec<ScanRecord>, width: Option<u16>) -> (r: String)
    ensures
        modules.len() == 0 ==> r@ == scan_header_text(source@, spec@, 0),
        modules.len() > 0 ==> r@ == scan_header_text(source@, spec@, modules.len() as nat) + "\n\n"@
            + crate::output::grid_text(
            scan_headers(),
            modules@.map_values(|m: ScanRecord| scan_row(m)),
            width,
        ),
{
    let header = scan_header(source, spec, modules.len());
    if modules.len() == 0 {
        return header;
    }
    let mut headers: Vec<String> = Vec::new();
    headers.push(owned("Module ID"));
    headers.push(owned("Route"));
    headers.push(owned("Description"));
    headers.push(owned("Tags"));
    assert(strings_view(headers@) =~= scan_headers());
    let rows = scan_grid(modules);
    let table = crate::output::render_grid(&headers, &rows, width);
    let mut out = header;
    let ghost h = out@;
    push_str(&mut out, "\n\n");
    push_str(&mut out, table.as_str());
    proof {
        reveal_strlit("\n\n");
    }
    assert(out@.take(h.len() + 2int) =~= h + "\n\n"@);
    out
}

/// The machine form of a scan: `source`, the document's `openapi`,
/// `info.title` and `info.version` (null where absent), the module records
/// as given, and the hazards under a top-level `hazards` key.
pub open spec fn scan_payload_json(
    source: Seq<char>,
    spec: JsonV,
    module_dicts: Seq<JsonV>,
    hs: Seq<HazardV>,
) -> JsonV {
    JsonV::Object(
        seq![
            ("source"@, JsonV::Str(source)),
            ("openapi"@, or_null(spec.get("openapi"@))),
            ("title"@, or_null(info_value(spec, "title"@))),
            ("version"@, or_null(info_value(spec, "version"@))),
            ("modules"@, JsonV::Array(module_dicts)),
            ("hazards"@, JsonV::Array(hs.map_values(|h: HazardV| hazard_json(h)))),
        ],
    )
}

pub open spec fn or_null(v: Option<JsonV>) -> JsonV {
    match v {
        Some(x) => x,
        None => JsonV::Null,
    }
}

pub open spec fn info_value(spec: JsonV, key: Seq<char>) -> Option<JsonV> {
    match spec.get("info"@) {
        Some(info) => info.get(key),
        None => None,
    }
}

fn opt_dup(v: Option<&Json>) -> (r: Json)
    ensures
        r@ == or_null(
            match v {
                Some(x) => Some(x@),
                None => None,
            },
        ),
{
    match v {
        Some(x) => x.dup(),
        None => Json::Null,
    }
}

/// The machine payload of `scan`. `module_dicts` are the modules' own JSON
/// records (each with its `warnings`); hazards sit at the top level because
/// they concern a later execution path, not the scan.
pub fn scan_payload(source: &str, spec: &Json, module_dicts: Vec<Json>, hazards: &Vec<Hazard>) -> (r: Json)
    ensures
        r@ == scan_payload_json(source@, spec@, json_seq_view(module_dicts@), hazards_view(hazards@)),
{
    let openapi = opt_dup(spec.get("openapi"));
    let title = match spec.get("info") {
        Some(info) => opt_dup(info.get("title")),
        None => Json::Null,
    };
    let version = match spec.get("info") {
        Some(info) => opt_dup(info.get("version")),
        None => Json::Null,
    };
    let ghost mv = json_seq_view(module_dicts@);
    proof {
        lemma_array_view(&module_dicts);
    }
    let modules = Json::Array(module_dicts);
    let mut hz: Vec<Json> = Vec::new();
    let ghost hv = hazards_view(hazards@);
    let mut i: usize = 0;
    while i < hazards.len()
        invariant
            0 <= i <= hazards.len(),
            hv == hazards_view(hazards@),
            json_seq_view(hz@) == hv.take(i as int).map_values(|h: HazardV| hazard_json(h)),
        decreases hazards.len() - i,
    {
        let ghost before = json_seq_view(hz@);
        let j = hazards[i].to_json();
        let ghost jv = j@;
        assert(hv[i as int] == hazard_view(hazards@[i as int]));
        hz.push(j);
        assert(json_seq_view(hz@) =~= before.push(jv));
        assert(hv.take(i + 1) =~= hv.take(i as int).push(hv[i as int]));
        assert(json_seq_view(hz@) =~= hv.take(i + 1).map_values(|h: HazardV| hazard_json(h)));
        i = i + 1;
    }
    assert(hv.take(i as int) == hv);
    proof {
        lemma_array_view(&hz);
    }
    let hazards_json = Json::Array(hz);
    let mut entries: Vec<(String, Json)> = Vec::new();
    entries.push((owned("source"), Json::from_str(source)));
    entries.push((owned("openapi"), openapi));
    entries.push((owned("title"), title));
    entries.push((owned("version"), version));
    entries.push((owned("modules"), modules));
    entries.push((owned("hazards"), hazards_json));
    proof {
        lemma_object_view(&entries);
    }
    let r = Json::Object(entries);
    assert(entries_view(entries@) =~= scan_payload_json(source@, spec@, mv, hv)->Object_0);
    r
}

// ---------------------------------------------------------------------------
// Binding file names
// ---------------------------------------------------------------------------

/// File-name suffix of a binding.
pub const BINDING_SUFFIX: &'static str = ".binding.yaml";

/// ASCII letters, digits, `.`, `_` and `-` are kept; anything else becomes
/// `_`.
pub open spec fn safe_char(c: char) -> char {
    if is_ascii_alnum(c) || c == '.' || c == '_' || c == '-' {
        c
    } else {
        '_'
    }
}

pub open spec fn dot_run_text(run: nat) -> Seq<char> {
    if run == 0 {
        Seq::empty()
    } else if run == 1 {
        seq!['.']
    } else {
        seq!['_']
    }
}

/// Collapse each run of two or more dots into one `_`, `run` being the
/// number of dots just seen.
pub open spec fn collapse_dots(s: Seq<char>, run: nat) -> Seq<char>
    decreases s.len(),
{
    if s.len() == 0 {
        dot_run_text(run)
    } else if s[0] == '.' {
        collapse_dots(s.drop_first(), run + 1)
    } else {
        dot_run_text(run) + seq![s[0]] + collapse_dots(s.drop_first(), 0)
    }
}

/// The file-name stem for a module ID.
pub open spec fn sanitized(id: Seq<char>) -> Seq<char> {
    collapse_dots(id.map_values(|c: char| safe_char(c)), 0)
}

/// Append the text a run of `run` dots collapses to.
pub fn flush_dot_run(out: &mut String, run: usize)
    ensures
        final(out)@ == old(out)@ + dot_run_text(run as nat),
{
    if run == 0 {
        assert(old(out)@ + dot_run_text(0) =~= old(out)@);
    } else if run == 1 {
        push_char(out, '.');
    } else {
        push_char(out, '_');
    }
}

/// The binding file-name stem for a module ID: unsafe characters become
/// `_`, and every run of two or more dots becomes one `_`.
pub fn sanitize_binding_filename(module_id: &str) -> (r: String)
    ensures
        r@ == sanitized(module_id@),
{
    let cs = chars_of(module_id);
    let ghost safe = module_id@.map_values(|c: char| safe_char(c));
    let mut out = String::new();
    let mut dot_run: usize = 0;
    let mut i: usize = 0;
    assert(safe.skip(0) =~= safe);
    while i < cs.len()
        invariant
            cs@ == module_id@,
            safe == module_id@.map_values(|c: char| safe_char(c)),
            0 <= i <= cs.len(),
            dot_run <= i,
            out@ + collapse_dots(safe.skip(i as int), dot_run as nat) == collapse_dots(safe, 0),
        decreases cs.len() - i,
    {
        let c0 = cs[i];
        let c = if char_is_ascii_alnum(c0) || c0 == '.' || c0 == '_' || c0 == '-' {
            c0
        } else {
            '_'
        };
        assert(safe.skip(i as int)[0] == c);
        assert(safe.skip(i as int).drop_first() == safe.skip(i + 1));
        if c == '.' {
            dot_run = dot_run + 1;
        } else {
            let ghost o = out@;
            let ghost run0 = dot_run;
            flush_dot_run(&mut out, dot_run);
            push_char(&mut out, c);
            dot_run = 0;
            assert(collapse_dots(safe.skip(i as int), run0 as nat) == dot_run_text(run0 as nat)
                + seq![c] + collapse_dots(safe.skip(i + 1), 0));
            assert(out@ + collapse_dots(safe.skip(i + 1), 0) =~= o + collapse_dots(
                safe.skip(i as int),
                run0 as nat,
            ));
        }
        i = i + 1;
    }
    let ghost o = out@;
    flush_dot_run(&mut out, dot_run);
    assert(safe.skip(i as int).len() == 0);
    out
}

/// The `k`-th file name tried for a stem: `stem.binding.yaml`, then
/// `stem_1.binding.yaml`, `stem_2.binding.yaml`, and so on.
pub open spec fn binding_candidate(stem: Seq<char>, k: int) -> Seq<char> {
    if k <= 0 {
        stem + BINDING_SUFFIX@
    } else {
        stem + seq!['_'] + decimal(k as nat) + BINDING_SUFFIX@
    }
}

/// The first `k`, counting up from `k`, whose candidate is not yet taken.
pub open spec fn first_free_from(stem: Seq<char>, taken: Seq<Seq<char>>, k: int) -> int
    decreases taken.len() - k,
{
    if k < 0 || k >= taken.len() || !taken.contains(binding_candidate(stem, k)) {
        k
    } else {
        first_free_from(stem, taken, k + 1)
    }
}

/// The file name of each module's binding, in order: the first candidate of
/// its stem that no earlier module of the batch took.
pub open spec fn planned_names(routes: Seq<ScanRecord>) -> Seq<Seq<char>>
    decreases routes.len(),
{
    if routes.len() == 0 {
        Seq::empty()
    } else {
        let prev = planned_names(routes.drop_last());
        let stem = sanitized(routes.last().module_id@);
        prev.push(binding_candidate(stem, first_free_from(stem, prev, 0)))
    }
}

/// `dir` joined with a relative file name, as `Path::join` does it.
pub open spec fn join_path(dir: Seq<char>, name: Seq<char>) -> Seq<char> {
    if dir.len() == 0 {
        name
    } else if dir.last() == '/' {
        dir + name
    } else {
        dir + seq!['/'] + name
    }
}

/// Distinct counters give distinct candidates.
proof fn lemma_candidates_distinct(stem: Seq<char>, j: int, k: int)
    requires
        0 <= j,
        0 <= k,
        binding_candidate(stem, j) == binding_candidate(stem, k),
    ensures
        j == k,
{
    reveal_strlit(".binding.yaml");
    let n = stem.len() as int;
    let cj = binding_candidate(stem, j);
    let ck = binding_candidate(stem, k);
    if j == 0 && k > 0 {
        assert(cj[n] == '.');
        assert(ck[n] == '_');
    } else if k == 0 && j > 0 {
        assert(ck[n] == '.');
        assert(cj[n] == '_');
    } else if j > 0 && k > 0 {
        let dj = decimal(j as nat);
        let dk = decimal(k as nat);
        assert(cj == stem + seq!['_'] + dj + BINDING_SUFFIX@);
        assert(ck == stem + seq!['_'] + dk + BINDING_SUFFIX@);
        assert(cj.len() == n + 1 + dj.len() + BINDING_SUFFIX@.len());
        assert(ck.len() == n + 1 + dk.len() + BINDING_SUFFIX@.len());
        assert(dj.len() == dk.len());
        assert(dj =~= cj.subrange(n + 1, n + 1 + dj.len()));
        assert(dk =~= ck.subrange(n + 1, n + 1 + dk.len()));
        crate::text::lemma_decimal_value(j as nat);
        crate::text::lemma_decimal_value(k as nat);
    }
}

/// Every candidate below the first free one is taken, and there are at most
/// as many of them as taken names.
proof fn lemma_taken_candidates_fit(stem: Seq<char>, taken: Seq<Seq<char>>, m: int)
    requires
        0 <= m,
        forall|j: int| 0 <= j < m ==> taken.contains(#[trigger] binding_candidate(stem, j)),
    ensures
        m <= taken.len(),
{
    let f = |k: int| binding_candidate(stem, k);
    assert forall|a: int, b: int| 0 <= a < m && 0 <= b < m && #[trigger] f(a) == #[trigger] f(b) implies a == b by {
        lemma_candidates_distinct(stem, a, b);
    }
    assert forall|a: int| 0 <= a < m implies taken.contains(#[trigger] f(a)) by {
        assert(taken.contains(binding_candidate(stem, a)));
    }
    crate::text::lemma_distinct_values_fit(taken, f, m);
}

fn contains_name(names: &Vec<String>, name: &str) -> (r: bool)
    ensures
        r == strings_view(names@).contains(name@),
{
    let r = crate::text::string_in(name, names);
    proof {
        let sv = strings_view(names@);
        if r {
            let i = choose|i: int| 0 <= i < names@.len() && names@[i]@ == name@;
            assert(sv[i] == name@);
        } else {
            assert forall|i: int| 0 <= i < sv.len() implies sv[i] != name@ by {
                assert(sv[i] == names@[i]@);
            }
        }
    }
    r
}

/// The file name each scanned module's binding would be written under, in
/// order: the sanitized stem plus `.binding.yaml`, or, when an earlier
/// module of the batch already took that name, `_1`, `_2`, ... before the
/// suffix. No two names of one batch coincide.
pub fn planned_binding_names(modules: &Vec<ScanRecord>) -> (r: Vec<String>)
    ensures
        strings_view(r@) == planned_names(modules@),
        forall|a: int, b: int| 0 <= a < b < r.len() ==> r@[a]@ != r@[b]@,
{
    let mut seen: Vec<String> = Vec::new();
    let mut i: usize = 0;
    assert(strings_view(seen@) =~= planned_names(modules@.take(0)));
    while i < modules.len()
        invariant
            0 <= i <= modules.len(),
            strings_view(seen@) == planned_names(modules@.take(i as int)),
            forall|a: int, b: int| 0 <= a < b < seen.len() ==> seen@[a]@ != seen@[b]@,
        decreases modules.len() - i,
    {
        assert(modules@.take(i + 1).drop_last() == modules@.take(i as int));
        assert(modules@.take(i + 1).last() == modules@[i as int]);
        let stem = sanitize_binding_filename(modules[i].module_id.as_str());
        let ghost taken = strings_view(seen@);
        let mut counter: usize = 0;
        let mut name = concat2(stem.as_str(), BINDING_SUFFIX);
        while contains_name(&seen, name.as_str())
            invariant
                taken == strings_view(seen@),
                counter <= seen.len(),
                name@ == binding_candidate(stem@, counter as int),
                forall|j: int| 0 <= j < counter ==> taken.contains(#[trigger] binding_candidate(stem@, j)),
                first_free_from(stem@, taken, 0) == first_free_from(stem@, taken, counter as int),
            decreases seen.len() - counter,
        {
            proof {
                lemma_taken_candidates_fit(stem@, taken, counter + 1);
            }
            counter = counter + 1;
            let digits = usize_to_string(counter);
            let head = concat3(stem.as_str(), "_", digits.as_str());
            name = concat2(head.as_str(), BINDING_SUFFIX);
            proof {
                reveal_strlit("_");
            }
        }
        assert(first_free_from(stem@, taken, counter as int) == counter);
        let ghost prev = seen@;
        proof {
            assert forall|a: int| 0 <= a < prev.len() implies prev[a]@ != name@ by {
                assert(taken[a] == prev[a]@);
            }
        }
        seen.push(name);
        assert(strings_view(seen@) =~= taken.push(binding_candidate(stem@, counter as int)));
        assert forall|a: int, b: int| 0 <= a < b < seen.len() implies seen@[a]@ != seen@[b]@ by {
            if b < prev.len() {
                assert(seen@[a] == prev[a]);
                assert(seen@[b] == prev[b]);
            } else {
                assert(seen@[a] == prev[a]);
            }
        }
        i = i + 1;
    }
    assert(modules@.take(modules.len() as int) == modules@);
    seen
}

/// The path each module's binding would be written to, in order: the
/// output directory joined with the module's planned file name.
pub fn planned_paths(modules: &Vec<ScanRecord>, output_dir: &str) -> (r: Vec<String>)
    ensures
        r.len() == modules.len(),
        forall|k: int| 0 <= k < r.len() ==> #[trigger] r@[k]@ == join_path(output_dir@, planned_names(modules@)[k]),
{
    let names = planned_binding_names(modules);
    proof {
        lemma_planned_names_len(modules@);
    }
    let dir = chars_of(output_dir);
    let mut out: Vec<String> = Vec::new();
    let mut k: usize = 0;
    while k < names.len()
        invariant
            0 <= k <= names.len(),
            names.len() == modules.len(),
            dir@ == output_dir@,
            strings_view(names@) == planned_names(modules@),
            out.len() == k,
            forall|t: int| 0 <= t < k ==> #[trigger] out@[t]@ == join_path(output_dir@, planned_names(modules@)[t]),
        decreases names.len() - k,
    {
        assert(strings_view(names@)[k as int] == names@[k as int]@);
        let p = if dir.len() == 0 {
            owned(names[k].as_str())
        } else if dir[dir.len() - 1] == '/' {
            concat2(output_dir, names[k].as_str())
        } else {
            let r = concat3(output_dir, "/", names[k].as_str());
            proof {
                reveal_strlit("/");
            }
            r
        };
        out.push(p);
        k = k + 1;
    }
    out
}

proof fn lemma_planned_names_len(routes: Seq<ScanRecord>)
    ensures
        planned_names(routes).len() == routes.len(),
    decreases routes.len(),
{
    if routes.len() > 0 {
        lemma_planned_names_len(routes.drop_last());
    }
}

// ---------------------------------------------------------------------------
// Laws
// ---------------------------------------------------------------------------

/// A sanitized stem holds only safe characters and never two dots in a row,
/// so it cannot name a parent directory or contain a path separator.
pub proof fn lemma_sanitized_is_safe(id: Seq<char>)
    ensures
        forall|i: int| 0 <= i < sanitized(id).len() ==> {
            let c = #[trigger] sanitized(id)[i];
            is_ascii_alnum(c) || c == '.' || c == '_' || c == '-'
        },
        forall|i: int| 0 <= i < sanitized(id).len() - 1 ==> !(#[trigger] sanitized(id)[i] == '.' && sanitized(id)[i + 1] == '.'),
{
    let safe = id.map_values(|c: char| safe_char(c));
    assert forall|i: int| 0 <= i < safe.len() implies {
        let c = #[trigger] safe[i];
        is_ascii_alnum(c) || c == '.' || c == '_' || c == '-'
    } by {}
    lemma_collapse_safe(safe, 0);
}

proof fn lemma_collapse_safe(s: Seq<char>, run: nat)
    requires
        forall|i: int| 0 <= i < s.len() ==> {
            let c = #[trigger] s[i];
            is_ascii_alnum(c) || c == '.' || c == '_' || c == '-'
        },
    ensures
        forall|i: int| 0 <= i < collapse_dots(s, run).len() ==> {
            let c = #[trigger] collapse_dots(s, run)[i];
            is_ascii_alnum(c) || c == '.' || c == '_' || c == '-'
        },
        forall|i: int| 0 <= i < collapse_dots(s, run).len() - 1 ==> !(#[trigger] collapse_dots(s, run)[i] == '.' && collapse_dots(s, run)[i + 1] == '.'),
    decreases s.len(),
{
    if s.len() == 0 {
        let d = dot_run_text(run);
        assert(collapse_dots(s, run) == d);
        assert(d.len() <= 1);
        assert forall|i: int| 0 <= i < d.len() implies {
            let c = #[trigger] d[i];
            is_ascii_alnum(c) || c == '.' || c == '_' || c == '-'
        } by {}
    } else if s[0] == '.' {
        assert(collapse_dots(s, run) == collapse_dots(s.drop_first(), run + 1));
        assert forall|i: int| 0 <= i < s.drop_first().len() implies {
            let c = #[trigger] s.drop_first()[i];
            is_ascii_alnum(c) || c == '.' || c == '_' || c == '-'
        } by {
            assert(s.drop_first()[i] == s[i + 1]);
        }
        lemma_collapse_safe(s.drop_first(), run + 1);
    } else {
        let rest = s.drop_first();
        assert forall|i: int| 0 <= i < rest.len() implies {
            let c = #[trigger] rest[i];
            is_ascii_alnum(c) || c == '.' || c == '_' || c == '-'
        } by {
            assert(rest[i] == s[i + 1]);
        }
        lemma_collapse_safe(rest, 0);
        let d = dot_run_text(run);
        let t = collapse_dots(rest, 0);
        let whole = d + seq![s[0]] + t;
        assert(collapse_dots(s, run) == whole);
        assert forall|i: int| 0 <= i < whole.len() implies {
            let c = #[trigger] whole[i];
            is_ascii_alnum(c) || c == '.' || c == '_' || c == '-'
        } by {
            if i < d.len() {
            } else if i == d.len() {
            } else {
                assert(whole[i] == t[i - d.len() - 1]);
            }
        }
        assert forall|i: int| 0 <= i < whole.len() - 1 implies !(#[trigger] whole[i] == '.' && whole[i + 1] == '.') by {
            if i + 1 < d.len() {
            } else if i + 1 == d.len() {
                assert(whole[i + 1] == s[0]);
            } else if i == d.len() {
                assert(whole[i] == s[0]);
            } else {
                assert(whole[i] == t[i - d.len() - 1]);
                assert(whole[i + 1] == t[i - d.len()]);
            }
        }
    }
}

} // verus!
