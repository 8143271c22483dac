//! The JSON / YAML document model the library computes on.
//!
//! [`Json`] holds, as plain values, what the library reads of a parsed JSON or
//! YAML document: objects keep their entries in document order (the order
//! `serde_json` preserves with `preserve_order`), numbers keep their integer
//! value or, for non-integers, their rendered text. YAML-only shapes are
//! represented too: `Tagged` for a `!tag value`. JSON and YAML text is read
//! by `serde_json` and `serde_yaml` and JSON text written by `serde_json`,
//! through the wrappers below, whose results are named ([`json_parse`],
//! [`yaml_parse`], [`json_text`], [`pretty_text`]), not restated; everything
//! else the library decides on a document is computed here against the
//! [`JsonV`] view.
use vstd::prelude::*;
use crate::text::{owned, str_eq};

verus! {

// ---------------------------------------------------------------------------
// Types and views
// ---------------------------------------------------------------------------

/// A JSON number: non-negative integer, negative integer, or any other
/// number kept as its canonical rendered text.
#[derive(Debug)]
pub enum JsonNumber {
    PosInt(u64),
    NegInt(i64),
    Float(String),
}

/// A parsed JSON (or YAML) value.
#[derive(Debug)]
pub enum Json {
    Null,
    Bool(bool),
    Number(JsonNumber),
    Str(String),
    Array(Vec<Json>),
    Object(Vec<(String, Json)>),
    Tagged(String, Box<Json>),
}

pub enum NumV {
    PosInt(u64),
    NegInt(i64),
    Float(Seq<char>),
}

/// The mathematical value of a [`Json`].
pub enum JsonV {
    Null,
    Bool(bool),
    Number(NumV),
    Str(Seq<char>),
    Array(Seq<JsonV>),
    Object(Seq<(Seq<char>, JsonV)>),
    Tagged(Seq<char>, Box<JsonV>),
}

impl View for JsonNumber {
    type V = NumV;

    open spec fn view(&self) -> NumV {
        match self {
            JsonNumber::PosInt(u) => NumV::PosInt(*u),
            JsonNumber::NegInt(i) => NumV::NegInt(*i),
            JsonNumber::Float(s) => NumV::Float(s@),
        }
    }
}

/// The view of a [`Json`] value, defined structurally.
pub open spec fn json_view(j: &Json) -> JsonV
    decreases j,
{
    match j {
        Json::Null => JsonV::Null,
        Json::Bool(b) => JsonV::Bool(*b),
        Json::Number(n) => JsonV::Number(n@),
        Json::Str(s) => JsonV::Str(s@),
        Json::Array(v) => JsonV::Array(
            Seq::new(
                v.len() as nat,
                |i: int|
                    if 0 <= i < v.len() {
                        json_view(&v@[i])
                    } else {
                        JsonV::Null
                    },
            ),
        ),
        Json::Object(v) => JsonV::Object(
            Seq::new(
                v.len() as nat,
                |i: int|
                    if 0 <= i < v.len() {
                        (v@[i].0@, json_view(&v@[i].1))
                    } else {
                        (Seq::empty(), JsonV::Null)
                    },
            ),
        ),
        Json::Tagged(t, b) => JsonV::Tagged(t@, Box::new(json_view(&**b))),
    }
}

impl View for Json {
    type V = JsonV;

    open spec fn view(&self) -> JsonV {
        json_view(self)
    }
}

/// The views of a sequence of values.
pub open spec fn json_seq_view(v: Seq<Json>) -> Seq<JsonV> {
    v.map_values(|x: Json| x@)
}

/// The views of a sequence of object entries.
pub open spec fn entries_view(v: Seq<(String, Json)>) -> Seq<(Seq<char>, JsonV)> {
    v.map_values(|e: (String, Json)| (e.0@, e.1@))
}

pub proof fn lemma_array_view(v: &Vec<Json>)
    ensures
        Json::Array(*v)@ == JsonV::Array(json_seq_view(v@)),
{
    let a = Json::Array(*v);
    let s = a@->Array_0;
    assert(s.len() == v.len());
    assert forall|i: int| 0 <= i < v.len() implies s[i] == v@[i]@ by {}
    assert(s =~= json_seq_view(v@));
}

pub proof fn lemma_object_view(v: &Vec<(String, Json)>)
    ensures
        Json::Object(*v)@ == JsonV::Object(entries_view(v@)),
{
    let a = Json::Object(*v);
    let s = a@->Object_0;
    assert(s.len() == v.len());
    assert forall|i: int| 0 <= i < v.len() implies s[i] == (v@[i].0@, v@[i].1@) by {}
    assert(s =~= entries_view(v@));
}

// ---------------------------------------------------------------------------
// Spec-level accessors
// ---------------------------------------------------------------------------

/// The first entry's value whose key is `k` (objects keep unique keys, so
/// this is the value stored under `k`).
pub open spec fn lookup(entries: Seq<(Seq<char>, JsonV)>, k: Seq<char>) -> Option<JsonV>
    decreases entries.len(),
{
    if entries.len() == 0 {
        None
    } else if entries[0].0 == k {
        Some(entries[0].1)
    } else {
        lookup(entries.drop_first(), k)
    }
}

/// Index of the first entry whose key is `k`, if any.
pub open spec fn key_index(entries: Seq<(Seq<char>, JsonV)>, k: Seq<char>) -> Option<int>
    decreases entries.len(),
{
    if entries.len() == 0 {
        None
    } else if entries[0].0 == k {
        Some(0)
    } else {
        match key_index(entries.drop_first(), k) {
            Some(i) => Some(i + 1),
            None => None,
        }
    }
}

pub proof fn lemma_key_index(entries: Seq<(Seq<char>, JsonV)>, k: Seq<char>)
    ensures
        match key_index(entries, k) {
            Some(i) => 0 <= i < entries.len() && entries[i].0 == k && lookup(entries, k) == Some(
                entries[i].1,
            ) && forall|j: int| 0 <= j < i ==> entries[j].0 != k,
            None => lookup(entries, k) is None && forall|j: int|
                0 <= j < entries.len() ==> entries[j].0 != k,
        },
    decreases entries.len(),
{
    if entries.len() > 0 {
        lemma_key_index(entries.drop_first(), k);
        if entries[0].0 != k {
            match key_index(entries.drop_first(), k) {
                Some(i) => {
                    assert forall|j: int| 0 <= j < i + 1 implies entries[j].0 != k by {
                        if j > 0 {
                            assert(entries[j] == entries.drop_first()[j - 1]);
                        }
                    }
                },
                None => {
                    assert forall|j: int| 0 <= j < entries.len() implies entries[j].0 != k by {
                        if j > 0 {
                            assert(entries[j] == entries.drop_first()[j - 1]);
                        }
                    }
                },
            }
        }
    }
}

pub proof fn lemma_lookup_absent(entries: Seq<(Seq<char>, JsonV)>, k: Seq<char>)
    requires
        forall|j: int| 0 <= j < entries.len() ==> entries[j].0 != k,
    ensures
        lookup(entries, k) is None,
{
    lemma_key_index(entries, k);
    if let Some(i) = key_index(entries, k) {
        assert(entries[i].0 == k);
    }
}

pub proof fn lemma_lookup_at(entries: Seq<(Seq<char>, JsonV)>, k: Seq<char>, i: int)
    requires
        0 <= i < entries.len(),
        entries[i].0 == k,
        forall|j: int| 0 <= j < i ==> entries[j].0 != k,
    ensures
        lookup(entries, k) == Some(entries[i].1),
        key_index(entries, k) == Some(i),
{
    lemma_key_index(entries, k);
    match key_index(entries, k) {
        Some(m) => {
            if m < i {
                assert(entries[m].0 != k);
            } else if m > i {
                assert(entries[i].0 != k);
            }
        },
        None => {
            assert(entries[i].0 != k);
        },
    }
}

impl JsonV {
    /// `Value::get(key)`: the member `key` of an object, `None` otherwise.
    pub open spec fn get(self, k: Seq<char>) -> Option<JsonV> {
        match self {
            JsonV::Object(entries) => lookup(entries, k),
            _ => None,
        }
    }

    pub open spec fn as_str(self) -> Option<Seq<char>> {
        match self {
            JsonV::Str(s) => Some(s),
            _ => None,
        }
    }

    pub open spec fn as_bool(self) -> Option<bool> {
        match self {
            JsonV::Bool(b) => Some(b),
            _ => None,
        }
    }

    pub open spec fn as_array(self) -> Option<Seq<JsonV>> {
        match self {
            JsonV::Array(a) => Some(a),
            _ => None,
        }
    }

    pub open spec fn as_object(self) -> Option<Seq<(Seq<char>, JsonV)>> {
        match self {
            JsonV::Object(o) => Some(o),
            _ => None,
        }
    }
}

/// `v.get(k).and_then(as_str)`.
pub open spec fn get_str(v: JsonV, k: Seq<char>) -> Option<Seq<char>> {
    match v.get(k) {
        Some(x) => x.as_str(),
        None => None,
    }
}

/// `v.get(k).and_then(as_bool)`.
pub open spec fn get_bool(v: JsonV, k: Seq<char>) -> Option<bool> {
    match v.get(k) {
        Some(x) => x.as_bool(),
        None => None,
    }
}

/// `v.get(k).and_then(as_array)`.
pub open spec fn get_array(v: JsonV, k: Seq<char>) -> Option<Seq<JsonV>> {
    match v.get(k) {
        Some(x) => x.as_array(),
        None => None,
    }
}

/// `v.get(k).and_then(as_object)`.
pub open spec fn get_object(v: JsonV, k: Seq<char>) -> Option<Seq<(Seq<char>, JsonV)>> {
    match v.get(k) {
        Some(x) => x.as_object(),
        None => None,
    }
}

/// Inserting `k -> val` into an insertion-ordered map: an existing key keeps
/// its position and takes the new value; a new key goes at the end.
pub open spec fn entries_insert(
    entries: Seq<(Seq<char>, JsonV)>,
    k: Seq<char>,
    val: JsonV,
) -> Seq<(Seq<char>, JsonV)> {
    match key_index(entries, k) {
        Some(i) => entries.update(i, (k, val)),
        None => entries.push((k, val)),
    }
}

/// Reading a key back after inserting it gives the inserted value; other
/// keys are unaffected.
pub proof fn lemma_lookup_insert(
    entries: Seq<(Seq<char>, JsonV)>,
    k: Seq<char>,
    val: JsonV,
    k2: Seq<char>,
)
    ensures
        lookup(entries_insert(entries, k, val), k2) == if k2 == k {
            Some(val)
        } else {
            lookup(entries, k2)
        },
{
    let e2 = entries_insert(entries, k, val);
    lemma_key_index(entries, k);
    lemma_key_index(entries, k2);
    match key_index(entries, k) {
        Some(i) => {
            if k2 == k {
                lemma_lookup_at(e2, k2, i);
            } else {
                match key_index(entries, k2) {
                    Some(j) => {
                        assert forall|m: int| 0 <= m < j implies e2[m].0 != k2 by {
                            if m != i {
                                assert(e2[m] == entries[m]);
                            }
                        }
                        if j != i {
                            assert(e2[j] == entries[j]);
                        }
                        lemma_lookup_at(e2, k2, j);
                    },
                    None => {
                        assert forall|m: int| 0 <= m < e2.len() implies e2[m].0 != k2 by {
                            if m != i {
                                assert(e2[m] == entries[m]);
                            }
                        }
                        lemma_lookup_absent(e2, k2);
                    },
                }
            }
        },
        None => {
            if k2 == k {
                lemma_lookup_at(e2, k2, entries.len() as int);
            } else {
                match key_index(entries, k2) {
                    Some(j) => {
                        assert(e2[j] == entries[j]);
                        lemma_lookup_at(e2, k2, j);
                    },
                    None => {
                        assert forall|m: int| 0 <= m < e2.len() implies e2[m].0 != k2 by {
                            if m < entries.len() {
                                assert(e2[m] == entries[m]);
                            }
                        }
                        lemma_lookup_absent(e2, k2);
                    },
                }
            }
        },
    }
}

// ---------------------------------------------------------------------------
// Executable accessors
// ---------------------------------------------------------------------------

/// Index of the entry stored under `key`.
pub fn find_key(entries: &Vec<(String, Json)>, key: &str) -> (r: Option<usize>)
    ensures
        match r {
            Some(i) => key_index(entries_view(entries@), key@) == Some(i as int),
            None => key_index(entries_view(entries@), key@) is None,
        },
{
    let ghost ev = entries_view(entries@);
    let mut i: usize = 0;
    while i < entries.len()
        invariant
            0 <= i <= entries.len(),
            ev == entries_view(entries@),
            forall|j: int| 0 <= j < i ==> ev[j].0 != key@,
        decreases entries.len() - i,
    {
        if str_eq(entries[i].0.as_str(), key) {
            proof {
                lemma_lookup_at(ev, key@, i as int);
            }
            return Some(i);
        }
        i = i + 1;
    }
    proof {
        lemma_key_index(ev, key@);
        if let Some(m) = key_index(ev, key@) {
            assert(ev[m].0 != key@);
        }
    }
    None
}

/// Whether an object's entries hold `key`.
pub fn has_key(entries: &Vec<(String, Json)>, key: &str) -> (r: bool)
    ensures
        r == (lookup(entries_view(entries@), key@) is Some),
{
    let r = find_key(entries, key);
    proof {
        lemma_key_index(entries_view(entries@), key@);
    }
    r.is_some()
}

/// The value stored under `key` in an object's entries.
pub fn entries_get<'a>(entries: &'a Vec<(String, Json)>, key: &str) -> (r: Option<&'a Json>)
    ensures
        match r {
            Some(v) => lookup(entries_view(entries@), key@) == Some(v@),
            None => lookup(entries_view(entries@), key@) is None,
        },
{
    proof {
        lemma_key_index(entries_view(entries@), key@);
    }
    match find_key(entries, key) {
        Some(i) => Some(&entries[i].1),
        None => None,
    }
}

/// Inserts `key -> val`, replacing the value of an existing entry in place.
pub fn entries_set(entries: &mut Vec<(String, Json)>, key: String, val: Json)
    ensures
        entries_view(final(entries)@) == entries_insert(entries_view(old(entries)@), key@, val@),
{
    let ghost kv = key@;
    let ghost vv = val@;
    proof {
        lemma_key_index(entries_view(entries@), key@);
    }
    match find_key(entries, key.as_str()) {
        Some(i) => {
            entries.set(i, (key, val));
            assert(entries_view(entries@) =~= entries_view(old(entries)@).update(i as int, (kv, vv)));
        },
        None => {
            entries.push((key, val));
            assert(entries_view(entries@) =~= entries_view(old(entries)@).push((kv, vv)));
        },
    }
}

impl Json {
    /// `Value::get(key)` for a string key.
    pub fn get(&self, key: &str) -> (r: Option<&Json>)
        ensures
            match r {
                Some(v) => self@.get(key@) == Some(v@),
                None => self@.get(key@) is None,
            },
    {
        match self {
            Json::Object(entries) => {
                proof {
                    lemma_object_view(entries);
                }
                entries_get(entries, key)
            },
            _ => None,
        }
    }

    pub fn as_str(&self) -> (r: Option<&String>)
        ensures
            match r {
                Some(s) => self@.as_str() == Some(s@),
                None => self@.as_str() is None,
            },
    {
        match self {
            Json::Str(s) => Some(s),
            _ => None,
        }
    }

    pub fn as_bool(&self) -> (r: Option<bool>)
        ensures
            r == self@.as_bool(),
    {
        match self {
            Json::Bool(b) => Some(*b),
            _ => None,
        }
    }

    pub fn as_array(&self) -> (r: Option<&Vec<Json>>)
        ensures
            match r {
                Some(a) => self@.as_array() == Some(json_seq_view(a@)),
                None => self@.as_array() is None,
            },
    {
        match self {
            Json::Array(a) => {
                proof {
                    lemma_array_view(a);
                }
                Some(a)
            },
            _ => None,
        }
    }

    pub fn as_object(&self) -> (r: Option<&Vec<(String, Json)>>)
        ensures
            match r {
                Some(o) => self@.as_object() == Some(entries_view(o@)),
                None => self@.as_object() is None,
            },
    {
        match self {
            Json::Object(o) => {
                proof {
                    lemma_object_view(o);
                }
                Some(o)
            },
            _ => None,
        }
    }

    pub fn is_null(&self) -> (r: bool)
        ensures
            r == (self@ is Null),
    {
        match self {
            Json::Null => true,
            _ => false,
        }
    }

    /// A string value.
    pub fn from_str(s: &str) -> (r: Json)
        ensures
            r@ == JsonV::Str(s@),
    {
        Json::Str(owned(s))
    }

    /// An independent copy of this value.
    pub fn dup(&self) -> (r: Json)
        ensures
            r@ == self@,
        decreases self,
    {
        match self {
            Json::Null => Json::Null,
            Json::Bool(b) => Json::Bool(*b),
            Json::Number(n) => Json::Number(
                match n {
                    JsonNumber::PosInt(u) => JsonNumber::PosInt(*u),
                    JsonNumber::NegInt(i) => JsonNumber::NegInt(*i),
                    JsonNumber::Float(s) => JsonNumber::Float(s.clone()),
                },
            ),
            Json::Str(s) => Json::Str(s.clone()),
            Json::Array(items) => {
                let mut out: Vec<Json> = Vec::new();
                let mut i: usize = 0;
                proof {
                    assert forall|j: int| 0 <= j < items.len() implies decreases_to!(*self => items@[j]) by {
                        assert(decreases_to!(*self => *items));
                        assert(decreases_to!(*items => items@));
                        assert(decreases_to!(items@ => items@[j]));
                    }
                }
                while i < items.len()
                    invariant
                        0 <= i <= items.len(),
                        json_seq_view(out@) == json_seq_view(items@).take(i as int),
                        forall|j: int| 0 <= j < items.len() ==> decreases_to!(*self => items@[j]),
                    decreases items.len() - i,
                {
                    let c = items[i].dup();
                    let ghost prev = out@;
                    out.push(c);
                    assert(json_seq_view(out@) =~= json_seq_view(prev).push(c@));
                    i = i + 1;
                    assert(json_seq_view(out@) =~= json_seq_view(items@).take(i as int));
                }
                proof {
                    lemma_array_view(items);
                    lemma_array_view(&out);
                    assert(json_seq_view(items@).take(items.len() as int) == json_seq_view(
                        items@,
                    ));
                }
                Json::Array(out)
            },
            Json::Object(entries) => {
                let mut out: Vec<(String, Json)> = Vec::new();
                let mut i: usize = 0;
                proof {
                    assert forall|j: int| 0 <= j < entries.len() implies decreases_to!(*self => entries@[j].1) by {
                        assert(decreases_to!(*self => *entries));
                        assert(decreases_to!(*entries => entries@));
                        assert(decreases_to!(entries@ => entries@[j]));
                        assert(decreases_to!(entries@[j] => entries@[j].1));
                    }
                }
                while i < entries.len()
                    invariant
                        0 <= i <= entries.len(),
                        entries_view(out@) == entries_view(entries@).take(i as int),
                        forall|j: int| 0 <= j < entries.len() ==> decreases_to!(*self => entries@[j].1),
                    decreases entries.len() - i,
                {
                    let k = entries[i].0.clone();
                    let v = entries[i].1.dup();
                    let ghost prev = out@;
                    out.push((k, v));
                    assert(entries_view(out@) =~= entries_view(prev).push((k@, v@)));
                    i = i + 1;
                    assert(entries_view(out@) =~= entries_view(entries@).take(i as int));
                }
                proof {
                    lemma_object_view(entries);
                    lemma_object_view(&out);
                    assert(entries_view(entries@).take(entries.len() as int) == entries_view(
                        entries@,
                    ));
                }
                Json::Object(out)
            },
            Json::Tagged(t, b) => {
                let inner = (**b).dup();
                Json::Tagged(t.clone(), Box::new(inner))
            },
        }
    }
}

/// Copies of a slice of values.
pub fn dup_all(items: &Vec<Json>) -> (r: Vec<Json>)
    ensures
        json_seq_view(r@) == json_seq_view(items@),
{
    let mut out: Vec<Json> = Vec::new();
    let mut i: usize = 0;
    while i < items.len()
        invariant
            0 <= i <= items.len(),
            json_seq_view(out@) == json_seq_view(items@).take(i as int),
        decreases items.len() - i,
    {
        let c = items[i].dup();
        let ghost prev = out@;
        out.push(c);
        assert(out@ == prev.push(c));
        assert(json_seq_view(out@) =~= json_seq_view(prev).push(c@));
        i = i + 1;
        assert(json_seq_view(out@) =~= json_seq_view(items@).take(i as int));
    }
    assert(json_seq_view(items@).take(items.len() as int) == json_seq_view(items@));
    out
}

/// Copies of an object's entries.
pub fn dup_entries(entries: &Vec<(String, Json)>) -> (r: Vec<(String, Json)>)
    ensures
        entries_view(r@) == entries_view(entries@),
{
    let mut out: Vec<(String, Json)> = Vec::new();
    let mut i: usize = 0;
    while i < entries.len()
        invariant
            0 <= i <= entries.len(),
            entries_view(out@) == entries_view(entries@).take(i as int),
        decreases entries.len() - i,
    {
        let k = entries[i].0.clone();
        let v = entries[i].1.dup();
        let ghost prev = out@;
        out.push((k, v));
        assert(entries_view(out@) =~= entries_view(prev).push((k@, v@)));
        i = i + 1;
        assert(entries_view(out@) =~= entries_view(entries@).take(i as int));
    }
    assert(entries_view(entries@).take(entries.len() as int) == entries_view(entries@));
    out
}

// ---------------------------------------------------------------------------
// Reading JSON and YAML text (serde_json's and serde_yaml's parsers)
// ---------------------------------------------------------------------------

#[verifier::external_type_specification]
#[verifier::external_body]
pub struct ExYamlValue(serde_yaml::Value);

/// What `serde_json::from_slice::<serde_json::Value>` gives for `bytes`: the
/// document, or the text of the error it reports.
pub uninterp spec fn json_parse(bytes: Seq<u8>) -> Result<JsonV, Seq<char>>;

/// What `serde_yaml::from_str::<serde_yaml::Value>` gives for `text`, as a
/// document: `None` when it reports an error.
pub uninterp spec fn yaml_parse(text: Seq<char>) -> Option<JsonV>;

/// A `serde_json::Value` as the document it is: member order kept, an
/// integer as `u64` or `i64`, any other number as its display text.
#[verifier::external_body]
fn from_serde(v: &serde_json::Value) -> (r: Json) {
    match v {
        serde_json::Value::Null => Json::Null,
        serde_json::Value::Bool(b) => Json::Bool(*b),
        serde_json::Value::Number(n) => Json::Number(from_serde_number(n)),
        serde_json::Value::String(s) => Json::Str(s.clone()),
        serde_json::Value::Array(a) => Json::Array(a.iter().map(from_serde).collect()),
        serde_json::Value::Object(o) => Json::Object(o.iter().map(|(k, x)| (k.clone(), from_serde(x))).collect()),
    }
}

/// A `serde_yaml::Value` as a document: a mapping key that is not a string
/// is written as its debug text, a tag as its `!tag` text, a number as by
/// [`from_yaml_number`].
#[verifier::external_body]
fn from_yaml(v: &serde_yaml::Value) -> (r: Json) {
    match v {
        serde_yaml::Value::Null => Json::Null,
        serde_yaml::Value::Bool(b) => Json::Bool(*b),
        serde_yaml::Value::Number(n) => Json::Number(from_yaml_number(n)),
        serde_yaml::Value::String(s) => Json::Str(s.clone()),
        serde_yaml::Value::Sequence(a) => Json::Array(a.iter().map(from_yaml).collect()),
        serde_yaml::Value::Mapping(m) => Json::Object(m.iter().map(|(k, x)| (yaml_key(k), from_yaml(x))).collect()),
        serde_yaml::Value::Tagged(t) => Json::Tagged(t.tag.to_string(), Box::new(from_yaml(&t.value))),
    }
}

#[verifier::external_type_specification]
#[verifier::external_body]
pub struct ExNumber(serde_json::Number);

#[verifier::external_type_specification]
#[verifier::external_body]
pub struct ExYamlNumber(serde_yaml::Number);

/// A `serde_json` number: an integer as `u64` or `i64`, any other number as
/// its display text.
#[verifier::external_body]
fn from_serde_number(n: &serde_json::Number) -> (r: JsonNumber) {
    match (n.as_u64(), n.as_i64()) {
        (Some(u), _) => JsonNumber::PosInt(u),
        (None, Some(i)) => JsonNumber::NegInt(i),
        (None, None) => JsonNumber::Float(n.to_string()),
    }
}

/// A `serde_yaml` number, as for [`from_serde_number`].
#[verifier::external_body]
fn from_yaml_number(n: &serde_yaml::Number) -> (r: JsonNumber) {
    match (n.as_u64(), n.as_i64()) {
        (Some(u), _) => JsonNumber::PosInt(u),
        (None, Some(i)) => JsonNumber::NegInt(i),
        (None, None) => JsonNumber::Float(n.to_string()),
    }
}

/// A YAML mapping key as text: a string as itself, anything else as its
/// debug text.
#[verifier::external_body]
fn yaml_key(k: &serde_yaml::Value) -> (r: String) {
    match k {
        serde_yaml::Value::String(s) => s.clone(),
        other => format!("{other:?}"),
    }
}

/// `serde_json::from_slice::<serde_json::Value>(bytes)`: the document, or the
/// error's text. Named by [`json_parse`].
#[verifier::external_body]
pub(crate) fn parse_json_bytes(bytes: &[u8]) -> (r: Result<Json, String>)
    ensures
        match r {
            Ok(j) => json_parse(bytes@) == Ok::<JsonV, Seq<char>>(j@),
            Err(m) => json_parse(bytes@) == Err::<JsonV, Seq<char>>(m@),
        },
{
    match serde_json::from_slice::<serde_json::Value>(bytes) {
        Ok(v) => Ok(from_serde(&v)),
        Err(e) => Err(e.to_string()),
    }
}

/// `serde_yaml::from_str::<serde_yaml::Value>(text)`, `None` on an error.
/// Named by [`yaml_parse`].
#[verifier::external_body]
pub(crate) fn parse_yaml_text(text: &str) -> (r: Option<Json>)
    ensures
        match r {
            Some(j) => yaml_parse(text@) == Some(j@),
            None => yaml_parse(text@) is None,
        },
{
    serde_yaml::from_str::<serde_yaml::Value>(text).ok().map(|v| from_yaml(&v))
}

// ---------------------------------------------------------------------------
// JSON text (serde_json's compact and pretty writers)
// ---------------------------------------------------------------------------

#[verifier::external_type_specification]
#[verifier::external_body]
pub struct ExValue(serde_json::Value);

/// What `serde_json::to_string` writes for the value `v` stands for.
pub uninterp spec fn json_text(v: JsonV) -> Seq<char>;

/// What `serde_json::to_string_pretty` writes for the value `v` stands for.
pub uninterp spec fn pretty_text(v: JsonV) -> Seq<char>;

/// The `serde_json::Value` a document stands for: member order kept, a
/// non-integer number read back from its text, a YAML tag dropped for its
/// inner value. Nothing is promised of the result beyond its being that value.
#[verifier::external_body]
pub(crate) fn to_serde(v: &Json) -> (r: serde_json::Value) {
    match v {
        Json::Null => serde_json::Value::Null,
        Json::Bool(b) => serde_json::Value::Bool(*b),
        Json::Number(n) => number_to_serde(n),
        Json::Str(s) => serde_json::Value::String(s.clone()),
        Json::Array(a) => serde_json::Value::Array(a.iter().map(to_serde).collect()),
        Json::Object(o) => serde_json::Value::Object(o.iter().map(|(k, x)| (k.clone(), to_serde(x))).collect()),
        Json::Tagged(_, inner) => to_serde(inner),
    }
}

/// The `serde_json` number a [`JsonNumber`] stands for (a non-integer read
/// back from its text). Nothing is promised of the result.
#[verifier::external_body]
fn number_to_serde(n: &JsonNumber) -> (r: serde_json::Value) {
    match n {
        JsonNumber::PosInt(u) => serde_json::Value::from(*u),
        JsonNumber::NegInt(i) => serde_json::Value::from(*i),
        JsonNumber::Float(t) => serde_json::from_str(t).unwrap_or(serde_json::Value::Null),
    }
}

/// `serde_json::to_string` of the value `v` stands for; the contract names
/// the text [`json_text`]. Serialising a `Value` cannot fail.
#[verifier::external_body]
pub(crate) fn serde_to_string(v: &Json) -> (r: String)
    ensures
        r@ == json_text(v@),
{
    serde_json::to_string(&to_serde(v)).unwrap_or_default()
}

/// `serde_json::to_string_pretty` of the value `v` stands for; the contract
/// names the text [`pretty_text`].
#[verifier::external_body]
pub(crate) fn serde_to_string_pretty(v: &Json) -> (r: String)
    ensures
        r@ == pretty_text(v@),
{
    serde_json::to_string_pretty(&to_serde(v)).unwrap_or_default()
}

/// The compact JSON text of `v`.
pub fn to_json_text(v: &Json) -> (r: String)
    ensures
        r@ == json_text(v@),
{
    serde_to_string(v)
}

/// The pretty JSON text of `v` (two-space indentation).
pub fn to_pretty_text(v: &Json) -> (r: String)
    ensures
        r@ == pretty_text(v@),
{
    serde_to_string_pretty(v)
}

fn num_eq(a: &JsonNumber, b: &JsonNumber) -> (r: bool)
    ensures
        r == (a@ == b@),
{
    match (a, b) {
        (JsonNumber::PosInt(x), JsonNumber::PosInt(y)) => *x == *y,
        (JsonNumber::NegInt(x), JsonNumber::NegInt(y)) => *x == *y,
        (JsonNumber::Float(x), JsonNumber::Float(y)) => str_eq(x.as_str(), y.as_str()),
        _ => false,
    }
}

/// Whether two values are equal (same shape, same members in the same
/// order). For numbers this compares the variant and value/text.
pub fn json_eq(a: &Json, b: &Json) -> (r: bool)
    ensures
        r == (a@ == b@),
    decreases a,
{
    match (a, b) {
        (Json::Null, Json::Null) => true,
        (Json::Bool(x), Json::Bool(y)) => *x == *y,
        (Json::Number(x), Json::Number(y)) => num_eq(x, y),
        (Json::Str(x), Json::Str(y)) => str_eq(x.as_str(), y.as_str()),
        (Json::Array(xs), Json::Array(ys)) => {
            proof {
                lemma_array_view(xs);
                lemma_array_view(ys);
            }
            if xs.len() != ys.len() {
                assert(json_seq_view(xs@).len() != json_seq_view(ys@).len());
                return false;
            }
            proof {
                assert forall|j: int| 0 <= j < xs.len() implies decreases_to!(*a => xs@[j]) by {
                    assert(decreases_to!(*a => *xs));
                    assert(decreases_to!(*xs => xs@));
                    assert(decreases_to!(xs@ => xs@[j]));
                }
            }
            let mut i: usize = 0;
            while i < xs.len()
                invariant
                    xs.len() == ys.len(),
                    0 <= i <= xs.len(),
                    forall|j: int| 0 <= j < i ==> xs@[j]@ == ys@[j]@,
                    forall|j: int| 0 <= j < xs.len() ==> decreases_to!(*a => xs@[j]),
                    a@ == JsonV::Array(json_seq_view(xs@)),
                    b@ == JsonV::Array(json_seq_view(ys@)),
                decreases xs.len() - i,
            {
                if !json_eq(&xs[i], &ys[i]) {
                    assert(json_seq_view(xs@)[i as int] != json_seq_view(ys@)[i as int]);
                    return false;
                }
                i = i + 1;
            }
            assert(json_seq_view(xs@) =~= json_seq_view(ys@));
            true
        },
        (Json::Object(xs), Json::Object(ys)) => {
            proof {
                lemma_object_view(xs);
                lemma_object_view(ys);
            }
            if xs.len() != ys.len() {
                assert(entries_view(xs@).len() != entries_view(ys@).len());
                return false;
            }
            proof {
                assert forall|j: int| 0 <= j < xs.len() implies decreases_to!(*a => xs@[j].1) by {
                    assert(decreases_to!(*a => *xs));
                    assert(decreases_to!(*xs => xs@));
                    assert(decreases_to!(xs@ => xs@[j]));
                    assert(decreases_to!(xs@[j] => xs@[j].1));
                }
            }
            let mut i: usize = 0;
            while i < xs.len()
                invariant
                    xs.len() == ys.len(),
                    0 <= i <= xs.len(),
                    forall|j: int| 0 <= j < i ==> xs@[j].0@ == ys@[j].0@ && xs@[j].1@ == ys@[j].1@,
                    forall|j: int| 0 <= j < xs.len() ==> decreases_to!(*a => xs@[j].1),
                    a@ == JsonV::Object(entries_view(xs@)),
                    b@ == JsonV::Object(entries_view(ys@)),
                decreases xs.len() - i,
            {
                if !str_eq(xs[i].0.as_str(), ys[i].0.as_str()) {
                    assert(entries_view(xs@)[i as int] != entries_view(ys@)[i as int]);
                    return false;
                }
                if !json_eq(&xs[i].1, &ys[i].1) {
                    assert(entries_view(xs@)[i as int] != entries_view(ys@)[i as int]);
                    return false;
                }
                i = i + 1;
            }
            assert(entries_view(xs@) =~= entries_view(ys@));
            true
        },
        (Json::Tagged(t, x), Json::Tagged(u, y)) => {
            if !str_eq(t.as_str(), u.as_str()) {
                return false;
            }
            json_eq(&**x, &**y)
        },
        _ => false,
    }
}

/// Whether `item` equals some element of `items`.
pub fn json_contains(items: &Vec<Json>, item: &Json) -> (r: bool)
    ensures
        r == json_seq_view(items@).contains(item@),
{
    let mut i: usize = 0;
    while i < items.len()
        invariant
            0 <= i <= items.len(),
            forall|j: int| 0 <= j < i ==> items@[j]@ != item@,
        decreases items.len() - i,
    {
        if json_eq(&items[i], item) {
            assert(json_seq_view(items@)[i as int] == item@);
            return true;
        }
        i = i + 1;
    }
    assert forall|j: int| 0 <= j < json_seq_view(items@).len() implies json_seq_view(
        items@,
    )[j] != item@ by {}
    false
}

} // verus!
