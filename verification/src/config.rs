//! Configuration values with four-tier precedence: command-line flags, then
//! environment variables, then the `apcore.yaml` file (dot-flattened keys),
//! then built-in defaults.
//!
//! Reading the file and the environment is the caller's part: a resolver is
//! built from the file's flattened entries and parsed document, and each
//! lookup is handed the environment variable's value.
use vstd::prelude::*;
use crate::json::{Json, JsonV, entries_view, json_text, to_json_text, lemma_object_view, yaml_parse, parse_yaml_text};
use crate::text::{
    owned, concat3, str_eq, pair_get, pair_set, first_index, lemma_first_index, str_pairs_view,
    find_str_pair, set_str_pair, split_seq, split_chars, chars_of, views_of, string_from_chars,
    u64_to_string, i64_to_string,
};

use crate::text::{opt_view};

verus! {

/// Built-in default values.
pub const DEFAULTS: [(&'static str, &'static str); 9] = [
    ("extensions.root", "./extensions"),
    ("logging.level", "WARNING"),
    ("cli.help_text_max_length", "1000"),
    ("cli.approval_timeout", "60"),
    ("cli.strategy", "standard"),
    ("cli.group_depth", "1"),
    ("expose.mode", "all"),
    ("expose.include", "[]"),
    ("expose.exclude", "[]"),
];

/// Namespace key ↔ legacy key pairs, looked up in either direction.
pub const NAMESPACE_MAP: [(&'static str, &'static str); 4] = [
    ("apcore-cli.stdin_buffer_limit", "cli.stdin_buffer_limit"),
    ("apcore-cli.auto_approve", "cli.auto_approve"),
    ("apcore-cli.help_text_max_length", "cli.help_text_max_length"),
    ("apcore-cli.logging_level", "logging.level"),
];

pub open spec fn namespace_map() -> Seq<(Seq<char>, Seq<char>)> {
    seq![
        ("apcore-cli.stdin_buffer_limit"@, "cli.stdin_buffer_limit"@),
        ("apcore-cli.auto_approve"@, "cli.auto_approve"@),
        ("apcore-cli.help_text_max_length"@, "cli.help_text_max_length"@),
        ("apcore-cli.logging_level"@, "logging.level"@),
    ]
}

/// The other name of a key, scanning the map in order.
pub open spec fn alternate_from(m: Seq<(Seq<char>, Seq<char>)>, key: Seq<char>) -> Option<Seq<char>>
    decreases m.len(),
{
    if m.len() == 0 {
        None
    } else if key == m[0].0 {
        Some(m[0].1)
    } else if key == m[0].1 {
        Some(m[0].0)
    } else {
        alternate_from(m.drop_first(), key)
    }
}

/// Resolves configuration values.
pub struct ConfigResolver {
    /// CLI flag name → value (`None`: the flag was not given a value).
    pub cli_flags: Vec<(String, Option<String>)>,
    /// The config file's dot-flattened entries; `None` when there is no
    /// usable file.
    pub config_file: Option<Vec<(String, String)>>,
    /// The config file's parsed document, for object-valued lookups.
    config_yaml: Option<Json>,
    /// Built-in defaults.
    pub defaults: Vec<(String, String)>,
}

pub struct ConfigV {
    pub cli_flags: Seq<(Seq<char>, Option<Seq<char>>)>,
    pub config_file: Option<Seq<(Seq<char>, Seq<char>)>>,
    pub config_yaml: Option<JsonV>,
    pub defaults: Seq<(Seq<char>, Seq<char>)>,
}

pub open spec fn flags_view(v: Seq<(String, Option<String>)>) -> Seq<(Seq<char>, Option<Seq<char>>)> {
    v.map_values(|e: (String, Option<String>)| (e.0@, opt_view(e.1)))
}

impl View for ConfigResolver {
    type V = ConfigV;

    closed spec fn view(&self) -> ConfigV {
        ConfigV {
            cli_flags: flags_view(self.cli_flags@),
            config_file: match self.config_file {
                Some(f) => Some(str_pairs_view(f@)),
                None => None,
            },
            config_yaml: match self.config_yaml {
                Some(j) => Some(j@),
                None => None,
            },
            defaults: str_pairs_view(self.defaults@),
        }
    }
}

pub open spec fn defaults_view() -> Seq<(Seq<char>, Seq<char>)> {
    seq![
        ("extensions.root"@, "./extensions"@),
        ("logging.level"@, "WARNING"@),
        ("cli.help_text_max_length"@, "1000"@),
        ("cli.approval_timeout"@, "60"@),
        ("cli.strategy"@, "standard"@),
        ("cli.group_depth"@, "1"@),
        ("expose.mode"@, "all"@),
        ("expose.include"@, "[]"@),
        ("expose.exclude"@, "[]"@),
    ]
}

/// What [`ConfigResolver::resolve`] returns.
pub open spec fn resolve_spec(
    c: ConfigV,
    key: Seq<char>,
    cli_flag: Option<Seq<char>>,
    env: Option<Seq<char>>,
) -> Option<Seq<char>> {
    let tier1 = match cli_flag {
        Some(f) => match pair_get(c.cli_flags, f) {
            Some(Some(v)) => Some(v),
            _ => None,
        },
        None => None,
    };
    if tier1 is Some {
        tier1
    } else if env is Some && env->0.len() > 0 {
        env
    } else {
        let tier3 = match c.config_file {
            Some(m) => match pair_get(m, key) {
                Some(v) => Some(v),
                None => match alternate_from(namespace_map(), key) {
                    Some(alt) => pair_get(m, alt),
                    None => None,
                },
            },
            None => None,
        };
        if tier3 is Some {
            tier3
        } else {
            pair_get(c.defaults, key)
        }
    }
}

fn flag_value<'a>(flags: &'a Vec<(String, Option<String>)>, name: &str) -> (r: Option<&'a Option<String>>)
    ensures
        match r {
            Some(v) => pair_get(flags_view(flags@), name@) == Some(opt_view(*v)),
            None => pair_get(flags_view(flags@), name@) is None,
        },
{
    let ghost fv = flags_view(flags@);
    let mut i: usize = 0;
    while i < flags.len()
        invariant
            0 <= i <= flags.len(),
            fv == flags_view(flags@),
            forall|j: int| 0 <= j < i ==> #[trigger] fv[j].0 != name@,
        decreases flags.len() - i,
    {
        if str_eq(flags[i].0.as_str(), name) {
            proof {
                crate::text::lemma_first_index_at(fv, name@, i as int);
            }
            return Some(&flags[i].1);
        }
        i = i + 1;
    }
    proof {
        lemma_first_index(fv, name@);
        if let Some(k) = first_index(fv, name@) {
            assert(fv[k].0 == name@);
        }
    }
    None
}

pub(crate) fn str_pair_value<'a>(m: &'a Vec<(String, String)>, key: &str) -> (r: Option<&'a String>)
    ensures
        match r {
            Some(v) => pair_get(str_pairs_view(m@), key@) == Some(v@),
            None => pair_get(str_pairs_view(m@), key@) is None,
        },
{
    proof {
        lemma_first_index(str_pairs_view(m@), key@);
    }
    match find_str_pair(m, key) {
        Some(i) => Some(&m[i].1),
        None => None,
    }
}

impl ConfigResolver {
    /// A resolver over the given CLI flags, the config file's flattened
    /// entries and parsed document, and the built-in [`DEFAULTS`].
    pub fn new(
        cli_flags: Option<Vec<(String, Option<String>)>>,
        config_file: Option<Vec<(String, String)>>,
        config_yaml: Option<Json>,
    ) -> (r: Self)
        ensures
            r@.cli_flags == match cli_flags {
                Some(f) => flags_view(f@),
                None => Seq::empty(),
            },
            r@.config_file == match config_file {
                Some(f) => Some(str_pairs_view(f@)),
                None => None,
            },
            r@.config_yaml == match config_yaml {
                Some(j) => Some(j@),
                None => None,
            },
            r@.defaults == defaults_view(),
    {
        let mut defaults: Vec<(String, String)> = Vec::new();
        let mut i: usize = 0;
        while i < 9
            invariant
                0 <= i <= 9,
                str_pairs_view(defaults@) == defaults_view().take(i as int),
            decreases 9 - i,
        {
            let (k, v) = DEFAULTS[i];
            proof {
                reveal_strlit("extensions.root");
                reveal_strlit("./extensions");
                reveal_strlit("logging.level");
                reveal_strlit("WARNING");
                reveal_strlit("cli.help_text_max_length");
                reveal_strlit("1000");
                reveal_strlit("cli.approval_timeout");
                reveal_strlit("60");
                reveal_strlit("cli.strategy");
                reveal_strlit("standard");
                reveal_strlit("cli.group_depth");
                reveal_strlit("1");
                reveal_strlit("expose.mode");
                reveal_strlit("all");
                reveal_strlit("expose.include");
                reveal_strlit("[]");
                reveal_strlit("expose.exclude");
                assert(k@ == defaults_view()[i as int].0 && v@ == defaults_view()[i as int].1);
            }
            let ghost prev = defaults@;
            let kk = owned(k);
            let vv = owned(v);
            defaults.push((kk, vv));
            assert(str_pairs_view(defaults@) =~= str_pairs_view(prev).push((k@, v@)));
            assert(defaults_view().take(i + 1) =~= defaults_view().take(i as int).push(defaults_view()[i as int]));
            i = i + 1;
        }
        assert(defaults_view().take(9) =~= defaults_view());
        let flags = match cli_flags {
            Some(f) => f,
            None => Vec::new(),
        };
        let r = ConfigResolver { cli_flags: flags, config_file, config_yaml, defaults };
        assert(flags_view(r.cli_flags@).len() == r.cli_flags@.len());
        proof {
            if r.cli_flags@.len() == 0 {
                assert(flags_view(r.cli_flags@) =~= Seq::<(Seq<char>, Option<Seq<char>>)>::empty());
            }
        }
        r
    }

    /// Look up the alternate (namespace ↔ legacy) key.
    pub fn alternate_key(key: &str) -> (r: Option<&'static str>)
        ensures
            match r {
                Some(a) => alternate_from(namespace_map(), key@) == Some(a@),
                None => alternate_from(namespace_map(), key@) is None,
            },
    {
        let ghost nm = namespace_map();
        let mut i: usize = 0;
        assert(nm.skip(0) =~= nm);
        while i < 4
            invariant
                0 <= i <= 4,
                nm == namespace_map(),
                alternate_from(nm, key@) == alternate_from(nm.skip(i as int), key@),
            decreases 4 - i,
        {
            let (ns, legacy) = NAMESPACE_MAP[i];
            proof {
                reveal_strlit("apcore-cli.stdin_buffer_limit");
                reveal_strlit("cli.stdin_buffer_limit");
                reveal_strlit("apcore-cli.auto_approve");
                reveal_strlit("cli.auto_approve");
                reveal_strlit("apcore-cli.help_text_max_length");
                reveal_strlit("cli.help_text_max_length");
                reveal_strlit("apcore-cli.logging_level");
                reveal_strlit("logging.level");
                assert(ns@ == nm[i as int].0 && legacy@ == nm[i as int].1);
                assert(nm.skip(i as int)[0] == nm[i as int]);
                assert(nm.skip(i as int).drop_first() == nm.skip(i + 1));
            }
            if str_eq(key, ns) {
                return Some(legacy);
            }
            if str_eq(key, legacy) {
                return Some(ns);
            }
            i = i + 1;
        }
        assert(nm.skip(4).len() == 0);
        None
    }

    /// The config file's value under exactly `key`.
    pub fn file_value(&self, key: &str) -> (r: Option<String>)
        ensures
            opt_view(r) == match self@.config_file {
                Some(m) => pair_get(m, key@),
                None => None,
            },
    {
        match &self.config_file {
            Some(m) => match str_pair_value(m, key) {
                Some(v) => Some(v.clone()),
                None => None,
            },
            None => None,
        }
    }

    /// The built-in default under `key`.
    pub fn resolve_default(&self, key: &str) -> (r: Option<String>)
        ensures
            opt_view(r) == pair_get(self@.defaults, key@),
    {
        match str_pair_value(&self.defaults, key) {
            Some(v) => Some(v.clone()),
            None => None,
        }
    }

    /// Resolve a value: the CLI flag's value (when the flag was given one),
    /// else a non-empty environment value `env`, else the config file's value
    /// under `key` or its alternate key, else the built-in default.
    pub fn resolve(&self, key: &str, cli_flag: Option<&str>, env: Option<&str>) -> (r: Option<String>)
        ensures
            opt_view(r) == resolve_spec(
                self@,
                key@,
                match cli_flag {
                    Some(f) => Some(f@),
                    None => None,
                },
                match env {
                    Some(e) => Some(e@),
                    None => None,
                },
            ),
    {
        match cli_flag {
            Some(flag) => match flag_value(&self.cli_flags, flag) {
                Some(Some(v)) => {
                    return Some(v.clone());
                },
                _ => {},
            },
            None => {},
        }
        match env {
            Some(e) => {
                if !e.is_empty() {
                    return Some(owned(e));
                }
            },
            None => {},
        }
        match &self.config_file {
            Some(m) => {
                match str_pair_value(m, key) {
                    Some(v) => {
                        return Some(v.clone());
                    },
                    None => {},
                }
                match Self::alternate_key(key) {
                    Some(alt) => match str_pair_value(m, alt) {
                        Some(v) => {
                            return Some(v.clone());
                        },
                        None => {},
                    },
                    None => {},
                }
            },
            None => {},
        }
        match str_pair_value(&self.defaults, key) {
            Some(v) => Some(v.clone()),
            None => None,
        }
    }

    /// The raw value at a dot-path of the config document (only the file
    /// tier: flags and environment carry scalars). `None` when there is no
    /// document or the path leaves the mappings.
    pub fn resolve_object(&self, key: &str) -> (r: Option<Json>)
        ensures
            match r {
                Some(v) => Some(v@) == object_at(self@.config_yaml, split_seq(key@, '.')),
                None => object_at(self@.config_yaml, split_seq(key@, '.')) is None,
            },
    {
        let root = match &self.config_yaml {
            Some(r) => r,
            None => {
                return None;
            },
        };
        let parts = split_chars(&chars_of(key), '.');
        let ghost pv = views_of(parts@);
        let mut cursor: &Json = root;
        let mut i: usize = 0;
        assert(pv.skip(0) =~= pv);
        while i < parts.len()
            invariant
                0 <= i <= parts.len(),
                pv == views_of(parts@),
                pv == split_seq(key@, '.'),
                self@.config_yaml == Some(root@),
                walk(root@, pv) == walk(cursor@, pv.skip(i as int)),
            decreases parts.len() - i,
        {
            assert(pv.skip(i as int)[0] == parts@[i as int]@);
            assert(pv.skip(i as int).drop_first() == pv.skip(i + 1));
            match cursor {
                Json::Object(_) => {},
                _ => {
                    return None;
                },
            }
            let seg = string_from_chars(&parts[i]);
            match cursor.get(seg.as_str()) {
                Some(next) => {
                    cursor = next;
                },
                None => {
                    return None;
                },
            }
            i = i + 1;
        }
        assert(pv.skip(i as int).len() == 0);
        Some(cursor.dup())
    }

    /// A resolver over the given CLI flags and the text of the config file
    /// (`None`: no readable file). The text is parsed as YAML; a document
    /// that parses is kept for object-valued lookups, and when it is a
    /// mapping its dot-flattened entries are the file tier (a malformed file
    /// or another root gives no file tier).
    pub fn from_config_text(cli_flags: Option<Vec<(String, Option<String>)>>, text: Option<&str>) -> (r: Self)
        ensures
            ({
                let doc = match text {
                    Some(t) => yaml_parse(t@),
                    None => None,
                };
                &&& r@.cli_flags == match cli_flags {
                    Some(f) => flags_view(f@),
                    None => Seq::empty(),
                }
                &&& r@.config_yaml == doc
                &&& r@.config_file == match doc {
                    Some(JsonV::Object(e)) => Some(
                        apply_pairs(Seq::empty(), flatten_ops(JsonV::Object(e), Seq::empty())),
                    ),
                    _ => None,
                }
                &&& r@.defaults == defaults_view()
            }),
    {
        let doc = match text {
            Some(t) => parse_yaml_text(t),
            None => None,
        };
        match doc {
            Some(d) => {
                let is_map = match &d {
                    Json::Object(_) => true,
                    _ => false,
                };
                if is_map {
                    let out: Vec<(String, String)> = Vec::new();
                    assert(str_pairs_view(out@) =~= Seq::<(Seq<char>, Seq<char>)>::empty());
                    proof {
                        reveal_strlit("");
                        assert(""@ =~= Seq::<char>::empty());
                    }
                    let file = flatten_into(&d, "", out);
                    ConfigResolver::new(cli_flags, Some(file), Some(d))
                } else {
                    ConfigResolver::new(cli_flags, None, Some(d))
                }
            },
            None => ConfigResolver::new(cli_flags, None, None),
        }
    }

    /// Flatten a nested JSON object into dot-separated keys (scalars as
    /// their text, `null` as the empty string, arrays as their JSON text).
    pub fn flatten_dict(&self, map: &Json) -> (r: Vec<(String, String)>)
        ensures
            str_pairs_view(r@) == apply_pairs(Seq::empty(), flatten_ops(map@, Seq::empty())),
    {
        let out: Vec<(String, String)> = Vec::new();
        assert(str_pairs_view(out@) =~= Seq::<(Seq<char>, Seq<char>)>::empty());
        proof {
            reveal_strlit("");
            assert(""@ =~= Seq::<char>::empty());
        }
        flatten_into(map, "", out)
    }
}

/// Follow `parts` through nested mappings.
pub open spec fn walk(v: JsonV, parts: Seq<Seq<char>>) -> Option<JsonV>
    decreases parts.len(),
{
    if parts.len() == 0 {
        Some(v)
    } else {
        match v {
            JsonV::Object(_) => match v.get(parts[0]) {
                Some(next) => walk(next, parts.drop_first()),
                None => None,
            },
            _ => None,
        }
    }
}

pub open spec fn object_at(doc: Option<JsonV>, parts: Seq<Seq<char>>) -> Option<JsonV> {
    match doc {
        Some(d) => walk(d, parts),
        None => None,
    }
}

/// The key for `k` under `prefix`.
pub open spec fn join_key(prefix: Seq<char>, k: Seq<char>) -> Seq<char> {
    if prefix.len() == 0 {
        k
    } else {
        prefix + "."@ + k
    }
}

/// The text a flattened leaf is stored as.
pub open spec fn leaf_text(v: JsonV) -> Seq<char> {
    match v {
        JsonV::Bool(b) => if b {
            "true"@
        } else {
            "false"@
        },
        JsonV::Str(s) => s,
        JsonV::Null => Seq::empty(),
        _ => json_text(v),
    }
}

/// The insertions flattening performs, in order.
pub open spec fn flatten_ops(v: JsonV, prefix: Seq<char>) -> Seq<(Seq<char>, Seq<char>)>
    decreases v, 1nat,
{
    match v {
        JsonV::Object(entries) => flatten_entries(entries, prefix),
        _ => seq![(prefix, leaf_text(v))],
    }
}

pub open spec fn flatten_entries(
    entries: Seq<(Seq<char>, JsonV)>,
    prefix: Seq<char>,
) -> Seq<(Seq<char>, Seq<char>)>
    decreases entries, 0nat,
{
    if entries.len() == 0 {
        Seq::empty()
    } else {
        flatten_entries(entries.drop_last(), prefix) + flatten_ops(
            entries.last().1,
            join_key(prefix, entries.last().0),
        )
    }
}

/// Insert each pair in turn (a later value for a key replaces the earlier).
pub open spec fn apply_pairs(
    m: Seq<(Seq<char>, Seq<char>)>,
    ops: Seq<(Seq<char>, Seq<char>)>,
) -> Seq<(Seq<char>, Seq<char>)>
    decreases ops.len(),
{
    if ops.len() == 0 {
        m
    } else {
        pair_set(apply_pairs(m, ops.drop_last()), ops.last().0, ops.last().1)
    }
}

proof fn lemma_apply_pairs_concat(
    m: Seq<(Seq<char>, Seq<char>)>,
    a: Seq<(Seq<char>, Seq<char>)>,
    b: Seq<(Seq<char>, Seq<char>)>,
)
    ensures
        apply_pairs(m, a + b) == apply_pairs(apply_pairs(m, a), b),
    decreases b.len(),
{
    if b.len() == 0 {
        assert(a + b =~= a);
    } else {
        lemma_apply_pairs_concat(m, a, b.drop_last());
        assert((a + b).drop_last() =~= a + b.drop_last());
        assert((a + b).last() == b.last());
    }
}

fn leaf_string(v: &Json) -> (r: String)
    ensures
        r@ == leaf_text(v@),
{
    match v {
        Json::Bool(b) => if *b {
            owned("true")
        } else {
            owned("false")
        },
        Json::Str(s) => s.clone(),
        Json::Null => String::new(),
        _ => to_json_text(v),
    }
}

fn flatten_into(v: &Json, prefix: &str, out: Vec<(String, String)>) -> (r: Vec<(String, String)>)
    ensures
        str_pairs_view(r@) == apply_pairs(str_pairs_view(out@), flatten_ops(v@, prefix@)),
    decreases v,
{
    match v {
        Json::Object(entries) => {
            proof {
                lemma_object_view(entries);
            }
            let ghost ev = entries_view(entries@);
            let mut acc: Vec<(String, String)> = out;
            let ghost start = str_pairs_view(acc@);
            let mut i: usize = 0;
            assert(ev.take(0) =~= Seq::<(Seq<char>, JsonV)>::empty());
            proof {
                assert forall|j: int| 0 <= j < entries.len() implies decreases_to!(*v => entries@[j].1) by {
                    assert(decreases_to!(*v => *entries));
                    assert(decreases_to!(*entries => entries@));
                    assert(decreases_to!(entries@ => entries@[j]));
                    assert(decreases_to!(entries@[j] => entries@[j].1));
                }
            }
            while i < entries.len()
                invariant
                    0 <= i <= entries.len(),
                    forall|j: int| 0 <= j < entries.len() ==> decreases_to!(*v => entries@[j].1),
                    ev == entries_view(entries@),
                    str_pairs_view(acc@) == apply_pairs(start, flatten_entries(ev.take(i as int), prefix@)),
                decreases entries.len() - i,
            {
                let key = &entries[i].0;
                let full_key = if prefix.is_empty() {
                    key.clone()
                } else {
                    concat3(prefix, ".", key.as_str())
                };
                acc = flatten_into(&entries[i].1, full_key.as_str(), acc);
                proof {
                    assert(ev.take(i + 1).drop_last() == ev.take(i as int));
                    assert(ev.take(i + 1).last() == (key@, entries@[i as int].1@));
                    assert(full_key@ == join_key(prefix@, key@));
                    lemma_apply_pairs_concat(
                        start,
                        flatten_entries(ev.take(i as int), prefix@),
                        flatten_ops(entries@[i as int].1@, full_key@),
                    );
                }
                i = i + 1;
            }
            assert(ev.take(entries.len() as int) == ev);
            assert(v@ == JsonV::Object(ev));
            assert(flatten_ops(v@, prefix@) == flatten_entries(ev, prefix@));
            assert(str_pairs_view(acc@) == apply_pairs(str_pairs_view(out@), flatten_ops(v@, prefix@)));
            return acc;
        },
        _ => {
            let t = leaf_string(v);
            let ghost o = str_pairs_view(out@);
            let mut acc = out;
            set_str_pair(&mut acc, owned(prefix), t);
            proof {
                let ops = seq![(prefix@, leaf_text(v@))];
                assert(!(v@ is Object));
                assert(flatten_ops(v@, prefix@) == ops);
                assert(ops.drop_last() =~= Seq::<(Seq<char>, Seq<char>)>::empty());
                assert(apply_pairs(o, ops.drop_last()) == o);
                assert(apply_pairs(o, ops) == pair_set(o, prefix@, leaf_text(v@)));
            }
            acc
        },
    }
}

// ---------------------------------------------------------------------------
// Laws
// ---------------------------------------------------------------------------

/// A CLI flag that carries a value wins over every other tier.
pub proof fn lemma_cli_flag_wins(
    c: ConfigV,
    key: Seq<char>,
    flag: Seq<char>,
    env: Option<Seq<char>>,
    v: Seq<char>,
)
    requires
        pair_get(c.cli_flags, flag) == Some(Some(v)),
    ensures
        resolve_spec(c, key, Some(flag), env) == Some(v),
{
}

/// Without a CLI value, a non-empty environment value wins over the file
/// and the defaults.
pub proof fn lemma_env_beats_file(c: ConfigV, key: Seq<char>, e: Seq<char>)
    requires
        e.len() > 0,
    ensures
        resolve_spec(c, key, None, Some(e)) == Some(e),
{
}

/// With no flag, no environment value and no file, the default is used.
pub proof fn lemma_default_last(c: ConfigV, key: Seq<char>)
    requires
        c.config_file is None,
    ensures
        resolve_spec(c, key, None, None) == pair_get(c.defaults, key),
{
}

} // verus!
