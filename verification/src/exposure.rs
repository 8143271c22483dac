//! Which discovered modules are exposed as commands.
//!
//! Three modes: `all` exposes everything, `include` only the module IDs that
//! match one of its glob patterns, `exclude` all but those matching one of
//! its patterns. In a glob, `*` stands for one dotted segment and `**` for
//! any run of characters, dots included; everything else is literal. A glob
//! is matched by translating it into an anchored regular expression.
use vstd::prelude::*;
use crate::json::{Json, JsonV, json_seq_view, get_str};
use crate::pattern::{regex_escape, regex_escape_spec, regex_is_match, regex_match, lemma_escape_concat};
use crate::text::{owned, push_str, str_eq, string_in, concat3};

use crate::text::{strings_view};

verus! {

// ---------------------------------------------------------------------------
// Glob translation
// ---------------------------------------------------------------------------

/// The regular expression for the glob characters from position `i` on:
/// `**` becomes `.+`, `*` becomes `[^.]*`, any other character is escaped.
pub open spec fn glob_body_from(p: Seq<char>, i: int) -> Seq<char>
    decreases p.len() - i,
{
    if i < 0 || i >= p.len() {
        Seq::empty()
    } else if p[i] == '*' && i + 1 < p.len() && p[i + 1] == '*' {
        ".+"@ + glob_body_from(p, i + 2)
    } else if p[i] == '*' {
        "[^.]*"@ + glob_body_from(p, i + 1)
    } else {
        regex_escape_spec(seq![p[i]]) + glob_body_from(p, i + 1)
    }
}

/// The anchored regular expression a glob is matched with.
pub open spec fn glob_regex(p: Seq<char>) -> Seq<char> {
    "^"@ + glob_body_from(p, 0) + "$"@
}

/// Whether `id` matches the glob `p` (a regex that cannot be used matches
/// nothing).
pub open spec fn glob_matches(id: Seq<char>, p: Seq<char>) -> bool {
    regex_match(glob_regex(p), id) == Some(true)
}

fn flush_literal(out: &mut String, lit: &mut String)
    ensures
        final(out)@ == old(out)@ + regex_escape_spec(old(lit)@),
        final(lit)@ == Seq::<char>::empty(),
{
    let e = regex_escape(lit.as_str());
    push_str(out, e.as_str());
    *lit = String::new();
}

/// Translate a glob into its anchored regular expression.
pub fn compile_pattern(pattern: &str) -> (r: String)
    ensures
        r@ == glob_regex(pattern@),
{
    let cs = crate::text::chars_of(pattern);
    let ghost p = pattern@;
    let mut out = owned("^");
    let mut lit = String::new();
    let mut i: usize = 0;
    proof {
        reveal_strlit("^");
        assert(regex_escape_spec(Seq::<char>::empty()) == Seq::<char>::empty());
        assert(out@ + regex_escape_spec(lit@) + glob_body_from(p, 0) =~= "^"@ + glob_body_from(p, 0));
    }
    while i < cs.len()
        invariant
            cs@ == p,
            0 <= i <= cs.len(),
            out@ + regex_escape_spec(lit@) + glob_body_from(p, i as int) == "^"@ + glob_body_from(p, 0),
        decreases cs.len() - i,
    {
        let c = cs[i];
        if c == '*' {
            let ghost o = out@;
            let ghost l = lit@;
            flush_literal(&mut out, &mut lit);
            if i + 1 < cs.len() && cs[i + 1] == '*' {
                push_str(&mut out, ".+");
                proof {
                    assert(glob_body_from(p, i as int) == ".+"@ + glob_body_from(p, i + 2));
                    assert(regex_escape_spec(lit@) == Seq::<char>::empty());
                    assert(out@ + regex_escape_spec(lit@) + glob_body_from(p, i + 2) =~= o
                        + regex_escape_spec(l) + glob_body_from(p, i as int));
                }
                i = i + 2;
            } else {
                push_str(&mut out, "[^.]*");
                proof {
                    assert(glob_body_from(p, i as int) == "[^.]*"@ + glob_body_from(p, i + 1));
                    assert(regex_escape_spec(lit@) == Seq::<char>::empty());
                    assert(out@ + regex_escape_spec(lit@) + glob_body_from(p, i + 1) =~= o
                        + regex_escape_spec(l) + glob_body_from(p, i as int));
                }
                i = i + 1;
            }
        } else {
            let ghost l = lit@;
            crate::text::push_char(&mut lit, c);
            proof {
                lemma_escape_concat(l, seq![c]);
                assert(lit@ == l + seq![c]);
                assert(glob_body_from(p, i as int) == regex_escape_spec(seq![c]) + glob_body_from(p, i + 1));
                assert(out@ + regex_escape_spec(lit@) + glob_body_from(p, i + 1) =~= out@
                    + regex_escape_spec(l) + glob_body_from(p, i as int));
            }
            i = i + 1;
        }
    }
    let ghost o = out@;
    let ghost l = lit@;
    flush_literal(&mut out, &mut lit);
    push_str(&mut out, "$");
    proof {
        assert(glob_body_from(p, i as int) == Seq::<char>::empty());
        assert(o + regex_escape_spec(l) + Seq::<char>::empty() =~= o + regex_escape_spec(l));
        assert(out@ =~= "^"@ + glob_body_from(p, 0) + "$"@);
    }
    out
}

/// Whether `module_id` matches the glob `pattern`.
pub fn glob_match(module_id: &str, pattern: &str) -> (r: bool)
    ensures
        r == glob_matches(module_id@, pattern@),
{
    let re = compile_pattern(pattern);
    match regex_is_match(re.as_str(), module_id) {
        Some(b) => b,
        None => false,
    }
}

// ---------------------------------------------------------------------------
// ExposureFilter
// ---------------------------------------------------------------------------

/// The first occurrence of each pattern, in order.
pub open spec fn dedup_seq(s: Seq<Seq<char>>) -> Seq<Seq<char>>
    decreases s.len(),
{
    if s.len() == 0 {
        Seq::empty()
    } else {
        let r = dedup_seq(s.drop_last());
        if r.contains(s.last()) {
            r
        } else {
            r.push(s.last())
        }
    }
}

/// Whether some pattern of `patterns` matches `id`.
pub open spec fn matches_any(patterns: Seq<Seq<char>>, id: Seq<char>) -> bool {
    exists|i: int| 0 <= i < patterns.len() && #[trigger] glob_matches(id, patterns[i])
}

pub struct ExposureFilterV {
    pub mode: Seq<char>,
    pub includes: Seq<Seq<char>>,
    pub excludes: Seq<Seq<char>>,
}

/// Whether the filter exposes `id`.
pub open spec fn exposed(f: ExposureFilterV, id: Seq<char>) -> bool {
    if f.mode == "include"@ {
        matches_any(f.includes, id)
    } else if f.mode == "exclude"@ {
        !matches_any(f.excludes, id)
    } else {
        true
    }
}

/// The IDs of `ids` that `f` exposes (`want`) or hides (`!want`), in order.
pub open spec fn partition_part(f: ExposureFilterV, ids: Seq<Seq<char>>, want: bool) -> Seq<Seq<char>>
    decreases ids.len(),
{
    if ids.len() == 0 {
        Seq::empty()
    } else {
        let r = partition_part(f, ids.drop_last(), want);
        if exposed(f, ids.last()) == want {
            r.push(ids.last())
        } else {
            r
        }
    }
}

/// Decides which module IDs become commands.
pub struct ExposureFilter {
    /// `all`, `include` or `exclude`.
    pub mode: String,
    includes: Vec<String>,
    excludes: Vec<String>,
}

impl View for ExposureFilter {
    type V = ExposureFilterV;

    closed spec fn view(&self) -> ExposureFilterV {
        ExposureFilterV {
            mode: self.mode@,
            includes: strings_view(self.includes@),
            excludes: strings_view(self.excludes@),
        }
    }
}

fn dedup(patterns: &Vec<String>) -> (r: Vec<String>)
    ensures
        strings_view(r@) == dedup_seq(strings_view(patterns@)),
{
    let ghost pv = strings_view(patterns@);
    let mut out: Vec<String> = Vec::new();
    let mut i: usize = 0;
    assert(strings_view(out@) =~= dedup_seq(pv.take(0)));
    while i < patterns.len()
        invariant
            0 <= i <= patterns.len(),
            pv == strings_view(patterns@),
            strings_view(out@) == dedup_seq(pv.take(i as int)),
        decreases patterns.len() - i,
    {
        assert(pv.take(i + 1).drop_last() == pv.take(i as int));
        assert(pv.take(i + 1).last() == patterns@[i as int]@);
        let present = string_in(patterns[i].as_str(), &out);
        proof {
            let ov = strings_view(out@);
            if present {
                let m = choose|m: int| 0 <= m < out@.len() && out@[m]@ == patterns@[i as int]@;
                assert(ov[m] == patterns@[i as int]@);
            } else {
                assert forall|m: int| 0 <= m < ov.len() implies ov[m] != patterns@[i as int]@ by {
                    assert(out@[m]@ != patterns@[i as int]@);
                }
            }
        }
        if !present {
            let ghost prev = out@;
            let c = patterns[i].clone();
            out.push(c);
            assert(strings_view(out@) =~= strings_view(prev).push(c@));
        }
        i = i + 1;
    }
    assert(pv.take(patterns.len() as int) == pv);
    out
}

fn any_match(patterns: &Vec<String>, id: &str) -> (r: bool)
    ensures
        r == matches_any(strings_view(patterns@), id@),
{
    let ghost pv = strings_view(patterns@);
    let mut i: usize = 0;
    while i < patterns.len()
        invariant
            0 <= i <= patterns.len(),
            pv == strings_view(patterns@),
            forall|j: int| 0 <= j < i ==> !glob_matches(id@, #[trigger] pv[j]),
        decreases patterns.len() - i,
    {
        if glob_match(id, patterns[i].as_str()) {
            assert(glob_matches(id@, pv[i as int]));
            return true;
        }
        i = i + 1;
    }
    false
}

impl ExposureFilter {
    /// The filter that exposes everything.
    pub fn all() -> (r: Self)
        ensures
            r@ == (ExposureFilterV { mode: "all"@, includes: Seq::empty(), excludes: Seq::empty() }),
    {
        let r = ExposureFilter { mode: owned("all"), includes: Vec::new(), excludes: Vec::new() };
        assert(strings_view(r.includes@) =~= Seq::<Seq<char>>::empty());
        assert(strings_view(r.excludes@) =~= Seq::<Seq<char>>::empty());
        r
    }

    /// A filter with the given mode and patterns (each kept once, first
    /// occurrence first).
    pub fn new(mode: &str, include_patterns: &Vec<String>, exclude_patterns: &Vec<String>) -> (r: Self)
        ensures
            r@ == (ExposureFilterV {
                mode: mode@,
                includes: dedup_seq(strings_view(include_patterns@)),
                excludes: dedup_seq(strings_view(exclude_patterns@)),
            }),
    {
        ExposureFilter { mode: owned(mode), includes: dedup(include_patterns), excludes: dedup(exclude_patterns) }
    }

    /// Whether the module should become a command.
    pub fn is_exposed(&self, module_id: &str) -> (r: bool)
        ensures
            r == exposed(self@, module_id@),
    {
        let m = self.mode.as_str();
        if str_eq(m, "include") {
            any_match(&self.includes, module_id)
        } else if str_eq(m, "exclude") {
            !any_match(&self.excludes, module_id)
        } else {
            true
        }
    }

    /// Split `module_ids` into the exposed and the hidden ones, each in the
    /// original order.
    pub fn filter_modules(&self, module_ids: &Vec<String>) -> (r: (Vec<String>, Vec<String>))
        ensures
            strings_view(r.0@) == partition_part(self@, strings_view(module_ids@), true),
            strings_view(r.1@) == partition_part(self@, strings_view(module_ids@), false),
    {
        let ghost iv = strings_view(module_ids@);
        let mut exposed_ids: Vec<String> = Vec::new();
        let mut hidden_ids: Vec<String> = Vec::new();
        let mut i: usize = 0;
        assert(strings_view(exposed_ids@) =~= partition_part(self@, iv.take(0), true));
        assert(strings_view(hidden_ids@) =~= partition_part(self@, iv.take(0), false));
        while i < module_ids.len()
            invariant
                0 <= i <= module_ids.len(),
                iv == strings_view(module_ids@),
                strings_view(exposed_ids@) == partition_part(self@, iv.take(i as int), true),
                strings_view(hidden_ids@) == partition_part(self@, iv.take(i as int), false),
            decreases module_ids.len() - i,
        {
            assert(iv.take(i + 1).drop_last() == iv.take(i as int));
            assert(iv.take(i + 1).last() == module_ids@[i as int]@);
            let c = module_ids[i].clone();
            if self.is_exposed(module_ids[i].as_str()) {
                let ghost prev = exposed_ids@;
                exposed_ids.push(c);
                assert(strings_view(exposed_ids@) =~= strings_view(prev).push(c@));
            } else {
                let ghost prev = hidden_ids@;
                hidden_ids.push(c);
                assert(strings_view(hidden_ids@) =~= strings_view(prev).push(c@));
            }
            i = i + 1;
        }
        assert(iv.take(module_ids.len() as int) == iv);
        (exposed_ids, hidden_ids)
    }

    /// A filter read from a config value's `expose` section:
    /// `{"expose": {"mode": ..., "include": [...], "exclude": [...]}}`.
    /// A missing or non-object section gives the `all` filter; a mode other
    /// than `all`, `include`, `exclude` is refused; empty or non-string
    /// patterns are skipped, a non-list pattern list is ignored.
    pub fn from_config(config: &Json) -> (r: Result<Self, String>)
        ensures
            match r {
                Ok(f) => expose_config(config@) == Ok::<ExposureFilterV, Seq<char>>(f@),
                Err(e) => expose_config(config@) == Err::<ExposureFilterV, Seq<char>>(e@),
            },
    {
        let expose = match config.get("expose") {
            Some(e) => e,
            None => {
                return Ok(Self::all());
            },
        };
        match expose.as_object() {
            Some(_) => {},
            None => {
                return Ok(Self::all());
            },
        }
        let mode: &str = match expose.get("mode") {
            Some(m) => match m.as_str() {
                Some(s) => s.as_str(),
                None => "all",
            },
            None => "all",
        };
        if !(str_eq(mode, "all") || str_eq(mode, "include") || str_eq(mode, "exclude")) {
            return Err(
                concat3(
                    "Invalid expose mode: '",
                    mode,
                    "'. Must be one of: all, include, exclude.",
                ),
            );
        }
        let inc = pattern_list(expose.get("include"));
        let exc = pattern_list(expose.get("exclude"));
        Ok(Self::new(mode, &inc, &exc))
    }
}

impl Default for ExposureFilter {
    fn default() -> (r: Self)
        ensures
            r@ == (ExposureFilterV { mode: "all"@, includes: Seq::empty(), excludes: Seq::empty() }),
    {
        Self::all()
    }
}

/// The non-empty string patterns of a pattern list (non-strings count as
/// empty and are skipped; a non-list gives no patterns).
pub open spec fn pattern_entries(raw: Option<JsonV>) -> Seq<Seq<char>> {
    match raw {
        Some(JsonV::Array(items)) => crate::builtin_group::non_empty_strings(items),
        _ => Seq::empty(),
    }
}

/// What an `expose` config section configures.
pub open spec fn expose_config(config: JsonV) -> Result<ExposureFilterV, Seq<char>> {
    let all = ExposureFilterV { mode: "all"@, includes: Seq::empty(), excludes: Seq::empty() };
    match config.get("expose"@) {
        Some(JsonV::Object(_)) => {
            let e = config.get("expose"@)->0;
            let mode = match get_str(e, "mode"@) {
                Some(s) => s,
                None => "all"@,
            };
            if mode == "all"@ || mode == "include"@ || mode == "exclude"@ {
                Ok(
                    ExposureFilterV {
                        mode: mode,
                        includes: dedup_seq(pattern_entries(e.get("include"@))),
                        excludes: dedup_seq(pattern_entries(e.get("exclude"@))),
                    },
                )
            } else {
                Err("Invalid expose mode: '"@ + mode + "'. Must be one of: all, include, exclude."@)
            }
        },
        _ => Ok(all),
    }
}

fn pattern_list(raw: Option<&Json>) -> (r: Vec<String>)
    ensures
        strings_view(r@) == pattern_entries(
            match raw {
                Some(v) => Some(v@),
                None => None,
            },
        ),
{
    let mut out: Vec<String> = Vec::new();
    let items = match raw {
        Some(v) => match v.as_array() {
            Some(a) => a,
            None => {
                assert(strings_view(out@) =~= Seq::<Seq<char>>::empty());
                return out;
            },
        },
        None => {
            assert(strings_view(out@) =~= Seq::<Seq<char>>::empty());
            return out;
        },
    };
    let ghost iv = json_seq_view(items@);
    let mut i: usize = 0;
    assert(strings_view(out@) =~= crate::builtin_group::non_empty_strings(iv.take(0)));
    while i < items.len()
        invariant
            0 <= i <= items.len(),
            iv == json_seq_view(items@),
            strings_view(out@) == crate::builtin_group::non_empty_strings(iv.take(i as int)),
        decreases items.len() - i,
    {
        assert(iv.take(i + 1).drop_last() == iv.take(i as int));
        assert(iv.take(i + 1).last() == items@[i as int]@);
        match items[i].as_str() {
            Some(s) => {
                if !s.as_str().is_empty() {
                    let ghost prev = out@;
                    let c = s.clone();
                    out.push(c);
                    assert(strings_view(out@) =~= strings_view(prev).push(c@));
                }
            },
            None => {},
        }
        i = i + 1;
    }
    assert(iv.take(items.len() as int) == iv);
    out
}

// ---------------------------------------------------------------------------
// Laws
// ---------------------------------------------------------------------------

/// Partitioning loses and invents nothing: every ID lands in exactly one of
/// the two lists, so their lengths add up to the input's.
pub proof fn lemma_partition_sizes(f: ExposureFilterV, ids: Seq<Seq<char>>)
    ensures
        partition_part(f, ids, true).len() + partition_part(f, ids, false).len() == ids.len(),
    decreases ids.len(),
{
    if ids.len() > 0 {
        lemma_partition_sizes(f, ids.drop_last());
    }
}

/// Under mode `all` every ID is exposed and none is hidden.
pub proof fn lemma_all_exposes_everything(f: ExposureFilterV, ids: Seq<Seq<char>>)
    requires
        f.mode == "all"@,
    ensures
        partition_part(f, ids, true) == ids,
        partition_part(f, ids, false) == Seq::<Seq<char>>::empty(),
    decreases ids.len(),
{
    reveal_strlit("all");
    reveal_strlit("include");
    reveal_strlit("exclude");
    assert("all"@.len() == 3);
    assert("include"@.len() == 7);
    assert("exclude"@.len() == 7);
    if ids.len() > 0 {
        lemma_all_exposes_everything(f, ids.drop_last());
        assert(ids.drop_last().push(ids.last()) == ids);
    }
}

/// Under mode `exclude`, an ID is exposed exactly when it is not exposed
/// under mode `include` with the same patterns as the include list.
pub proof fn lemma_exclude_complements_include(pats: Seq<Seq<char>>, id: Seq<char>)
    ensures
        exposed(ExposureFilterV { mode: "exclude"@, includes: Seq::empty(), excludes: pats }, id)
            == !exposed(ExposureFilterV { mode: "include"@, includes: pats, excludes: Seq::empty() }, id),
{
    reveal_strlit("include");
    reveal_strlit("exclude");
    assert("include"@[0] != "exclude"@[0]);
}

} // verus!
