//! Start-up decisions made before the command-line parser runs: options read
//! straight from argv, the log level, and the names `init` derives from a
//! module ID.
use vstd::prelude::*;
use crate::text::{owned, str_eq, starts_with, has_prefix, chars_of, string_from_chars, push_char, push_str, char_to_ascii_upper, ascii_upper};

use crate::text::{strings_view};

verus! {

/// The value `flag` is given in `args`, scanning left to right: `flag VALUE`
/// gives the next argument (none when `flag` is last), `flag=VALUE` gives
/// `VALUE`.
pub open spec fn argv_option(args: Seq<Seq<char>>, flag: Seq<char>) -> Option<Seq<char>>
    decreases args.len(),
{
    if args.len() == 0 {
        None
    } else if args[0] == flag {
        if args.len() > 1 {
            Some(args[1])
        } else {
            None
        }
    } else if has_prefix(args[0], flag + "="@) {
        Some(args[0].skip(flag.len() + 1int))
    } else {
        argv_option(args.drop_first(), flag)
    }
}

/// Read `flag`'s value from raw argv, before the parser runs.
pub fn extract_argv_option(args: &[String], flag: &str) -> (r: Option<String>)
    ensures
        match r {
            Some(v) => argv_option(strings_view(args@), flag@) == Some(v@),
            None => argv_option(strings_view(args@), flag@) is None,
        },
{
    let ghost av = strings_view(args@);
    let mut prefix = owned(flag);
    push_char(&mut prefix, '=');
    proof {
        reveal_strlit("=");
        assert(prefix@ == flag@ + "="@);
    }
    let mut i: usize = 0;
    assert(av.skip(0) =~= av);
    while i < args.len()
        invariant
            0 <= i <= args.len(),
            av == strings_view(args@),
            prefix@ == flag@ + "="@,
            prefix@.len() == flag@.len() + 1,
            argv_option(av, flag@) == argv_option(av.skip(i as int), flag@),
        decreases args.len() - i,
    {
        assert(av.skip(i as int)[0] == args@[i as int]@);
        assert(av.skip(i as int).drop_first() == av.skip(i + 1));
        let arg = args[i].as_str();
        if str_eq(arg, flag) {
            if i + 1 < args.len() {
                assert(av.skip(i as int)[1] == args@[i + 1]@);
                return Some(args[i + 1].clone());
            }
            return None;
        }
        if starts_with(arg, prefix.as_str()) {
            let cs = chars_of(arg);
            let mut out: Vec<char> = Vec::new();
            let pcs = chars_of(prefix.as_str());
            let start = pcs.len();
            assert(start == flag@.len() + 1);
            let mut k: usize = start;
            assert(out@ =~= cs@.subrange(start as int, k as int));
            while k < cs.len()
                invariant
                    start <= k <= cs.len(),
                    out@ == cs@.subrange(start as int, k as int),
                decreases cs.len() - k,
            {
                out.push(cs[k]);
                k = k + 1;
                assert(out@ =~= cs@.subrange(start as int, k as int));
            }
            assert(cs@.subrange(start as int, cs.len() as int) =~= arg@.skip(flag@.len() + 1int));
            return Some(string_from_chars(&out));
        }
        i = i + 1;
    }
    assert(av.skip(i as int).len() == 0);
    None
}

/// Whether `--all-options` appears in raw argv.
pub fn has_all_options_flag(args: &[String]) -> (r: bool)
    ensures
        r == strings_view(args@).contains("--all-options"@),
{
    let mut i: usize = 0;
    while i < args.len()
        invariant
            0 <= i <= args.len(),
            forall|j: int| 0 <= j < i ==> #[trigger] strings_view(args@)[j] != "--all-options"@,
        decreases args.len() - i,
    {
        if str_eq(args[i].as_str(), "--all-options") {
            assert(strings_view(args@)[i as int] == "--all-options"@);
            return true;
        }
        i = i + 1;
    }
    false
}

/// `--extensions-dir` from raw argv.
pub fn extract_extensions_dir(args: &[String]) -> (r: Option<String>)
    ensures
        match r {
            Some(v) => argv_option(strings_view(args@), "--extensions-dir"@) == Some(v@),
            None => argv_option(strings_view(args@), "--extensions-dir"@) is None,
        },
{
    extract_argv_option(args, "--extensions-dir")
}

/// `--commands-dir` from raw argv.
pub fn extract_commands_dir(args: &[String]) -> (r: Option<String>)
    ensures
        match r {
            Some(v) => argv_option(strings_view(args@), "--commands-dir"@) == Some(v@),
            None => argv_option(strings_view(args@), "--commands-dir"@) is None,
        },
{
    extract_argv_option(args, "--commands-dir")
}

/// `--binding` from raw argv.
pub fn extract_binding_path(args: &[String]) -> (r: Option<String>)
    ensures
        match r {
            Some(v) => argv_option(strings_view(args@), "--binding"@) == Some(v@),
            None => argv_option(strings_view(args@), "--binding"@) is None,
        },
{
    extract_argv_option(args, "--binding")
}

/// The levels `--log-level` accepts.
pub const LOG_LEVELS: [&'static str; 4] = ["DEBUG", "INFO", "WARNING", "ERROR"];

/// The verdict on the extensions directory, given whether it exists and
/// whether it can be listed: a missing directory and an unreadable one are
/// each reported with their own message.
pub fn extensions_dir_check(ext_dir: &str, exists: bool, readable: bool) -> (r: Result<(), String>)
    ensures
        !exists ==> (r matches Err(m) && m@ == "Extensions directory not found: '"@ + ext_dir@
            + "'. Set APCORE_EXTENSIONS_ROOT or verify the path."@),
        exists && !readable ==> (r matches Err(m) && m@ == "Cannot read extensions directory: '"@
            + ext_dir@ + "'. Check file permissions."@),
        exists && readable ==> r is Ok,
{
    if !exists {
        return Err(crate::text::concat3(
            "Extensions directory not found: '",
            ext_dir,
            "'. Set APCORE_EXTENSIONS_ROOT or verify the path.",
        ));
    }
    if !readable {
        return Err(crate::text::concat3("Cannot read extensions directory: '", ext_dir, "'. Check file permissions."));
    }
    Ok(())
}

/// The log level: an explicit override, else a non-empty
/// `APCORE_CLI_LOGGING_LEVEL`, else a non-empty `APCORE_LOGGING_LEVEL`, else
/// `warn` (unset variables count as empty).
pub fn resolve_log_level(override_level: Option<&str>, cli_env: Option<&str>, global_env: Option<&str>) -> (r: String)
    ensures
        r@ == match override_level {
            Some(l) => l@,
            None => {
                let c = match cli_env {
                    Some(x) => x@,
                    None => Seq::empty(),
                };
                let g = match global_env {
                    Some(x) => x@,
                    None => Seq::empty(),
                };
                if c.len() > 0 {
                    c
                } else if g.len() > 0 {
                    g
                } else {
                    "warn"@
                }
            },
        },
{
    if let Some(level) = override_level {
        return owned(level);
    }
    match cli_env {
        Some(c) => {
            if !c.is_empty() {
                return owned(c);
            }
        },
        None => {},
    }
    match global_env {
        Some(g) => {
            if !g.is_empty() {
                return owned(g);
            }
        },
        None => {},
    }
    owned("warn")
}

// ---------------------------------------------------------------------------
// init
// ---------------------------------------------------------------------------

/// PascalCase of a snake_case name: `_` is dropped and capitalises the next
/// character (ASCII upper-casing); `capitalize` says whether the first
/// character is capitalised.
pub open spec fn pascal(s: Seq<char>, capitalize: bool) -> Seq<char>
    decreases s.len(),
{
    if s.len() == 0 {
        Seq::empty()
    } else if s[0] == '_' {
        pascal(s.drop_first(), true)
    } else if capitalize {
        seq![ascii_upper(s[0])] + pascal(s.drop_first(), false)
    } else {
        seq![s[0]] + pascal(s.drop_first(), false)
    }
}

/// The struct name for a function name: PascalCase plus `Module`.
pub fn to_struct_name(func_name: &str) -> (r: String)
    ensures
        r@ == pascal(func_name@, true) + "Module"@,
{
    let cs = chars_of(func_name);
    let mut result = String::new();
    let mut capitalize_next = true;
    let mut i: usize = 0;
    assert(cs@.skip(0) =~= cs@);
    while i < cs.len()
        invariant
            cs@ == func_name@,
            0 <= i <= cs.len(),
            result@ + pascal(cs@.skip(i as int), capitalize_next) == pascal(func_name@, true),
        decreases cs.len() - i,
    {
        let ch = cs[i];
        assert(cs@.skip(i as int)[0] == ch);
        assert(cs@.skip(i as int).drop_first() == cs@.skip(i + 1));
        let ghost r0 = result@;
        let ghost cap0 = capitalize_next;
        if ch == '_' {
            capitalize_next = true;
        } else if capitalize_next {
            push_char(&mut result, char_to_ascii_upper(ch));
            capitalize_next = false;
            assert(result@ + pascal(cs@.skip(i + 1), false) =~= r0 + pascal(cs@.skip(i as int), cap0));
        } else {
            push_char(&mut result, ch);
            assert(result@ + pascal(cs@.skip(i + 1), false) =~= r0 + pascal(cs@.skip(i as int), cap0));
        }
        i = i + 1;
    }
    assert(cs@.skip(i as int).len() == 0);
    assert(result@ =~= pascal(func_name@, true));
    push_str(&mut result, "Module");
    result
}

/// Whether `p` is the position of the last dot of `id`.
pub open spec fn is_last_dot(id: Seq<char>, p: int) -> bool {
    0 <= p < id.len() && id[p] == '.' && (forall|j: int| p < j < id.len() ==> id[j] != '.')
}

/// A module ID split at its last dot into prefix and function name; an ID
/// without a dot is both.
pub open spec fn split_spec(id: Seq<char>) -> (Seq<char>, Seq<char>) {
    if exists|p: int| is_last_dot(id, p) {
        let p = choose|p: int| is_last_dot(id, p);
        (id.take(p), id.skip(p + 1))
    } else {
        (id, id)
    }
}

/// Split a module ID at its last dot.
pub fn split_module_id(module_id: &str) -> (r: (String, String))
    ensures
        r.0@ == split_spec(module_id@).0,
        r.1@ == split_spec(module_id@).1,
        ({
            let id = module_id@;
            (exists|p: int| 0 <= p < id.len() && id[p] == '.' && (forall|j: int| p < j < id.len() ==> id[j] != '.')
                && r.0@ == id.take(p) && r.1@ == id.skip(p + 1))
            || ((forall|j: int| 0 <= j < id.len() ==> id[j] != '.') && r.0@ == id && r.1@ == id)
        }),
{
    let cs = chars_of(module_id);
    let mut pos: usize = cs.len();
    while pos > 0 && cs[pos - 1] != '.'
        invariant
            cs@ == module_id@,
            0 <= pos <= cs.len(),
            forall|j: int| pos <= j < cs.len() ==> cs@[j] != '.',
        decreases pos,
    {
        pos = pos - 1;
    }
    if pos == 0 {
        proof {
            if exists|q: int| is_last_dot(module_id@, q) {
                let q = choose|q: int| is_last_dot(module_id@, q);
                assert(cs@[q] == '.');
            }
        }
        return (owned(module_id), owned(module_id));
    }
    let p = pos - 1;
    proof {
        assert(is_last_dot(module_id@, p as int));
        let q = choose|q: int| is_last_dot(module_id@, q);
        if q < p {
            assert(module_id@[p as int] == '.');
        } else if q > p {
            assert(cs@[q] == '.');
        }
        assert(q == p);
    }
    let mut a: Vec<char> = Vec::new();
    let mut k: usize = 0;
    while k < p
        invariant
            0 <= k <= p < cs.len(),
            a@ == cs@.take(k as int),
        decreases p - k,
    {
        a.push(cs[k]);
        k = k + 1;
        assert(a@ =~= cs@.take(k as int));
    }
    let mut b: Vec<char> = Vec::new();
    let mut m: usize = p + 1;
    assert(b@ =~= cs@.subrange(p + 1, m as int));
    while m < cs.len()
        invariant
            p < cs.len(),
            p + 1 <= m <= cs.len(),
            b@ == cs@.subrange(p + 1, m as int),
        decreases cs.len() - m,
    {
        b.push(cs[m]);
        m = m + 1;
        assert(b@ =~= cs@.subrange(p + 1, m as int));
    }
    assert(cs@.subrange(p + 1, cs.len() as int) =~= module_id@.skip(p + 1));
    (string_from_chars(&a), string_from_chars(&b))
}

} // verus!
