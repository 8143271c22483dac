//! Regular-expression support, through the `regex` crate.
//!
//! Matching is left to `regex`: its result is named by [`regex_match`] over
//! the pattern text and the haystack. Escaping is short enough to state
//! exactly ([`regex_escape_spec`]).
use vstd::prelude::*;

verus! {

/// What compiling `pattern` with `regex::Regex::new` and matching it against
/// `text` with `is_match` gives: `None` when the pattern is refused,
/// otherwise whether some part of `text` matches.
pub uninterp spec fn regex_match(pattern: Seq<char>, text: Seq<char>) -> Option<bool>;

/// `regex::Regex::new(pattern)` followed by `is_match(text)`. The outcome is
/// named by [`regex_match`]; nothing is claimed about the regex semantics.
#[verifier::external_body]
pub(crate) fn regex_is_match(pattern: &str, text: &str) -> (r: Option<bool>)
    ensures
        r == regex_match(pattern@, text@),
{
    match regex::Regex::new(pattern) {
        Ok(re) => Some(re.is_match(text)),
        Err(_) => None,
    }
}

/// The characters `regex_syntax::is_meta_character` reports as meta.
pub open spec fn is_regex_meta(c: char) -> bool {
    c == '\\' || c == '.' || c == '+' || c == '*' || c == '?' || c == '(' || c == ')' || c
        == '|' || c == '[' || c == ']' || c == '{' || c == '}' || c == '^' || c == '$' || c == '#'
        || c == '&' || c == '-' || c == '~'
}

/// `regex::escape`: every meta character gets a backslash in front of it.
pub open spec fn regex_escape_spec(s: Seq<char>) -> Seq<char>
    decreases s.len(),
{
    if s.len() == 0 {
        Seq::empty()
    } else {
        regex_escape_spec(s.drop_last()) + (if is_regex_meta(s.last()) {
            seq!['\\', s.last()]
        } else {
            seq![s.last()]
        })
    }
}

/// `regex::escape`, which (per its source in `regex-syntax`) pushes a
/// backslash before each meta character and copies every character.
#[verifier::external_body]
pub(crate) fn regex_escape(s: &str) -> (r: String)
    ensures
        r@ == regex_escape_spec(s@),
{
    regex::escape(s)
}

/// Escaping distributes over concatenation.
pub proof fn lemma_escape_concat(a: Seq<char>, b: Seq<char>)
    ensures
        regex_escape_spec(a + b) == regex_escape_spec(a) + regex_escape_spec(b),
    decreases b.len(),
{
    if b.len() == 0 {
        assert(a + b == a);
        assert(regex_escape_spec(b) == Seq::<char>::empty());
        assert(regex_escape_spec(a) + Seq::<char>::empty() == regex_escape_spec(a));
    } else {
        lemma_escape_concat(a, b.drop_last());
        assert((a + b).drop_last() == a + b.drop_last());
        assert((a + b).last() == b.last());
    }
}

} // verus!
