//! Character and string helpers shared by the rest of the library.
//!
//! Strings are reasoned about through their `Seq<char>` views. The helpers
//! here cover the small amount of `std` text behaviour the library relies on
//! (ASCII case mapping, Unicode whitespace trimming, decimal rendering, UTF-8
//! byte widths), each stated as a spec function and implemented against it.
use vstd::prelude::*;
use vstd::string::*;

verus! {

// ---------------------------------------------------------------------------
// Trusted std primitive
// ---------------------------------------------------------------------------

/// `String::push`: appends one character to the end of the string.
#[verifier::external_body]
pub(crate) fn push_char(s: &mut String, c: char)
    ensures
        final(s)@ == old(s)@.push(c),
{
    s.push(c);
}

// ---------------------------------------------------------------------------
// Conversions between `&str`, `String` and `Vec<char>`
// ---------------------------------------------------------------------------

/// The characters of `s`, in order.
pub fn chars_of(s: &str) -> (v: Vec<char>)
    ensures
        v@ == s@,
{
    let mut v: Vec<char> = Vec::new();
    for c in it: s.chars()
        invariant
            it.seq() == s@,
            v@ == it.seq().take(it.index() as int),
    {
        v.push(c);
    }
    v
}

/// Appends every character of `cs` to `out`.
pub fn push_chars(out: &mut String, cs: &Vec<char>)
    ensures
        final(out)@ == old(out)@ + cs@,
{
    let mut i: usize = 0;
    while i < cs.len()
        invariant
            0 <= i <= cs.len(),
            out@ == old(out)@ + cs@.take(i as int),
        decreases cs.len() - i,
    {
        push_char(out, cs[i]);
        i = i + 1;
        assert(cs@.take(i as int) == cs@.take((i - 1) as int).push(cs@[i - 1]));
    }
    assert(cs@.take(cs.len() as int) == cs@);
}

/// A fresh `String` holding exactly the characters of `cs`.
pub fn string_from_chars(cs: &Vec<char>) -> (s: String)
    ensures
        s@ == cs@,
{
    let mut s = String::new();
    push_chars(&mut s, cs);
    s
}

/// A fresh `String` holding a copy of `s`.
pub fn owned(s: &str) -> (r: String)
    ensures
        r@ == s@,
{
    s.to_owned()
}

/// Appends `t` to `out`.
pub fn push_str(out: &mut String, t: &str)
    ensures
        final(out)@ == old(out)@ + t@,
{
    let cs = chars_of(t);
    push_chars(out, &cs);
}

/// The concatenation of `a` and `b`.
pub fn concat2(a: &str, b: &str) -> (r: String)
    ensures
        r@ == a@ + b@,
{
    let mut r = owned(a);
    push_str(&mut r, b);
    r
}

/// The concatenation of `a`, `b` and `c`.
pub fn concat3(a: &str, b: &str, c: &str) -> (r: String)
    ensures
        r@ == a@ + b@ + c@,
{
    let mut r = owned(a);
    push_str(&mut r, b);
    push_str(&mut r, c);
    r
}

/// Character-wise equality of two sequences of characters.
pub fn chars_eq(a: &Vec<char>, b: &Vec<char>) -> (r: bool)
    ensures
        r == (a@ == b@),
{
    if a.len() != b.len() {
        return false;
    }
    let mut i: usize = 0;
    while i < a.len()
        invariant
            a.len() == b.len(),
            0 <= i <= a.len(),
            forall|j: int| 0 <= j < i ==> a@[j] == b@[j],
        decreases a.len() - i,
    {
        if a[i] != b[i] {
            return false;
        }
        i = i + 1;
    }
    assert(a@ =~= b@);
    true
}

/// Equality of two string slices by their characters.
pub fn str_eq(a: &str, b: &str) -> (r: bool)
    ensures
        r == (a@ == b@),
{
    let ca = chars_of(a);
    let cb = chars_of(b);
    chars_eq(&ca, &cb)
}

/// Whether `a` is one of the strings in `set`.
pub fn str_in(a: &str, set: &[&str]) -> (r: bool)
    ensures
        r == exists|i: int| 0 <= i < set@.len() && set@[i]@ == a@,
{
    let mut i: usize = 0;
    while i < set.len()
        invariant
            0 <= i <= set@.len(),
            forall|j: int| 0 <= j < i ==> set@[j]@ != a@,
        decreases set.len() - i,
    {
        if str_eq(set[i], a) {
            return true;
        }
        i = i + 1;
    }
    false
}

/// Whether `a` is one of the strings in `set`.
pub fn string_in(a: &str, set: &Vec<String>) -> (r: bool)
    ensures
        r == exists|i: int| 0 <= i < set@.len() && set@[i]@ == a@,
{
    let mut i: usize = 0;
    while i < set.len()
        invariant
            0 <= i <= set@.len(),
            forall|j: int| 0 <= j < i ==> set@[j]@ != a@,
        decreases set.len() - i,
    {
        if str_eq(set[i].as_str(), a) {
            return true;
        }
        i = i + 1;
    }
    false
}

/// Whether `prefix` is a prefix of `s`.
pub open spec fn has_prefix(s: Seq<char>, prefix: Seq<char>) -> bool {
    prefix.len() <= s.len() && s.take(prefix.len() as int) == prefix
}

/// `str::starts_with` on views.
pub fn starts_with(s: &str, prefix: &str) -> (r: bool)
    ensures
        r == has_prefix(s@, prefix@),
{
    let cs = chars_of(s);
    let cp = chars_of(prefix);
    if cp.len() > cs.len() {
        return false;
    }
    let mut i: usize = 0;
    while i < cp.len()
        invariant
            cs@ == s@,
            cp@ == prefix@,
            cp.len() <= cs.len(),
            0 <= i <= cp.len(),
            forall|j: int| 0 <= j < i ==> cs@[j] == cp@[j],
        decreases cp.len() - i,
    {
        if cs[i] != cp[i] {
            assert(cs@.take(cp@.len() as int)[i as int] != cp@[i as int]);
            return false;
        }
        i = i + 1;
    }
    assert(cs@.take(cp@.len() as int) =~= cp@);
    true
}

// ---------------------------------------------------------------------------
// ASCII classes and case mapping
// ---------------------------------------------------------------------------

pub open spec fn is_ascii_lower(c: char) -> bool {
    'a' <= c <= 'z'
}

pub open spec fn is_ascii_upper(c: char) -> bool {
    'A' <= c <= 'Z'
}

pub open spec fn is_ascii_digit(c: char) -> bool {
    '0' <= c <= '9'
}

pub open spec fn is_ascii_alnum(c: char) -> bool {
    is_ascii_lower(c) || is_ascii_upper(c) || is_ascii_digit(c)
}

/// `char::to_ascii_lowercase`.
pub open spec fn ascii_lower(c: char) -> char {
    if is_ascii_upper(c) {
        ((c as u32) + 32) as char
    } else {
        c
    }
}

/// `char::to_ascii_uppercase`.
pub open spec fn ascii_upper(c: char) -> char {
    if is_ascii_lower(c) {
        ((c as u32) - 32) as char
    } else {
        c
    }
}

/// `str::to_ascii_lowercase` on views.
pub open spec fn ascii_lower_seq(s: Seq<char>) -> Seq<char> {
    s.map_values(|c: char| ascii_lower(c))
}

/// `str::to_ascii_uppercase` on views.
pub open spec fn ascii_upper_seq(s: Seq<char>) -> Seq<char> {
    s.map_values(|c: char| ascii_upper(c))
}

pub fn char_is_ascii_lower(c: char) -> (r: bool)
    ensures
        r == is_ascii_lower(c),
{
    'a' <= c && c <= 'z'
}

pub fn char_is_ascii_upper(c: char) -> (r: bool)
    ensures
        r == is_ascii_upper(c),
{
    'A' <= c && c <= 'Z'
}

pub fn char_is_ascii_digit(c: char) -> (r: bool)
    ensures
        r == is_ascii_digit(c),
{
    '0' <= c && c <= '9'
}

pub fn char_is_ascii_alnum(c: char) -> (r: bool)
    ensures
        r == is_ascii_alnum(c),
{
    char_is_ascii_lower(c) || char_is_ascii_upper(c) || char_is_ascii_digit(c)
}

pub fn char_to_ascii_lower(c: char) -> (r: char)
    ensures
        r == ascii_lower(c),
{
    if char_is_ascii_upper(c) {
        let u: u8 = (c as u32 + 32) as u8;
        u as char
    } else {
        c
    }
}

pub fn char_to_ascii_upper(c: char) -> (r: char)
    ensures
        r == ascii_upper(c),
{
    if char_is_ascii_lower(c) {
        let u: u8 = (c as u32 - 32) as u8;
        u as char
    } else {
        c
    }
}

/// `str::to_ascii_lowercase`.
pub fn to_ascii_lowercase(s: &str) -> (r: String)
    ensures
        r@ == ascii_lower_seq(s@),
{
    let cs = chars_of(s);
    let mut out: Vec<char> = Vec::new();
    let mut i: usize = 0;
    while i < cs.len()
        invariant
            0 <= i <= cs.len(),
            cs@ == s@,
            out@ == ascii_lower_seq(cs@.take(i as int)),
        decreases cs.len() - i,
    {
        out.push(char_to_ascii_lower(cs[i]));
        i = i + 1;
        assert(ascii_lower_seq(cs@.take(i as int)) =~= ascii_lower_seq(cs@.take((i - 1) as int)).push(ascii_lower(cs@[i - 1])));
    }
    assert(cs@.take(cs.len() as int) == cs@);
    string_from_chars(&out)
}

/// `str::to_ascii_uppercase`.
pub fn to_ascii_uppercase(s: &str) -> (r: String)
    ensures
        r@ == ascii_upper_seq(s@),
{
    let cs = chars_of(s);
    let mut out: Vec<char> = Vec::new();
    let mut i: usize = 0;
    while i < cs.len()
        invariant
            0 <= i <= cs.len(),
            cs@ == s@,
            out@ == ascii_upper_seq(cs@.take(i as int)),
        decreases cs.len() - i,
    {
        out.push(char_to_ascii_upper(cs[i]));
        i = i + 1;
        assert(ascii_upper_seq(cs@.take(i as int)) =~= ascii_upper_seq(cs@.take((i - 1) as int)).push(ascii_upper(cs@[i - 1])));
    }
    assert(cs@.take(cs.len() as int) == cs@);
    string_from_chars(&out)
}


// ---------------------------------------------------------------------------
// Unicode whitespace and trimming
// ---------------------------------------------------------------------------

/// `char::is_whitespace`: the Unicode `White_Space` property.
pub open spec fn is_ws(c: char) -> bool {
    let u = c as u32;
    ||| 0x09 <= u <= 0x0d
    ||| u == 0x20
    ||| u == 0x85
    ||| u == 0xa0
    ||| u == 0x1680
    ||| 0x2000 <= u <= 0x200a
    ||| u == 0x2028
    ||| u == 0x2029
    ||| u == 0x202f
    ||| u == 0x205f
    ||| u == 0x3000
}

pub fn char_is_ws(c: char) -> (r: bool)
    ensures
        r == is_ws(c),
{
    let u = c as u32;
    (0x09 <= u && u <= 0x0d) || u == 0x20 || u == 0x85 || u == 0xa0 || u == 0x1680 || (0x2000
        <= u && u <= 0x200a) || u == 0x2028 || u == 0x2029 || u == 0x202f || u == 0x205f || u
        == 0x3000
}

/// `str::trim_start` on views.
pub open spec fn trim_start_seq(s: Seq<char>) -> Seq<char>
    decreases s.len(),
{
    if s.len() > 0 && is_ws(s[0]) {
        trim_start_seq(s.drop_first())
    } else {
        s
    }
}

/// `str::trim_end` on views.
pub open spec fn trim_end_seq(s: Seq<char>) -> Seq<char>
    decreases s.len(),
{
    if s.len() > 0 && is_ws(s.last()) {
        trim_end_seq(s.drop_last())
    } else {
        s
    }
}

/// `str::trim` on views.
pub open spec fn trim_seq(s: Seq<char>) -> Seq<char> {
    trim_end_seq(trim_start_seq(s))
}

proof fn lemma_trim_start_skip(s: Seq<char>, i: int)
    requires
        0 <= i <= s.len(),
        forall|j: int| 0 <= j < i ==> is_ws(s[j]),
    ensures
        trim_start_seq(s) == trim_start_seq(s.skip(i)),
    decreases i,
{
    if i > 0 {
        assert(s.skip(1) == s.drop_first());
        lemma_trim_start_skip(s.drop_first(), i - 1);
        assert(s.drop_first().skip(i - 1) == s.skip(i));
    } else {
        assert(s.skip(0) == s);
    }
}

proof fn lemma_trim_end_take(s: Seq<char>, i: int)
    requires
        0 <= i <= s.len(),
        forall|j: int| i <= j < s.len() ==> is_ws(s[j]),
    ensures
        trim_end_seq(s) == trim_end_seq(s.take(i)),
    decreases s.len() - i,
{
    if i < s.len() {
        assert(s.take(s.len() - 1) == s.drop_last());
        lemma_trim_end_take(s.drop_last(), i);
        assert(s.drop_last().take(i) == s.take(i));
    } else {
        assert(s.take(i) == s);
    }
}

/// The characters of `s` without leading or trailing whitespace.
pub fn trim_chars(s: &Vec<char>) -> (r: Vec<char>)
    ensures
        r@ == trim_seq(s@),
{
    let mut start: usize = 0;
    while start < s.len() && char_is_ws(s[start])
        invariant
            0 <= start <= s.len(),
            forall|j: int| 0 <= j < start ==> is_ws(s@[j]),
        decreases s.len() - start,
    {
        start = start + 1;
    }
    proof {
        lemma_trim_start_skip(s@, start as int);
    }
    let ghost rest = s@.skip(start as int);
    assert(trim_start_seq(rest) == rest);
    let mut end: usize = s.len();
    while end > start && char_is_ws(s[end - 1])
        invariant
            start <= end <= s.len(),
            forall|j: int| end <= j < s.len() ==> is_ws(s@[j]),
        decreases end,
    {
        end = end - 1;
    }
    proof {
        lemma_trim_end_take(rest, end - start);
        assert(rest.take(end - start) == s@.subrange(start as int, end as int));
    }
    let mut out: Vec<char> = Vec::new();
    let mut k: usize = start;
    while k < end
        invariant
            start <= k <= end <= s.len(),
            out@ == s@.subrange(start as int, k as int),
        decreases end - k,
    {
        out.push(s[k]);
        k = k + 1;
        assert(out@ =~= s@.subrange(start as int, k as int));
    }
    out
}

/// `str::trim_end`.
pub fn trim_end(s: &str) -> (r: String)
    ensures
        r@ == trim_end_seq(s@),
{
    let cs = chars_of(s);
    let mut end: usize = cs.len();
    while end > 0 && char_is_ws(cs[end - 1])
        invariant
            0 <= end <= cs.len(),
            cs@ == s@,
            forall|j: int| end <= j < cs.len() ==> is_ws(cs@[j]),
        decreases end,
    {
        end = end - 1;
    }
    proof {
        lemma_trim_end_take(cs@, end as int);
        assert(end == 0 || !is_ws(cs@.take(end as int).last()));
        assert(trim_end_seq(cs@.take(end as int)) == cs@.take(end as int));
    }
    let mut out: Vec<char> = Vec::new();
    let mut k: usize = 0;
    while k < end
        invariant
            0 <= k <= end <= cs.len(),
            out@ == cs@.take(k as int),
        decreases end - k,
    {
        out.push(cs[k]);
        k = k + 1;
        assert(out@ =~= cs@.take(k as int));
    }
    string_from_chars(&out)
}

/// `s` with every trailing copy of `p` removed (`str::trim_end_matches`
/// with a string pattern).
pub open spec fn strip_suffixes(s: Seq<char>, p: Seq<char>) -> Seq<char>
    decreases s.len(),
{
    if p.len() > 0 && has_suffix(s, p) {
        strip_suffixes(s.take(s.len() - p.len()), p)
    } else {
        s
    }
}

/// `str::trim_end_matches` with a string pattern.
pub fn trim_end_matches(s: &str, p: &str) -> (r: String)
    ensures
        r@ == strip_suffixes(s@, p@),
{
    let cs = chars_of(s);
    let ps = chars_of(p);
    let mut end: usize = cs.len();
    assert(cs@.take(end as int) =~= s@);
    while ps.len() > 0 && ps.len() <= end && ends_at(&cs, end, &ps)
        invariant
            0 <= end <= cs.len(),
            cs@ == s@,
            ps@ == p@,
            strip_suffixes(s@, p@) == strip_suffixes(cs@.take(end as int), p@),
        decreases end,
    {
        proof {
            let t = cs@.take(end as int);
            assert(has_suffix(t, p@));
            assert(t.take(t.len() - p@.len()) =~= cs@.take(end - ps.len()));
        }
        end = end - ps.len();
    }
    proof {
        let t = cs@.take(end as int);
        if ps.len() > 0 && ps.len() <= end {
            assert(!has_suffix(t, p@));
        }
    }
    let mut out: Vec<char> = Vec::new();
    let mut k: usize = 0;
    while k < end
        invariant
            0 <= k <= end <= cs.len(),
            out@ == cs@.take(k as int),
        decreases end - k,
    {
        out.push(cs[k]);
        k = k + 1;
        assert(out@ =~= cs@.take(k as int));
    }
    assert(cs@.take(end as int) == out@);
    string_from_chars(&out)
}

/// Whether `cs[..end]` ends with `ps`.
fn ends_at(cs: &Vec<char>, end: usize, ps: &Vec<char>) -> (r: bool)
    requires
        ps.len() <= end <= cs.len(),
    ensures
        r == has_suffix(cs@.take(end as int), ps@),
{
    let off = end - ps.len();
    let mut i: usize = 0;
    while i < ps.len()
        invariant
            0 <= i <= ps.len(),
            off == end - ps.len(),
            ps.len() <= end <= cs.len(),
            forall|j: int| 0 <= j < i ==> cs@[off + j] == ps@[j],
        decreases ps.len() - i,
    {
        if cs[off + i] != ps[i] {
            proof {
                let t = cs@.take(end as int);
                assert(t.skip(t.len() - ps@.len())[i as int] == cs@[off + i]);
            }
            return false;
        }
        i = i + 1;
    }
    proof {
        let t = cs@.take(end as int);
        assert(t.skip(t.len() - ps@.len()) =~= ps@);
    }
    true
}

/// `str::trim`.
pub fn trim(s: &str) -> (r: String)
    ensures
        r@ == trim_seq(s@),
{
    let cs = chars_of(s);
    let t = trim_chars(&cs);
    string_from_chars(&t)
}

// ---------------------------------------------------------------------------
// Unicode lowercase (std, named)
// ---------------------------------------------------------------------------

/// What `str::to_lowercase` returns for a string with the given characters
/// (the Unicode `Lowercase` mapping, which can change the length).
pub uninterp spec fn unicode_lowercase(s: Seq<char>) -> Seq<char>;

/// `str::to_lowercase`. The Unicode case tables are not restated: the result
/// is named by [`unicode_lowercase`] over the argument's characters.
#[verifier::external_body]
pub(crate) fn to_lowercase(s: &str) -> (r: String)
    ensures
        r@ == unicode_lowercase(s@),
{
    s.to_lowercase()
}

/// What `str::to_uppercase` returns for a string with the given characters
/// (the Unicode `Uppercase` mapping, which can change the length).
pub uninterp spec fn unicode_uppercase(s: Seq<char>) -> Seq<char>;

/// `str::to_uppercase`. The Unicode case tables are not restated: the result
/// is named by [`unicode_uppercase`] over the argument's characters.
#[verifier::external_body]
pub(crate) fn to_uppercase(s: &str) -> (r: String)
    ensures
        r@ == unicode_uppercase(s@),
{
    s.to_uppercase()
}

// ---------------------------------------------------------------------------
// Splitting
// ---------------------------------------------------------------------------

/// The pieces `str::split(c)` yields, with `cur` the piece built so far.
pub open spec fn split_from(s: Seq<char>, c: char, cur: Seq<char>) -> Seq<Seq<char>>
    decreases s.len(),
{
    if s.len() == 0 {
        seq![cur]
    } else if s[0] == c {
        seq![cur] + split_from(s.drop_first(), c, Seq::empty())
    } else {
        split_from(s.drop_first(), c, cur.push(s[0]))
    }
}

/// `str::split(c)` on views: the maximal runs between occurrences of `c`.
pub open spec fn split_seq(s: Seq<char>, c: char) -> Seq<Seq<char>> {
    split_from(s, c, Seq::empty())
}

pub open spec fn views_of(v: Seq<Vec<char>>) -> Seq<Seq<char>> {
    v.map_values(|x: Vec<char>| x@)
}

proof fn lemma_split_from_nonempty(s: Seq<char>, c: char, cur: Seq<char>)
    ensures
        split_from(s, c, cur).len() > 0,
    decreases s.len(),
{
    if s.len() > 0 {
        if s[0] == c {
            lemma_split_from_nonempty(s.drop_first(), c, Seq::empty());
        } else {
            lemma_split_from_nonempty(s.drop_first(), c, cur.push(s[0]));
        }
    }
}

/// `split` always yields at least one piece.
pub proof fn lemma_split_nonempty(s: Seq<char>, c: char)
    ensures
        split_seq(s, c).len() > 0,
{
    lemma_split_from_nonempty(s, c, Seq::empty());
}

/// The pieces of `s` between occurrences of `c` (`str::split`).
pub fn split_chars(s: &Vec<char>, c: char) -> (r: Vec<Vec<char>>)
    ensures
        views_of(r@) == split_seq(s@, c),
{
    let mut pieces: Vec<Vec<char>> = Vec::new();
    let mut cur: Vec<char> = Vec::new();
    let mut i: usize = 0;
    assert(views_of(pieces@) == Seq::<Seq<char>>::empty());
    assert(s@.skip(0) == s@);
    assert(cur@ == Seq::<char>::empty());
    assert(views_of(pieces@) + split_from(s@.skip(0), c, cur@) == split_from(s@, c, cur@));
    while i < s.len()
        invariant
            0 <= i <= s.len(),
            views_of(pieces@) + split_from(s@.skip(i as int), c, cur@) == split_seq(s@, c),
        decreases s.len() - i,
    {
        let ghost rest = s@.skip(i as int);
        assert(rest.drop_first() == s@.skip(i + 1));
        if s[i] == c {
            let done = cur;
            cur = Vec::new();
            let ghost old_pieces = views_of(pieces@);
            pieces.push(done);
            assert(views_of(pieces@) == old_pieces.push(done@));
            assert(seq![done@] + split_from(rest.drop_first(), c, Seq::empty()) == split_from(rest, c, done@));
            assert(old_pieces + (seq![done@] + split_from(rest.drop_first(), c, Seq::empty()))
                == old_pieces.push(done@) + split_from(rest.drop_first(), c, Seq::empty()));
        } else {
            cur.push(s[i]);
        }
        i = i + 1;
    }
    let ghost old_pieces = views_of(pieces@);
    pieces.push(cur);
    assert(s@.skip(s.len() as int) == Seq::<char>::empty());
    assert(views_of(pieces@) == old_pieces.push(cur@));
    assert(old_pieces + seq![cur@] == old_pieces.push(cur@));
    pieces
}

// ---------------------------------------------------------------------------
// Decimal rendering
// ---------------------------------------------------------------------------

pub open spec fn digit_char(d: nat) -> char {
    ((d + 48) as u32) as char
}

/// The decimal digits of `n`, most significant first, without leading zeros.
pub open spec fn decimal(n: nat) -> Seq<char>
    decreases n,
{
    if n < 10 {
        seq![digit_char(n)]
    } else {
        decimal(n / 10).push(digit_char(n % 10))
    }
}

/// The `Display` text of a signed integer.
pub open spec fn decimal_int(n: int) -> Seq<char> {
    if n < 0 {
        seq!['-'] + decimal((-n) as nat)
    } else {
        decimal(n as nat)
    }
}

fn digit_to_char(d: u64) -> (c: char)
    requires
        d < 10,
    ensures
        c == digit_char(d as nat),
{
    let b: u8 = (d + 48) as u8;
    b as char
}

/// Appends the decimal digits of `n` to `out`.
fn push_decimal(out: &mut Vec<char>, n: u64)
    ensures
        final(out)@ == old(out)@ + decimal(n as nat),
    decreases n,
{
    if n >= 10 {
        push_decimal(out, n / 10);
    }
    let d = digit_to_char(n % 10);
    out.push(d);
    proof {
        if n >= 10 {
            assert(decimal(n as nat) == decimal((n / 10) as nat).push(digit_char((n % 10) as nat)));
        }
    }
}

/// Reading the decimal digits of `n` back gives `n`; so distinct numbers
/// have distinct decimal texts.
pub proof fn lemma_decimal_value(n: nat)
    ensures
        digits_value(decimal(n)) == n,
        decimal(n).len() > 0,
    decreases n,
{
    if n < 10 {
        let d = decimal(n);
        assert(d == seq![digit_char(n)]);
        assert(d.drop_last() =~= Seq::<char>::empty());
        assert((digit_char(n) as u32) == n + 48);
        assert(d.last() == digit_char(n));
        assert(digits_value(d) == digits_value(d.drop_last()) * 10 + ((d.last() as u32) - 48) as nat);
        assert(digits_value(d.drop_last()) == 0);
    } else {
        lemma_decimal_value(n / 10);
        let d = decimal(n);
        assert(d.drop_last() =~= decimal(n / 10));
        assert((digit_char(n % 10) as u32) == n % 10 + 48);
        assert(d.last() == digit_char(n % 10));
        assert(digits_value(d) == digits_value(decimal(n / 10)) * 10 + ((d.last() as u32) - 48) as nat);
        assert((n / 10) * 10 + n % 10 == n) by (nonlinear_arith);
    }
}

/// If `f` takes `m` distinct values on `0..m` and each of them occurs in
/// `s`, then `s` has at least `m` entries.
pub proof fn lemma_distinct_values_fit(s: Seq<Seq<char>>, f: spec_fn(int) -> Seq<char>, m: int)
    requires
        0 <= m,
        forall|i: int, j: int| 0 <= i < m && 0 <= j < m && #[trigger] f(i) == #[trigger] f(j) ==> i == j,
        forall|i: int| 0 <= i < m ==> s.contains(#[trigger] f(i)),
    ensures
        m <= s.len(),
{
    let x = vstd::set_lib::set_int_range(0, m);
    vstd::set_lib::lemma_int_range(0, m);
    let y = x.map(f);
    assert(vstd::relations::injective_on(f, x));
    vstd::set_lib::lemma_map_size(x, y, f);
    vstd::seq_lib::seq_to_set_is_finite(s);
    assert forall|a: Seq<char>| y.contains(a) implies s.to_set().contains(a) by {
        let i = choose|i: int| x.contains(i) && a == f(i);
        assert(s.contains(f(i)));
    }
    vstd::set_lib::lemma_len_subset(y, s.to_set());
    s.lemma_cardinality_of_set();
}

/// The `Display` text of a `u64` (`u64::to_string`).
pub fn u64_to_string(n: u64) -> (r: String)
    ensures
        r@ == decimal(n as nat),
{
    let mut out: Vec<char> = Vec::new();
    push_decimal(&mut out, n);
    string_from_chars(&out)
}

/// The `Display` text of an `i64` (`i64::to_string`).
pub fn i64_to_string(n: i64) -> (r: String)
    ensures
        r@ == decimal_int(n as int),
{
    if n < 0 {
        let mag: u64 = if n == i64::MIN {
            9223372036854775808u64
        } else {
            (-n) as u64
        };
        let digits = u64_to_string(mag);
        let mut r = String::new();
        push_char(&mut r, '-');
        push_str(&mut r, digits.as_str());
        assert(r@ == seq!['-'] + decimal(mag as nat));
        r
    } else {
        u64_to_string(n as u64)
    }
}

/// The `Display` text of a `usize`.
pub fn usize_to_string(n: usize) -> (r: String)
    ensures
        r@ == decimal(n as nat),
{
    u64_to_string(n as u64)
}

// ---------------------------------------------------------------------------
// Decimal parsing
// ---------------------------------------------------------------------------

/// The value of a string of decimal digits.
pub open spec fn digits_value(s: Seq<char>) -> nat
    decreases s.len(),
{
    if s.len() == 0 {
        0
    } else {
        digits_value(s.drop_last()) * 10 + ((s.last() as u32) - 48) as nat
    }
}

/// The text after an optional leading `+`.
pub open spec fn unsigned_digits(s: Seq<char>) -> Seq<char> {
    if s.len() > 0 && s[0] == '+' {
        s.skip(1)
    } else {
        s
    }
}

pub open spec fn all_digits(d: Seq<char>) -> bool {
    forall|i: int| 0 <= i < d.len() ==> is_ascii_digit(#[trigger] d[i])
}

/// What `str::parse::<u64>` gives: an optional `+`, then one or more ASCII
/// digits whose value fits in 64 bits; anything else is refused.
pub open spec fn parse_u64_spec(s: Seq<char>) -> Option<u64> {
    let d = unsigned_digits(s);
    if d.len() > 0 && all_digits(d) && digits_value(d) <= u64::MAX {
        Some(digits_value(d) as u64)
    } else {
        None
    }
}

proof fn lemma_digits_value_monotone(s: Seq<char>, i: int)
    requires
        0 <= i <= s.len(),
        forall|k: int| 0 <= k < s.len() ==> is_ascii_digit(#[trigger] s[k]),
    ensures
        digits_value(s.take(i)) <= digits_value(s),
    decreases s.len() - i,
{
    if i < s.len() {
        lemma_digits_value_monotone(s, i + 1);
        assert(s.take(i + 1).drop_last() == s.take(i));
        assert(s.take(i + 1).last() == s[i]);
    } else {
        assert(s.take(i) == s);
    }
}

/// `str::parse::<u64>`.
pub fn parse_u64(s: &str) -> (r: Option<u64>)
    ensures
        r == parse_u64_spec(s@),
{
    let cs = chars_of(s);
    let ghost d = unsigned_digits(s@);
    let start: usize = if cs.len() > 0 && cs[0] == '+' {
        1
    } else {
        0
    };
    if start >= cs.len() {
        assert(d.len() == 0);
        return None;
    }
    let mut acc: u64 = 0;
    let mut i: usize = start;
    while i < cs.len()
        invariant
            cs@ == s@,
            start <= i <= cs.len(),
            d == cs@.skip(start as int),
            d == unsigned_digits(s@),
            forall|k: int| 0 <= k < i - start ==> is_ascii_digit(#[trigger] d[k]),
            acc as nat == digits_value(d.take(i - start)),
        decreases cs.len() - i,
    {
        let c = cs[i];
        assert(d[i - start] == c);
        if !(c >= '0' && c <= '9') {
            assert(!is_ascii_digit(d[i - start]));
            assert(!all_digits(d));
            return None;
        }
        let dv: u64 = (c as u32 - 48) as u64;
        assert(d.take(i - start + 1).drop_last() == d.take(i - start));
        assert(d.take(i - start + 1).last() == c);
        if acc > (u64::MAX - dv) / 10 {
            proof {
                assert(acc * 10 + dv > u64::MAX) by (nonlinear_arith)
                    requires
                        acc > (u64::MAX - dv) / 10,
                        dv < 10,
                ;
                if all_digits(d) {
                    lemma_digits_value_monotone(d, i - start + 1);
                }
            }
            return None;
        }
        acc = acc * 10 + dv;
        i = i + 1;
    }
    assert(d.take(i - start) == d);
    Some(acc)
}

// ---------------------------------------------------------------------------
// UTF-8 byte widths
// ---------------------------------------------------------------------------

/// Byte lengths add up under concatenation.
pub proof fn lemma_utf8_len_concat(a: Seq<char>, b: Seq<char>)
    ensures
        utf8_len(a + b) == utf8_len(a) + utf8_len(b),
    decreases b.len(),
{
    if b.len() == 0 {
        assert(a + b =~= a);
    } else {
        lemma_utf8_len_concat(a, b.drop_last());
        assert((a + b).drop_last() =~= a + b.drop_last());
        assert((a + b).last() == b.last());
    }
}

/// `char::len_utf8`.
pub open spec fn utf8_width(c: char) -> nat {
    let u = c as u32;
    if u < 0x80 {
        1
    } else if u < 0x800 {
        2
    } else if u < 0x10000 {
        3
    } else {
        4
    }
}

/// The UTF-8 byte length of a character sequence (`str::len`).
pub open spec fn utf8_len(s: Seq<char>) -> nat
    decreases s.len(),
{
    if s.len() == 0 {
        0
    } else {
        utf8_len(s.drop_last()) + utf8_width(s.last())
    }
}

pub fn char_utf8_width(c: char) -> (w: usize)
    ensures
        w == utf8_width(c),
{
    let u = c as u32;
    if u < 0x80 {
        1
    } else if u < 0x800 {
        2
    } else if u < 0x10000 {
        3
    } else {
        4
    }
}

pub proof fn lemma_utf8_len_take_step(s: Seq<char>, i: int)
    requires
        0 <= i < s.len(),
    ensures
        utf8_len(s.take(i + 1)) == utf8_len(s.take(i)) + utf8_width(s[i]),
{
    assert(s.take(i + 1).drop_last() == s.take(i));
}

pub proof fn lemma_utf8_len_monotone(s: Seq<char>, i: int, j: int)
    requires
        0 <= i <= j <= s.len(),
    ensures
        utf8_len(s.take(i)) <= utf8_len(s.take(j)),
    decreases j - i,
{
    if i < j {
        lemma_utf8_len_take_step(s, j - 1);
        lemma_utf8_len_monotone(s, i, j - 1);
    }
}

pub proof fn lemma_utf8_len_ge_len(s: Seq<char>)
    ensures
        utf8_len(s) >= s.len(),
    decreases s.len(),
{
    if s.len() > 0 {
        lemma_utf8_len_ge_len(s.drop_last());
    }
}

/// How many leading characters of `t` fit within `budget` UTF-8 bytes.
pub open spec fn fit_count(t: Seq<char>, budget: nat) -> nat
    decreases t.len(),
{
    if t.len() == 0 {
        0
    } else if utf8_width(t[0]) <= budget {
        1 + fit_count(t.drop_first(), (budget - utf8_width(t[0])) as nat)
    } else {
        0
    }
}

proof fn lemma_utf8_len_prepend(c: char, t: Seq<char>)
    ensures
        utf8_len(seq![c] + t) == utf8_width(c) + utf8_len(t),
    decreases t.len(),
{
    let ct = seq![c] + t;
    if t.len() > 0 {
        assert(ct.drop_last() == seq![c] + t.drop_last());
        assert(ct.last() == t.last());
        lemma_utf8_len_prepend(c, t.drop_last());
    } else {
        assert(ct.drop_last() == Seq::<char>::empty());
        assert(ct.last() == c);
        assert(utf8_len(Seq::<char>::empty()) == 0);
    }
}

/// The fitting prefix stays within the budget, and one more character
/// (if any) would not.
pub proof fn lemma_fit_count(t: Seq<char>, budget: nat)
    ensures
        fit_count(t, budget) <= t.len(),
        utf8_len(t.take(fit_count(t, budget) as int)) <= budget,
        fit_count(t, budget) < t.len() ==> utf8_len(t.take(fit_count(t, budget) + 1 as int)) > budget,
    decreases t.len(),
{
    let k = fit_count(t, budget);
    if t.len() == 0 {
        assert(t.take(0) == Seq::<char>::empty());
    } else if utf8_width(t[0]) <= budget {
        let rest = t.drop_first();
        let b2 = (budget - utf8_width(t[0])) as nat;
        lemma_fit_count(rest, b2);
        assert(t.take(k as int) == seq![t[0]] + rest.take((k - 1) as int));
        lemma_utf8_len_prepend(t[0], rest.take((k - 1) as int));
        if k < t.len() {
            assert(t.take(k + 1 as int) == seq![t[0]] + rest.take(k as int));
            lemma_utf8_len_prepend(t[0], rest.take(k as int));
        }
    } else {
        assert(t.take(0) == Seq::<char>::empty());
        assert(t.take(1) == seq![t[0]] + Seq::<char>::empty());
        lemma_utf8_len_prepend(t[0], Seq::<char>::empty());
    }
}

/// `fit_count` computed by a scan.
pub fn fit_prefix(cs: &Vec<char>, budget: usize) -> (k: usize)
    ensures
        k == fit_count(cs@, budget as nat),
{
    let mut k: usize = 0;
    let mut left: usize = budget;
    assert(cs@.skip(0) == cs@);
    while k < cs.len() && char_utf8_width(cs[k]) <= left
        invariant
            0 <= k <= cs.len(),
            left <= budget,
            fit_count(cs@, budget as nat) == k + fit_count(cs@.skip(k as int), left as nat),
        decreases cs.len() - k,
    {
        let w = char_utf8_width(cs[k]);
        proof {
            let r = cs@.skip(k as int);
            assert(r[0] == cs@[k as int]);
            assert(r.drop_first() == cs@.skip(k + 1));
        }
        left = left - w;
        k = k + 1;
    }
    proof {
        let r = cs@.skip(k as int);
        if k < cs.len() {
            assert(r[0] == cs@[k as int]);
        } else {
            assert(r.len() == 0);
        }
    }
    k
}

/// Whether `utf8_len(cs) > limit`, scanning no further than needed.
pub fn utf8_len_exceeds(cs: &Vec<char>, limit: usize) -> (r: bool)
    ensures
        r == (utf8_len(cs@) > limit),
{
    let mut acc: usize = 0;
    let mut i: usize = 0;
    while i < cs.len()
        invariant
            0 <= i <= cs.len(),
            acc == utf8_len(cs@.take(i as int)),
            acc <= limit,
        decreases cs.len() - i,
    {
        proof {
            lemma_utf8_len_take_step(cs@, i as int);
        }
        let w = char_utf8_width(cs[i]);
        if w > limit - acc {
            proof {
                lemma_utf8_len_monotone(cs@, i + 1, cs@.len() as int);
                assert(cs@.take(cs@.len() as int) == cs@);
            }
            return true;
        }
        acc = acc + w;
        i = i + 1;
    }
    assert(cs@.take(cs@.len() as int) == cs@);
    false
}

/// Whether `s` ends with `suffix`.
pub open spec fn has_suffix(s: Seq<char>, suffix: Seq<char>) -> bool {
    suffix.len() <= s.len() && s.skip(s.len() - suffix.len()) == suffix
}

/// `str::ends_with` on views.
pub fn ends_with(s: &str, suffix: &str) -> (r: bool)
    ensures
        r == has_suffix(s@, suffix@),
{
    let cs = chars_of(s);
    let cx = chars_of(suffix);
    if cx.len() > cs.len() {
        return false;
    }
    let off = cs.len() - cx.len();
    let mut i: usize = 0;
    while i < cx.len()
        invariant
            cs@ == s@,
            cx@ == suffix@,
            off == cs.len() - cx.len(),
            0 <= i <= cx.len(),
            forall|j: int| 0 <= j < i ==> cs@[off + j] == cx@[j],
        decreases cx.len() - i,
    {
        if cs[off + i] != cx[i] {
            assert(cs@.skip(off as int)[i as int] != cx@[i as int]);
            return false;
        }
        i = i + 1;
    }
    assert(cs@.skip(off as int) =~= cx@);
    true
}

/// `s` with every `from` character replaced by `to` (`str::replace`).
pub open spec fn replace_char_seq(s: Seq<char>, from: char, to: char) -> Seq<char> {
    s.map_values(|c: char| if c == from { to } else { c })
}

pub fn replace_char(s: &str, from: char, to: char) -> (r: String)
    ensures
        r@ == replace_char_seq(s@, from, to),
{
    let cs = chars_of(s);
    let mut out: Vec<char> = Vec::new();
    let mut i: usize = 0;
    while i < cs.len()
        invariant
            0 <= i <= cs.len(),
            out@ == replace_char_seq(cs@.take(i as int), from, to),
        decreases cs.len() - i,
    {
        let c = cs[i];
        out.push(if c == from { to } else { c });
        i = i + 1;
        assert(out@ =~= replace_char_seq(cs@.take(i as int), from, to));
    }
    assert(cs@.take(cs.len() as int) == s@);
    string_from_chars(&out)
}

// ---------------------------------------------------------------------------
// Association lists
// ---------------------------------------------------------------------------

/// Index of the first pair whose key is `k`.
pub open spec fn first_index<K, V>(s: Seq<(K, V)>, k: K) -> Option<int>
    decreases s.len(),
{
    if s.len() == 0 {
        None
    } else if s[0].0 == k {
        Some(0)
    } else {
        match first_index(s.drop_first(), k) {
            Some(i) => Some(i + 1),
            None => None,
        }
    }
}

pub proof fn lemma_first_index<K, V>(s: Seq<(K, V)>, k: K)
    ensures
        match first_index(s, k) {
            Some(i) => 0 <= i < s.len() && s[i].0 == k && forall|j: int| 0 <= j < i ==> s[j].0 != k,
            None => forall|j: int| 0 <= j < s.len() ==> s[j].0 != k,
        },
    decreases s.len(),
{
    if s.len() > 0 {
        lemma_first_index(s.drop_first(), k);
        if s[0].0 != k {
            assert forall|j: int| 1 <= j < s.len() implies s[j] == s.drop_first()[j - 1] by {}
        }
    }
}

/// `first_index` is the unique first match.
pub proof fn lemma_first_index_at<K, V>(s: Seq<(K, V)>, k: K, i: int)
    requires
        0 <= i < s.len(),
        s[i].0 == k,
        forall|j: int| 0 <= j < i ==> s[j].0 != k,
    ensures
        first_index(s, k) == Some(i),
{
    lemma_first_index(s, k);
    match first_index(s, k) {
        Some(m) => {
            if m < i {
                assert(s[m].0 != k);
            } else if m > i {
                assert(s[i].0 != k);
            }
        },
        None => {
            assert(s[i].0 != k);
        },
    }
}

/// The value stored under `k`.
pub open spec fn pair_get<K, V>(s: Seq<(K, V)>, k: K) -> Option<V> {
    match first_index(s, k) {
        Some(i) => Some(s[i].1),
        None => None,
    }
}

/// Storing `v` under `k`, in place when `k` is present, else appended.
pub open spec fn pair_set<K, V>(s: Seq<(K, V)>, k: K, v: V) -> Seq<(K, V)> {
    match first_index(s, k) {
        Some(i) => s.update(i, (k, v)),
        None => s.push((k, v)),
    }
}

/// A list of strings, as plain values.
pub open spec fn strings_view(v: Seq<String>) -> Seq<Seq<char>> {
    v.map_values(|s: String| s@)
}

/// An optional string, as a plain value.
pub open spec fn opt_view(o: Option<String>) -> Option<Seq<char>> {
    match o {
        Some(s) => Some(s@),
        None => None,
    }
}

/// An optional string slice, as a plain value.
pub open spec fn opt_str(o: Option<&str>) -> Option<Seq<char>> {
    match o {
        Some(s) => Some(s@),
        None => None,
    }
}

/// A copy of a list of strings.
pub fn copy_strings(v: &Vec<String>) -> (r: Vec<String>)
    ensures
        strings_view(r@) == strings_view(v@),
{
    let mut out: Vec<String> = Vec::new();
    let mut i: usize = 0;
    while i < v.len()
        invariant
            0 <= i <= v.len(),
            strings_view(out@) == strings_view(v@).take(i as int),
        decreases v.len() - i,
    {
        let ghost prev = out@;
        let c = v[i].clone();
        out.push(c);
        assert(strings_view(out@) =~= strings_view(prev).push(c@));
        assert(strings_view(out@) =~= strings_view(v@).take(i + 1));
        i = i + 1;
    }
    assert(strings_view(v@).take(i as int) =~= strings_view(v@));
    out
}

pub open spec fn str_pairs_view(v: Seq<(String, String)>) -> Seq<(Seq<char>, Seq<char>)> {
    v.map_values(|e: (String, String)| (e.0@, e.1@))
}

/// Index of the first pair of `v` keyed `k`.
pub fn find_str_pair(v: &Vec<(String, String)>, k: &str) -> (r: Option<usize>)
    ensures
        match r {
            Some(i) => first_index(str_pairs_view(v@), k@) == Some(i as int),
            None => first_index(str_pairs_view(v@), k@) is None,
        },
{
    let ghost sv = str_pairs_view(v@);
    let mut i: usize = 0;
    while i < v.len()
        invariant
            0 <= i <= v.len(),
            sv == str_pairs_view(v@),
            forall|j: int| 0 <= j < i ==> sv[j].0 != k@,
        decreases v.len() - i,
    {
        if str_eq(v[i].0.as_str(), k) {
            proof {
                lemma_first_index_at(sv, k@, i as int);
            }
            return Some(i);
        }
        i = i + 1;
    }
    proof {
        lemma_first_index(sv, k@);
        if let Some(m) = first_index(sv, k@) {
            assert(sv[m].0 != k@);
        }
    }
    None
}

/// `pair_set` on a string table.
pub fn set_str_pair(v: &mut Vec<(String, String)>, k: String, val: String)
    ensures
        str_pairs_view(final(v)@) == pair_set(str_pairs_view(old(v)@), k@, val@),
{
    let ghost kv = k@;
    let ghost vv = val@;
    proof {
        lemma_first_index(str_pairs_view(v@), k@);
    }
    match find_str_pair(v, k.as_str()) {
        Some(i) => {
            v.set(i, (k, val));
            assert(str_pairs_view(v@) =~= str_pairs_view(old(v)@).update(i as int, (kv, vv)));
        },
        None => {
            v.push((k, val));
            assert(str_pairs_view(v@) =~= str_pairs_view(old(v)@).push((kv, vv)));
        },
    }
}


// ---------------------------------------------------------------------------
// Ordering and substring search
// ---------------------------------------------------------------------------

/// `a <= b` in `str` order (character by character, by code point; a
/// prefix comes first).
pub open spec fn seq_le(a: Seq<char>, b: Seq<char>) -> bool
    decreases a.len(),
{
    if a.len() == 0 {
        true
    } else if b.len() == 0 {
        false
    } else if a[0] != b[0] {
        (a[0] as u32) < (b[0] as u32)
    } else {
        seq_le(a.drop_first(), b.drop_first())
    }
}

/// `a <= b` on strings.
pub fn str_le(a: &str, b: &str) -> (r: bool)
    ensures
        r == seq_le(a@, b@),
{
    let ca = chars_of(a);
    let cb = chars_of(b);
    let mut i: usize = 0;
    assert(ca@.skip(0) =~= ca@);
    assert(cb@.skip(0) =~= cb@);
    while i < ca.len() && i < cb.len()
        invariant
            0 <= i <= ca.len(),
            i <= cb.len(),
            ca@ == a@,
            cb@ == b@,
            seq_le(a@, b@) == seq_le(ca@.skip(i as int), cb@.skip(i as int)),
        decreases ca.len() - i,
    {
        assert(ca@.skip(i as int)[0] == ca@[i as int]);
        assert(cb@.skip(i as int)[0] == cb@[i as int]);
        assert(ca@.skip(i as int).drop_first() == ca@.skip(i + 1));
        assert(cb@.skip(i as int).drop_first() == cb@.skip(i + 1));
        if ca[i] != cb[i] {
            return (ca[i] as u32) < (cb[i] as u32);
        }
        i = i + 1;
    }
    if i == ca.len() {
        assert(ca@.skip(i as int).len() == 0);
        true
    } else {
        assert(cb@.skip(i as int).len() == 0);
        false
    }
}

/// `needle` occurs in `hay` as a contiguous run.
pub open spec fn contains_sub(hay: Seq<char>, needle: Seq<char>) -> bool {
    exists|i: int| 0 <= i <= hay.len() - needle.len() && #[trigger] hay.subrange(i, i + needle.len()) == needle
}

fn matches_at(hay: &Vec<char>, needle: &Vec<char>, i: usize) -> (r: bool)
    requires
        i + needle.len() <= hay.len(),
    ensures
        r == (hay@.subrange(i as int, i + needle.len()) == needle@),
{
    let mut j: usize = 0;
    while j < needle.len()
        invariant
            i + needle.len() <= hay.len(),
            0 <= j <= needle.len(),
            forall|k: int| 0 <= k < j ==> hay@[i + k] == needle@[k],
        decreases needle.len() - j,
    {
        if hay[i + j] != needle[j] {
            assert(hay@.subrange(i as int, i + needle.len())[j as int] != needle@[j as int]);
            return false;
        }
        j = j + 1;
    }
    assert(hay@.subrange(i as int, i + needle.len()) =~= needle@);
    true
}

/// `str::contains` for a string needle.
pub fn str_contains(hay: &str, needle: &str) -> (r: bool)
    ensures
        r == contains_sub(hay@, needle@),
{
    let h = chars_of(hay);
    let n = chars_of(needle);
    if n.len() > h.len() {
        return false;
    }
    let mut i: usize = 0;
    let last = h.len() - n.len();
    while i <= last
        invariant
            h@ == hay@,
            n@ == needle@,
            n.len() <= h.len(),
            last == h.len() - n.len(),
            0 <= i <= last + 1,
            forall|k: int| 0 <= k < i ==> #[trigger] h@.subrange(k, k + n.len()) != n@,
        decreases last + 1 - i,
    {
        if matches_at(&h, &n, i) {
            return true;
        }
        if i == last {
            return false;
        }
        i = i + 1;
    }
    false
}


/// A copy of a character vector.
pub fn copy_chars(v: &Vec<char>) -> (r: Vec<char>)
    ensures
        r@ == v@,
{
    let mut out: Vec<char> = Vec::new();
    let mut i: usize = 0;
    while i < v.len()
        invariant
            0 <= i <= v.len(),
            out@ == v@.take(i as int),
        decreases v.len() - i,
    {
        out.push(v[i]);
        i = i + 1;
        assert(out@ =~= v@.take(i as int));
    }
    assert(v@.take(i as int) =~= v@);
    out
}


/// `items` joined with `sep` between consecutive items.
pub open spec fn join_with(items: Seq<Seq<char>>, sep: Seq<char>) -> Seq<char>
    decreases items.len(),
{
    if items.len() == 0 {
        Seq::empty()
    } else if items.len() == 1 {
        items[0]
    } else {
        join_with(items.drop_last(), sep) + sep + items.last()
    }
}

/// `[String]::join(sep)`.
pub fn join_strings(items: &Vec<String>, sep: &str) -> (r: String)
    ensures
        r@ == join_with(items@.map_values(|s: String| s@), sep@),
{
    let ghost iv = items@.map_values(|s: String| s@);
    let mut out = String::new();
    let mut i: usize = 0;
    assert(join_with(iv.take(0), sep@) =~= Seq::<char>::empty());
    while i < items.len()
        invariant
            0 <= i <= items.len(),
            iv == items@.map_values(|s: String| s@),
            out@ == join_with(iv.take(i as int), sep@),
        decreases items.len() - i,
    {
        assert(iv.take(i + 1).drop_last() == iv.take(i as int));
        assert(iv.take(i + 1).last() == items@[i as int]@);
        if i > 0 {
            push_str(&mut out, sep);
        }
        push_str(&mut out, items[i].as_str());
        proof {
            if i == 0 {
                assert(iv.take(1).len() == 1);
                assert(out@ =~= iv.take(1)[0]);
            }
        }
        i = i + 1;
    }
    assert(iv.take(items.len() as int) == iv);
    out
}


// ---------------------------------------------------------------------------
// Padding
// ---------------------------------------------------------------------------

pub open spec fn spaces(n: nat) -> Seq<char> {
    Seq::new(n, |i: int| ' ')
}

/// `s` left-aligned in a field of `width` characters (`{:<width}`).
pub open spec fn pad_right_seq(s: Seq<char>, width: nat) -> Seq<char> {
    if s.len() < width {
        s + spaces((width - s.len()) as nat)
    } else {
        s
    }
}

/// `format!("{:<width$}", s)`.
pub fn pad_right(s: &str, width: usize) -> (r: String)
    ensures
        r@ == pad_right_seq(s@, width as nat),
{
    let n = chars_of(s).len();
    let mut r = owned(s);
    if n >= width {
        return r;
    }
    let mut k: usize = n;
    assert(r@ =~= s@ + spaces(0));
    while k < width
        invariant
            n == s@.len(),
            n <= k <= width,
            r@ == s@ + spaces((k - n) as nat),
        decreases width - k,
    {
        push_char(&mut r, ' ');
        assert(spaces((k + 1 - n) as nat) =~= spaces((k - n) as nat).push(' '));
        k = k + 1;
    }
    r
}

} // verus!
