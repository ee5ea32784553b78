//! Character-level helpers shared by the completion engine and the renderers.
//!
//! Every helper works on the Unicode scalar values of a string. All patterns
//! searched for are ASCII, so a match position over characters corresponds to
//! exactly one match position over the UTF-8 bytes.

use vstd::prelude::*;

verus! {

/// `pat` occurs in `s` starting at character index `i`.
pub open spec fn starts_at(s: Seq<char>, i: int, pat: Seq<char>) -> bool {
    0 <= i && i + pat.len() <= s.len() && s.subrange(i, i + pat.len()) == pat
}

/// `s` ends with `pat`.
pub open spec fn ends_with(s: Seq<char>, pat: Seq<char>) -> bool {
    pat.len() <= s.len() && starts_at(s, s.len() - pat.len(), pat)
}

/// `pat` occurs somewhere in `s`.
pub open spec fn contains(s: Seq<char>, pat: Seq<char>) -> bool {
    exists|i: int| starts_at(s, i, pat)
}

/// `pat` occurs in `s` at some index at or after `start`.
pub open spec fn occurs_from(s: Seq<char>, pat: Seq<char>, start: int) -> bool {
    exists|i: int| start <= i && #[trigger] starts_at(s, i, pat)
}

/// Start of the last occurrence of `pat` at or before index `i`.
pub open spec fn rfind_from(s: Seq<char>, pat: Seq<char>, i: int) -> Option<int>
    decreases i + 1,
{
    if i < 0 {
        None
    } else if starts_at(s, i, pat) {
        Some(i)
    } else {
        rfind_from(s, pat, i - 1)
    }
}

/// Start of the last occurrence of `pat` in `s`, as `str::rfind` reports it.
pub open spec fn rfind(s: Seq<char>, pat: Seq<char>) -> Option<int> {
    rfind_from(s, pat, s.len() - pat.len())
}

/// Number of non-overlapping occurrences of `pat` found scanning left to right
/// from index `i`, as `str::matches(..).count()` reports them.
pub open spec fn count_from(s: Seq<char>, pat: Seq<char>, i: int) -> nat
    decreases s.len() - i,
{
    if pat.len() == 0 || i < 0 || i + pat.len() > s.len() {
        0
    } else if starts_at(s, i, pat) {
        1 + count_from(s, pat, i + pat.len())
    } else {
        count_from(s, pat, i + 1)
    }
}

/// An ASCII letter or digit, or `_`: the characters of an element keyword.
pub open spec fn is_keyword_char(c: char) -> bool {
    ('a' <= c && c <= 'z') || ('A' <= c && c <= 'Z') || ('0' <= c && c <= '9') || c == '_'
}

/// Index of the first non-keyword character at or after `i` (or `s.len()`).
pub open spec fn keyword_end(s: Seq<char>, i: int) -> int
    decreases s.len() - i,
{
    if i >= s.len() {
        s.len() as int
    } else if i < 0 || !is_keyword_char(s[i]) {
        i
    } else {
        keyword_end(s, i + 1)
    }
}

/// Collects the characters of `s` into a vector.
pub fn to_chars(s: &str) -> (r: Vec<char>)
    ensures
        r@ == s@,
{
    let mut v: Vec<char> = Vec::new();
    for c in it: s.chars()
        invariant
            v@ == it.seq().take(it.index() as int),
    {
        v.push(c);
    }
    v
}

/// Character equality of two strings.
pub fn str_eq(a: &str, b: &str) -> (r: bool)
    ensures
        r == (a@ == b@),
{
    let x = to_chars(a);
    let y = to_chars(b);
    if x.len() != y.len() {
        return false;
    }
    let mut i: usize = 0;
    while i < x.len()
        invariant
            x@ == a@,
            y@ == b@,
            x.len() == y.len(),
            i <= x.len(),
            forall|j: int| 0 <= j < i ==> x@[j] == y@[j],
        decreases x.len() - i,
    {
        if x[i] != y[i] {
            return false;
        }
        i = i + 1;
    }
    assert(x@ =~= y@);
    true
}

/// Is `pat` found in `s` at index `i`?
pub fn starts_at_exec(s: &[char], i: usize, pat: &[char]) -> (r: bool)
    ensures
        r == starts_at(s@, i as int, pat@),
{
    if i > s.len() || pat.len() > s.len() - i {
        return false;
    }
    let mut k: usize = 0;
    while k < pat.len()
        invariant
            i + pat.len() <= s.len(),
            k <= pat.len(),
            forall|j: int| 0 <= j < k ==> s@[i + j] == pat@[j],
        decreases pat.len() - k,
    {
        if s[i + k] != pat[k] {
            assert(s@.subrange(i as int, i + pat.len())[k as int] != pat@[k as int]);
            return false;
        }
        k = k + 1;
    }
    assert(s@.subrange(i as int, i + pat.len()) =~= pat@);
    true
}

/// Does `s` end with `pat`?
pub fn ends_with_exec(s: &[char], pat: &[char]) -> (r: bool)
    ensures
        r == ends_with(s@, pat@),
{
    if pat.len() > s.len() {
        return false;
    }
    starts_at_exec(s, s.len() - pat.len(), pat)
}

/// Index of the last occurrence of `pat` in `s`.
pub fn rfind_exec(s: &[char], pat: &[char]) -> (r: Option<usize>)
    ensures
        match r {
            Some(i) => rfind(s@, pat@) == Some(i as int) && starts_at(s@, i as int, pat@) && i
                + pat.len() <= s.len(),
            None => rfind(s@, pat@) is None,
        },
{
    if pat.len() > s.len() {
        assert(rfind_from(s@, pat@, s@.len() - pat@.len()) is None);
        return None;
    }
    let mut i: usize = s.len() - pat.len();
    loop
        invariant
            i <= s.len() - pat.len(),
            pat.len() <= s.len(),
            rfind(s@, pat@) == rfind_from(s@, pat@, i as int),
        decreases i,
    {
        if starts_at_exec(s, i, pat) {
            return Some(i);
        }
        if i == 0 {
            assert(rfind_from(s@, pat@, -1) is None);
            return None;
        }
        i = i - 1;
    }
}

/// Number of non-overlapping occurrences of `pat` in `s[start..]`.
pub fn count_exec(s: &[char], pat: &[char], start: usize) -> (r: usize)
    requires
        pat.len() > 0,
        start <= s.len(),
    ensures
        r == count_from(s@, pat@, start as int),
{
    let mut i: usize = start;
    let mut n: usize = 0;
    while pat.len() <= s.len() - i
        invariant
            pat.len() > 0,
            i <= s.len(),
            start <= i,
            n <= i - start,
            n + count_from(s@, pat@, i as int) == count_from(s@, pat@, start as int),
        decreases s.len() - i,
    {
        if starts_at_exec(s, i, pat) {
            n = n + 1;
            i = i + pat.len();
        } else {
            i = i + 1;
        }
    }
    n
}

/// Index of the first non-keyword character at or after `i`.
pub fn keyword_end_exec(s: &[char], i: usize) -> (r: usize)
    requires
        i <= s.len(),
    ensures
        r as int == keyword_end(s@, i as int),
        i <= r <= s.len(),
{
    let mut j = i;
    while j < s.len() && (('a' <= s[j] && s[j] <= 'z') || ('A' <= s[j] && s[j] <= 'Z') || (
    '0' <= s[j] && s[j] <= '9') || s[j] == '_')
        invariant
            i <= j <= s.len(),
            keyword_end(s@, i as int) == keyword_end(s@, j as int),
        decreases s.len() - j,
    {
        j = j + 1;
    }
    j
}

/// Does `pat` occur in `s` at or after index `start`?
pub fn occurs_from_exec(s: &[char], pat: &[char], start: usize) -> (r: bool)
    requires
        start <= s.len(),
    ensures
        r == occurs_from(s@, pat@, start as int),
{
    let mut i: usize = start;
    while i < s.len()
        invariant
            start <= i <= s.len(),
            forall|j: int| start <= j < i ==> !starts_at(s@, j, pat@),
        decreases s.len() - i,
    {
        if starts_at_exec(s, i, pat) {
            return true;
        }
        i = i + 1;
    }
    if starts_at_exec(s, i, pat) {
        return true;
    }
    assert forall|j: int| start <= j implies !#[trigger] starts_at(s@, j, pat@) by {
        if j > s.len() {
            assert(!starts_at(s@, j, pat@));
        }
    }
    false
}

/// Lexicographic order on character sequences, by code point: the order of
/// `String`'s `Ord` (UTF-8 byte order coincides with code point order).
pub open spec fn lex_lt(a: Seq<char>, b: Seq<char>) -> bool
    decreases a.len(),
{
    if a.len() == 0 {
        b.len() > 0
    } else if b.len() == 0 {
        false
    } else if a[0] != b[0] {
        a[0] < b[0]
    } else {
        lex_lt(a.drop_first(), b.drop_first())
    }
}

/// No sequence precedes itself.
pub proof fn lemma_lex_irreflexive(a: Seq<char>)
    ensures
        !lex_lt(a, a),
    decreases a.len(),
{
    if a.len() > 0 {
        lemma_lex_irreflexive(a.drop_first());
    }
}

/// The order is transitive.
pub proof fn lemma_lex_transitive(a: Seq<char>, b: Seq<char>, c: Seq<char>)
    requires
        lex_lt(a, b),
        lex_lt(b, c),
    ensures
        lex_lt(a, c),
    decreases a.len(),
{
    if a.len() > 0 && b.len() > 0 && c.len() > 0 && a[0] == b[0] && b[0] == c[0] {
        lemma_lex_transitive(a.drop_first(), b.drop_first(), c.drop_first());
    }
}

/// Two distinct sequences are ordered one way or the other.
pub proof fn lemma_lex_total(a: Seq<char>, b: Seq<char>)
    requires
        a != b,
    ensures
        lex_lt(a, b) || lex_lt(b, a),
    decreases a.len(),
{
    if a.len() > 0 && b.len() > 0 && a[0] == b[0] {
        if a.drop_first() == b.drop_first() {
            assert(a =~= seq![a[0]] + a.drop_first());
            assert(b =~= seq![b[0]] + b.drop_first());
        }
        lemma_lex_total(a.drop_first(), b.drop_first());
    } else if a.len() == 0 && b.len() == 0 {
        assert(a =~= b);
    }
}

/// Does `a` precede `b` in the order of `lex_lt`?
pub fn lex_less(a: &str, b: &str) -> (r: bool)
    ensures
        r == lex_lt(a@, b@),
{
    let x = to_chars(a);
    let y = to_chars(b);
    let mut i: usize = 0;
    assert(x@.skip(0) =~= x@);
    assert(y@.skip(0) =~= y@);
    while i < x.len() && i < y.len()
        invariant
            x@ == a@,
            y@ == b@,
            i <= x.len(),
            i <= y.len(),
            lex_lt(a@, b@) == lex_lt(x@.skip(i as int), y@.skip(i as int)),
        decreases x.len() - i,
    {
        if x[i] != y[i] {
            return x[i] < y[i];
        }
        assert(x@.skip(i as int).drop_first() =~= x@.skip(i + 1));
        assert(y@.skip(i as int).drop_first() =~= y@.skip(i + 1));
        i = i + 1;
    }
    i < y.len()
}

/// The characters with the Unicode `White_Space` property, those that
/// `char::is_whitespace` accepts and `str::trim` removes.
pub open spec fn is_white_space(c: char) -> bool {
    ('\u{9}' <= c && c <= '\u{d}') || c == ' ' || c == '\u{85}' || c == '\u{a0}' || c
        == '\u{1680}' || ('\u{2000}' <= c && c <= '\u{200a}') || c == '\u{2028}' || c
        == '\u{2029}' || c == '\u{202f}' || c == '\u{205f}' || c == '\u{3000}'
}

pub fn is_white_space_exec(c: char) -> (r: bool)
    ensures
        r == is_white_space(c),
{
    ('\u{9}' <= c && c <= '\u{d}') || c == ' ' || c == '\u{85}' || c == '\u{a0}' || c
        == '\u{1680}' || ('\u{2000}' <= c && c <= '\u{200a}') || c == '\u{2028}' || c
        == '\u{2029}' || c == '\u{202f}' || c == '\u{205f}' || c == '\u{3000}'
}

/// Index of the first non-white-space character of `s` at or after `i`.
pub open spec fn trim_start_index(s: Seq<char>, i: int) -> int
    decreases s.len() - i,
{
    if i >= s.len() || i < 0 || !is_white_space(s[i]) {
        i
    } else {
        trim_start_index(s, i + 1)
    }
}

/// One past the index of the last non-white-space character of `s` before
/// `j`, not below `lo`.
pub open spec fn trim_end_index(s: Seq<char>, lo: int, j: int) -> int
    decreases j - lo,
{
    if j <= lo || !is_white_space(s[j - 1]) {
        j
    } else {
        trim_end_index(s, lo, j - 1)
    }
}

/// `s` without leading and trailing white space, as `str::trim` gives it.
pub open spec fn trim(s: Seq<char>) -> Seq<char> {
    let lo = trim_start_index(s, 0);
    s.subrange(lo, trim_end_index(s, lo, s.len() as int))
}

/// Where the scan for the first non-white-space character stops.
pub proof fn lemma_trim_start_index(s: Seq<char>, i: int)
    requires
        0 <= i <= s.len(),
    ensures
        i <= trim_start_index(s, i) <= s.len(),
        trim_start_index(s, i) < s.len() ==> !is_white_space(s[trim_start_index(s, i)]),
    decreases s.len() - i,
{
    if i < s.len() && is_white_space(s[i]) {
        lemma_trim_start_index(s, i + 1);
    }
}

/// Where the scan back for the last non-white-space character stops.
pub proof fn lemma_trim_end_index(s: Seq<char>, lo: int, j: int)
    requires
        0 <= lo <= j <= s.len(),
    ensures
        lo <= trim_end_index(s, lo, j) <= j,
        trim_end_index(s, lo, j) > lo ==> !is_white_space(s[trim_end_index(s, lo, j) - 1]),
    decreases j - lo,
{
    if j > lo && is_white_space(s[j - 1]) {
        lemma_trim_end_index(s, lo, j - 1);
    }
}

/// Trimming twice trims no more than once.
pub proof fn lemma_trim_idempotent(s: Seq<char>)
    ensures
        trim(trim(s)) == trim(s),
{
    let lo = trim_start_index(s, 0);
    lemma_trim_start_index(s, 0);
    let hi = trim_end_index(s, lo, s.len() as int);
    lemma_trim_end_index(s, lo, s.len() as int);
    let t = trim(s);
    if t.len() == 0 {
        assert(trim(t) =~= t);
    } else {
        assert(t[0] == s[lo]);
        assert(trim_start_index(t, 0) == 0);
        assert(t[t.len() - 1] == s[hi - 1]);
        assert(trim_end_index(t, 0, t.len() as int) == t.len());
        assert(trim(t) =~= t);
    }
}

/// The bounds `(lo, hi)` of `trim(s)` within `s`.
pub fn trim_bounds(s: &[char]) -> (r: (usize, usize))
    ensures
        r.0 == trim_start_index(s@, 0),
        r.1 == trim_end_index(s@, r.0 as int, s@.len() as int),
        r.0 <= r.1 <= s.len(),
{
    let mut lo: usize = 0;
    while lo < s.len() && is_white_space_exec(s[lo])
        invariant
            lo <= s.len(),
            trim_start_index(s@, 0) == trim_start_index(s@, lo as int),
        decreases s.len() - lo,
    {
        lo = lo + 1;
    }
    let mut hi: usize = s.len();
    while hi > lo && is_white_space_exec(s[hi - 1])
        invariant
            lo <= hi <= s.len(),
            trim_end_index(s@, lo as int, s@.len() as int) == trim_end_index(s@, lo as int, hi as int),
        decreases hi,
    {
        hi = hi - 1;
    }
    (lo, hi)
}

/// `s` without leading and trailing white space.
pub fn trim_str(s: &str) -> (r: &str)
    ensures
        r@ == trim(s@),
{
    let chars = to_chars(s);
    let (lo, hi) = trim_bounds(chars.as_slice());
    s.substring_char(lo, hi)
}

/// ASCII upper-case letters mapped to lower case, other characters kept.
pub open spec fn ascii_lower(c: char) -> char {
    if 'A' <= c && c <= 'Z' {
        ((c as u8) + 32) as char
    } else {
        c
    }
}

/// `s` starts with `pat` when ASCII letters are compared case-insensitively
/// (`pat` being lower case).
pub open spec fn starts_with_ignore_ascii_case(s: Seq<char>, i: int, pat: Seq<char>) -> bool {
    0 <= i && i + pat.len() <= s.len() && forall|k: int|
        0 <= k < pat.len() ==> ascii_lower(#[trigger] s[i + k]) == pat[k]
}

pub fn ascii_lower_exec(c: char) -> (r: char)
    ensures
        r == ascii_lower(c),
{
    if 'A' <= c && c <= 'Z' {
        ((c as u8) + 32) as char
    } else {
        c
    }
}

/// Does `s` hold `pat` at `i`, ignoring ASCII case?
pub fn starts_with_ignore_ascii_case_exec(s: &[char], i: usize, pat: &[char]) -> (r: bool)
    ensures
        r == starts_with_ignore_ascii_case(s@, i as int, pat@),
{
    if i > s.len() || pat.len() > s.len() - i {
        return false;
    }
    let mut k: usize = 0;
    while k < pat.len()
        invariant
            i + pat.len() <= s.len(),
            k <= pat.len(),
            forall|j: int| 0 <= j < k ==> ascii_lower(#[trigger] s@[i + j]) == pat@[j],
        decreases pat.len() - k,
    {
        if ascii_lower_exec(s[i + k]) != pat[k] {
            return false;
        }
        k = k + 1;
    }
    true
}

} // verus!
