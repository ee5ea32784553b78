//! Inline style assembly and the shared dark-mode style rules.

use std::collections::hash_map::DefaultHasher;
use std::hash::{Hash, Hasher};

use vstd::prelude::*;
use vstd::std_specs::hash::DefaultHasherAdditionalSpecFns;

use crate::fmt::{chars_to_string, hex_bound, is_hex_digit, lemma_lower_hex_digits, lower_hex, push_lower_hex, push_str};
use crate::text::{
    ascii_lower, ends_with, ends_with_exec, is_white_space, starts_with_ignore_ascii_case,
    starts_with_ignore_ascii_case_exec, to_chars, trim, trim_bounds, lemma_trim_start_index,
    lemma_trim_end_index, trim_start_index, trim_end_index, starts_at,
};

verus! {

/// `style`
pub open spec fn style_word() -> Seq<char> {
    seq!['s', 't', 'y', 'l', 'e']
}

/// A character that ends an HTML tag name: white space, `/` or `>`.
pub open spec fn ends_tag_name(c: char) -> bool {
    c == ' ' || c == '\t' || c == '\n' || c == '\u{c}' || c == '\r' || c == '/' || c == '>'
}

/// A `</style` end tag (any ASCII case) begins at index `i` of `s`: the name
/// is followed by the end of the text or by a character that ends a tag name.
pub open spec fn style_close_at(s: Seq<char>, i: int) -> bool {
    &&& 0 <= i && i + 2 <= s.len()
    &&& s[i] == '<' && s[i + 1] == '/'
    &&& starts_with_ignore_ascii_case(s, i + 2, style_word())
    &&& (i + 7 == s.len() || ends_tag_name(s[i + 7]))
}

/// The first `n` characters of `s` with a `\` inserted after the `<` of every
/// `</style` end tag.
pub open spec fn escape_style_prefix(s: Seq<char>, n: int) -> Seq<char>
    decreases n,
{
    if n <= 0 {
        seq![]
    } else if style_close_at(s, n - 1) {
        escape_style_prefix(s, n - 1) + seq!['<', '\\']
    } else {
        escape_style_prefix(s, n - 1).push(s[n - 1])
    }
}

/// `s` with `</style` end tags written `<\/style`, so that CSS text cannot
/// close the `<style>` element it is placed in.
pub open spec fn escape_style_close(s: Seq<char>) -> Seq<char> {
    escape_style_prefix(s, s.len() as int)
}

/// Escapes every `</style` end tag (ASCII case-insensitive, followed by the
/// end of the text, white space, `/` or `>`) as `<\/style`.
pub fn escape_style_close_tag(css: &str) -> (r: String)
    ensures
        r@ == escape_style_close(css@),
{
    let s = to_chars(css);
    let word = ['s', 't', 'y', 'l', 'e'];
    assert(word@ == style_word());
    let mut out: Vec<char> = Vec::new();
    let mut i: usize = 0;
    while i < s.len()
        invariant
            i <= s.len(),
            s@ == css@,
            word@ == style_word(),
            out@ == escape_style_prefix(s@, i as int),
        decreases s.len() - i,
    {
        let close = s[i] == '<' && i + 1 < s.len() && s[i + 1] == '/'
            && starts_with_ignore_ascii_case_exec(s.as_slice(), i + 2, word.as_slice()) && (i + 7
            == s.len() || (s[i + 7] == ' ' || s[i + 7] == '\t' || s[i + 7] == '\n' || s[i + 7]
            == '\u{c}' || s[i + 7] == '\r' || s[i + 7] == '/' || s[i + 7] == '>'));
        if close {
            out.push('<');
            out.push('\\');
        } else {
            out.push(s[i]);
        }
        assert(out@ =~= escape_style_prefix(s@, i + 1));
        i = i + 1;
    }
    chars_to_string(&out)
}

/// What escaping writes for character `j` of `s`.
pub open spec fn escape_piece(s: Seq<char>, j: int) -> Seq<char> {
    if style_close_at(s, j) {
        seq!['<', '\\']
    } else {
        seq![s[j]]
    }
}

/// The escaped prefix grows by the piece of each character, and an escaped
/// prefix is the start of every longer one.
proof fn lemma_escape_prefix_of(s: Seq<char>, m: int, n: int)
    requires
        0 <= m <= n <= s.len(),
    ensures
        escape_style_prefix(s, m).len() + (n - m) <= escape_style_prefix(s, n).len(),
        escape_style_prefix(s, n).subrange(0, escape_style_prefix(s, m).len() as int)
            == escape_style_prefix(s, m),
        m < n ==> escape_style_prefix(s, m + 1) == escape_style_prefix(s, m) + escape_piece(s, m),
    decreases n - m,
{
    if m < n {
        lemma_escape_prefix_of(s, m + 1, n);
        assert(escape_style_prefix(s, m + 1) =~= escape_style_prefix(s, m) + escape_piece(s, m));
        let a = escape_style_prefix(s, m).len() as int;
        let b = escape_style_prefix(s, m + 1).len() as int;
        assert(escape_style_prefix(s, n).subrange(0, a) =~= escape_style_prefix(s, n).subrange(
            0,
            b,
        ).subrange(0, a));
    } else {
        assert(escape_style_prefix(s, n).subrange(0, escape_style_prefix(s, n).len() as int)
            =~= escape_style_prefix(s, n));
    }
}

/// Every position of the escaped prefix of length `n` lies in the piece of
/// some character before `n`.
proof fn lemma_escape_locate(s: Seq<char>, n: int, p: int) -> (j: int)
    requires
        0 <= n <= s.len(),
        0 <= p < escape_style_prefix(s, n).len(),
    ensures
        0 <= j < n,
        escape_style_prefix(s, j).len() <= p < escape_style_prefix(s, j + 1).len(),
    decreases n,
{
    lemma_escape_prefix_of(s, n - 1, n);
    if p >= escape_style_prefix(s, n - 1).len() {
        n - 1
    } else {
        lemma_escape_locate(s, n - 1, p)
    }
}

/// The character of the escaped text at the start of the piece of `j`:
/// unless it is `<`, character `j` was copied unchanged.
proof fn lemma_escape_copied(s: Seq<char>, j: int, q: int)
    requires
        0 <= j <= s.len(),
        q == escape_style_prefix(s, j).len(),
        q < escape_style_close(s).len(),
        escape_style_close(s)[q] != '<',
    ensures
        j < s.len(),
        !style_close_at(s, j),
        s[j] == escape_style_close(s)[q],
        escape_style_prefix(s, j + 1).len() == q + 1,
{
    let t = escape_style_close(s);
    let n = s.len() as int;
    if j == n {
        assert(false);
    }
    lemma_escape_prefix_of(s, j, j + 1);
    lemma_escape_prefix_of(s, j + 1, n);
    let next = escape_style_prefix(s, j + 1);
    assert(t.subrange(0, next.len() as int) == next);
    assert(t[q] == next[q]);
    assert(next[q] == escape_piece(s, j)[0]);
}

/// Escaping is complete: no `</style` end tag, in any ASCII case, is left in
/// the escaped text.
pub proof fn lemma_escape_leaves_no_close_tag(s: Seq<char>, p: int)
    ensures
        !style_close_at(escape_style_close(s), p),
{
    let t = escape_style_close(s);
    let n = s.len() as int;
    if style_close_at(t, p) {
        let j = lemma_escape_locate(s, n, p);
        let q = escape_style_prefix(s, j).len() as int;
        lemma_escape_prefix_of(s, j, j + 1);
        lemma_escape_prefix_of(s, j + 1, n);
        let next = escape_style_prefix(s, j + 1);
        assert(t.subrange(0, next.len() as int) == next);
        assert(forall|k: int| 0 <= k < next.len() ==> t[k] == next[k]);
        assert(next.subrange(0, q) == escape_style_prefix(s, j));
        if style_close_at(s, j) {
            assert(next[q] == '<');
            assert(next[q + 1] == '\\');
            assert(false);
        }
        assert(p == q);
        assert(s[j] == '<');
        assert(ascii_lower('<') == '<');
        // the next six characters were copied unchanged
        lemma_escape_copied(s, j + 1, q + 1);
        assert(ascii_lower(t[p + 2 + 0]) == style_word()[0]);
        assert(ascii_lower(t[p + 2]) == 's');
        lemma_escape_copied(s, j + 2, q + 2);
        assert(ascii_lower(t[p + 2 + 1]) == style_word()[1]);
        assert(ascii_lower(t[p + 3]) == 't');
        lemma_escape_copied(s, j + 3, q + 3);
        assert(ascii_lower(t[p + 2 + 2]) == style_word()[2]);
        assert(ascii_lower(t[p + 4]) == 'y');
        lemma_escape_copied(s, j + 4, q + 4);
        assert(ascii_lower(t[p + 2 + 3]) == style_word()[3]);
        assert(ascii_lower(t[p + 5]) == 'l');
        lemma_escape_copied(s, j + 5, q + 5);
        assert(ascii_lower(t[p + 2 + 4]) == style_word()[4]);
        assert(ascii_lower(t[p + 6]) == 'e');
        lemma_escape_copied(s, j + 6, q + 6);
        if p + 7 == t.len() {
            if j + 7 < n {
                lemma_escape_prefix_of(s, j + 7, n);
                lemma_escape_prefix_of(s, j + 7, j + 8);
                assert(escape_piece(s, j + 7).len() >= 1);
                assert(false);
            }
        } else {
            lemma_escape_copied(s, j + 7, q + 7);
        }
        assert(starts_with_ignore_ascii_case(s, j + 2, style_word()));
        assert(style_close_at(s, j));
    }
}

/// Text without `</style` end tags is left as it is.
proof fn lemma_escape_prefix_clean(s: Seq<char>, n: int)
    requires
        0 <= n <= s.len(),
        forall|i: int| !style_close_at(s, i),
    ensures
        escape_style_prefix(s, n) == s.take(n),
    decreases n,
{
    if n > 0 {
        lemma_escape_prefix_clean(s, n - 1);
        assert(!style_close_at(s, n - 1));
        assert(s.take(n - 1).push(s[n - 1]) =~= s.take(n));
    }
}

/// Escaping twice is escaping once: escaped text holds no end tag left to
/// escape.
pub proof fn lemma_escape_idempotent(s: Seq<char>)
    ensures
        escape_style_close(escape_style_close(s)) == escape_style_close(s),
{
    let t = escape_style_close(s);
    assert forall|i: int| !style_close_at(t, i) by {
        lemma_escape_leaves_no_close_tag(s, i);
    }
    lemma_escape_prefix_clean(t, t.len() as int);
    assert(t.take(t.len() as int) =~= t);
}

/// Splitting `s` at every `sep`: the pieces before the last separator and
/// the piece after it, as `str::split` yields them.
pub open spec fn split_state(s: Seq<char>, sep: char) -> (Seq<Seq<char>>, Seq<char>)
    decreases s.len(),
{
    if s.len() == 0 {
        (seq![], seq![])
    } else {
        let (done, cur) = split_state(s.drop_last(), sep);
        if s.last() == sep {
            (done.push(cur), seq![])
        } else {
            (done, cur.push(s.last()))
        }
    }
}

/// The pieces of `s` between the separators `sep` (at least one piece).
pub open spec fn split(s: Seq<char>, sep: char) -> Seq<Seq<char>> {
    split_state(s, sep).0.push(split_state(s, sep).1)
}

/// The pieces joined with `sep` between them.
pub open spec fn join(pieces: Seq<Seq<char>>, sep: char) -> Seq<char>
    decreases pieces.len(),
{
    if pieces.len() == 0 {
        seq![]
    } else if pieces.len() == 1 {
        pieces[0]
    } else {
        join(pieces.drop_last(), sep).push(sep) + pieces.last()
    }
}

/// `!important`
pub open spec fn important_word() -> Seq<char> {
    seq!['!', 'i', 'm', 'p', 'o', 'r', 't', 'a', 'n', 't']
}

/// A declaration with `!important` at its end.
pub open spec fn mark_important(d: Seq<char>) -> Seq<char> {
    if ends_with(d, important_word()) {
        d
    } else {
        d + seq![' '] + important_word()
    }
}

/// The non-empty trimmed declarations, each marked `!important`.
pub open spec fn important_declarations(pieces: Seq<Seq<char>>) -> Seq<Seq<char>>
    decreases pieces.len(),
{
    if pieces.len() == 0 {
        seq![]
    } else {
        let kept = important_declarations(pieces.drop_last());
        let t = trim(pieces.last());
        if t.len() == 0 {
            kept
        } else {
            kept.push(mark_important(t))
        }
    }
}

/// `css` with every declaration made `!important`: the `;`-separated pieces
/// trimmed, empty ones dropped, `!important` appended where it is missing,
/// joined again with `;`.
pub open spec fn with_important(css: Seq<char>) -> Seq<char> {
    join(important_declarations(split(css, ';')), ';')
}

/// `c` does not occur in `s`.
pub open spec fn free_of(s: Seq<char>, c: char) -> bool {
    forall|k: int| 0 <= k < s.len() ==> #[trigger] s[k] != c
}

/// A declaration as `add_important` writes it: not empty, without white
/// space at either end, ending with `!important`, and without `;`.
pub open spec fn marked_declaration(d: Seq<char>) -> bool {
    &&& d.len() > 0
    &&& trim(d) == d
    &&& ends_with(d, important_word())
    &&& free_of(d, ';')
}

/// Splitting text that ends with a run without the separator extends the
/// last piece by that run.
proof fn lemma_split_state_run(x: Seq<char>, b: Seq<char>, sep: char)
    requires
        free_of(b, sep),
    ensures
        split_state(x + b, sep) == (split_state(x, sep).0, split_state(x, sep).1 + b),
    decreases b.len(),
{
    if b.len() == 0 {
        assert(x + b =~= x);
        assert(split_state(x, sep).1 + b =~= split_state(x, sep).1);
    } else {
        let b1 = b.drop_last();
        lemma_split_state_run(x, b1, sep);
        assert((x + b).drop_last() =~= x + b1);
        assert((x + b).last() == b.last());
        assert(split_state(x, sep).1 + b1.push(b.last()) =~= split_state(x, sep).1 + b);
        assert(b1.push(b.last()) =~= b);
    }
}

/// Splitting joined pieces without the separator gives the pieces back.
proof fn lemma_split_join(ds: Seq<Seq<char>>, sep: char)
    requires
        ds.len() > 0,
        forall|i: int| 0 <= i < ds.len() ==> free_of(#[trigger] ds[i], sep),
    ensures
        split(join(ds, sep), sep) == ds,
    decreases ds.len(),
{
    if ds.len() == 1 {
        lemma_split_state_run(seq![], ds[0], sep);
        assert(Seq::<char>::empty() + ds[0] =~= ds[0]);
        assert(split(join(ds, sep), sep) =~= ds);
    } else {
        let rest = ds.drop_last();
        lemma_split_join(rest, sep);
        let j = join(rest, sep);
        let x = j.push(sep);
        lemma_split_state_run(x, ds.last(), sep);
        assert(x.drop_last() =~= j);
        assert(split_state(x, sep) == (split_state(j, sep).0.push(split_state(j, sep).1), Seq::<char>::empty()));
        assert(Seq::<char>::empty() + ds.last() =~= ds.last());
        assert(split(join(ds, sep), sep) =~= ds);
    }
}

/// The pieces of a split have no separator in them.
proof fn lemma_split_state_free(s: Seq<char>, sep: char)
    ensures
        free_of(split_state(s, sep).1, sep),
        forall|i: int| 0 <= i < split_state(s, sep).0.len() ==> free_of(
            #[trigger] split_state(s, sep).0[i],
            sep,
        ),
    decreases s.len(),
{
    if s.len() > 0 {
        lemma_split_state_free(s.drop_last(), sep);
        let (done, cur) = split_state(s.drop_last(), sep);
        if s.last() != sep {
            assert forall|k: int| 0 <= k < cur.push(s.last()).len() implies #[trigger] cur.push(
                s.last(),
            )[k] != sep by {
                if k < cur.len() {
                    assert(cur.push(s.last())[k] == cur[k]);
                }
            }
        }
    }
}

/// Text that does not start or end with white space is its own trim.
proof fn lemma_trim_fixed(t: Seq<char>)
    requires
        t.len() > 0,
        !is_white_space(t[0]),
        !is_white_space(t.last()),
    ensures
        trim(t) == t,
{
    assert(trim_start_index(t, 0) == 0);
    assert(trim_end_index(t, 0, t.len() as int) == t.len());
    assert(t.subrange(0, t.len() as int) =~= t);
}

/// A trimmed non-empty piece marked `!important` is a declaration as
/// `add_important` writes it, and marking it again changes nothing.
proof fn lemma_mark_trimmed(x: Seq<char>)
    requires
        trim(x).len() > 0,
        free_of(x, ';'),
    ensures
        marked_declaration(mark_important(trim(x))),
        mark_important(mark_important(trim(x))) == mark_important(trim(x)),
{
    let lo = trim_start_index(x, 0);
    lemma_trim_start_index(x, 0);
    let hi = trim_end_index(x, lo, x.len() as int);
    lemma_trim_end_index(x, lo, x.len() as int);
    let t = trim(x);
    assert(t[0] == x[lo]);
    assert(t.last() == x[hi - 1]);
    let m = mark_important(t);
    let w = important_word();
    if !ends_with(t, w) {
        assert(m.subrange(m.len() - w.len(), m.len() as int) =~= w);
        assert(m[0] == t[0]);
        assert(m.last() == 't');
    }
    assert(ends_with(m, w));
    assert(m[0] == t[0]);
    lemma_trim_fixed(m);
    assert forall|k: int| 0 <= k < m.len() implies #[trigger] m[k] != ';' by {
        if k < t.len() {
            assert(m[k] == t[k]);
            assert(t[k] == x[lo + k]);
        } else {
            assert(m[k] == (seq![' '] + w)[k - t.len()]);
        }
    }
}

/// The declarations `add_important` keeps are written as it writes them.
proof fn lemma_important_declarations_marked(pieces: Seq<Seq<char>>)
    requires
        forall|i: int| 0 <= i < pieces.len() ==> free_of(#[trigger] pieces[i], ';'),
    ensures
        forall|i: int|
            0 <= i < important_declarations(pieces).len() ==> marked_declaration(
                #[trigger] important_declarations(pieces)[i],
            ),
    decreases pieces.len(),
{
    if pieces.len() > 0 {
        lemma_important_declarations_marked(pieces.drop_last());
        let t = trim(pieces.last());
        if t.len() > 0 {
            lemma_mark_trimmed(pieces.last());
            let kept = important_declarations(pieces.drop_last());
            assert forall|i: int| 0 <= i < kept.push(mark_important(t)).len() implies marked_declaration(
                #[trigger] kept.push(mark_important(t))[i],
            ) by {
                if i < kept.len() {
                    assert(kept.push(mark_important(t))[i] == kept[i]);
                }
            }
        }
    }
}

/// Declarations already written as `add_important` writes them are kept
/// as they are.
proof fn lemma_important_declarations_fixed(ds: Seq<Seq<char>>)
    requires
        forall|i: int| 0 <= i < ds.len() ==> marked_declaration(#[trigger] ds[i]),
    ensures
        important_declarations(ds) == ds,
    decreases ds.len(),
{
    if ds.len() > 0 {
        let rest = ds.drop_last();
        assert forall|i: int| 0 <= i < rest.len() implies marked_declaration(#[trigger] rest[i]) by {
            assert(rest[i] == ds[i]);
        }
        lemma_important_declarations_fixed(rest);
        assert(marked_declaration(ds[ds.len() - 1]));
        assert(ds.last() == ds[ds.len() - 1]);
        assert(rest.push(ds.last()) =~= ds);
    }
}

/// `add_important` is idempotent, and every `;`-separated piece of a
/// non-empty result is a trimmed, non-empty declaration ending with
/// `!important`.
pub proof fn lemma_with_important_idempotent(css: Seq<char>)
    ensures
        with_important(with_important(css)) == with_important(css),
        with_important(css).len() > 0 ==> forall|i: int|
            0 <= i < split(with_important(css), ';').len() ==> marked_declaration(
                #[trigger] split(with_important(css), ';')[i],
            ),
{
    let pieces = split(css, ';');
    lemma_split_state_free(css, ';');
    assert forall|i: int| 0 <= i < pieces.len() implies free_of(#[trigger] pieces[i], ';') by {
        if i < split_state(css, ';').0.len() {
            assert(pieces[i] == split_state(css, ';').0[i]);
        }
    }
    let ds = important_declarations(pieces);
    lemma_important_declarations_marked(pieces);
    if ds.len() == 0 {
        let e = Seq::<char>::empty();
        assert(with_important(css) == e);
        assert(split(e, ';') =~= seq![e]);
        assert(trim(e).len() == 0);
        assert(seq![e].drop_last() =~= Seq::<Seq<char>>::empty());
        assert(seq![e].last() == e);
        assert(important_declarations(Seq::<Seq<char>>::empty()) =~= Seq::<Seq<char>>::empty());
        assert(important_declarations(seq![e]) =~= Seq::<Seq<char>>::empty());
    } else {
        assert forall|i: int| 0 <= i < ds.len() implies free_of(#[trigger] ds[i], ';') by {
            assert(marked_declaration(ds[i]));
        }
        lemma_split_join(ds, ';');
        lemma_important_declarations_fixed(ds);
    }
}

/// Handles one finished piece: appends its marked declaration to `out`
/// unless it is empty after trimming.
fn flush_piece(out: &mut Vec<char>, any: bool, piece: &Vec<char>, Ghost(kept): Ghost<Seq<Seq<char>>>) -> (r: bool)
    requires
        old(out)@ == join(kept, ';'),
        any == (kept.len() > 0),
    ensures
        ({
            let t = trim(piece@);
            let next = if t.len() == 0 { kept } else { kept.push(mark_important(t)) };
            &&& final(out)@ == join(next, ';')
            &&& r == (next.len() > 0)
        }),
{
    let (lo, hi) = trim_bounds(piece.as_slice());
    if lo == hi {
        return any;
    }
    let ghost t = piece@.subrange(lo as int, hi as int);
    if any {
        out.push(';');
    }
    let mut i = lo;
    let ghost base = out@;
    while i < hi
        invariant
            lo <= i <= hi <= piece.len(),
            out@ == base + piece@.subrange(lo as int, i as int),
        decreases hi - i,
    {
        out.push(piece[i]);
        i = i + 1;
        assert(out@ =~= base + piece@.subrange(lo as int, i as int));
    }
    let word = ['!', 'i', 'm', 'p', 'o', 'r', 't', 'a', 'n', 't'];
    assert(word@ == important_word());
    let mut tail: Vec<char> = Vec::new();
    let mut k: usize = lo;
    while k < hi
        invariant
            lo <= k <= hi <= piece.len(),
            tail@ == piece@.subrange(lo as int, k as int),
        decreases hi - k,
    {
        tail.push(piece[k]);
        k = k + 1;
        assert(tail@ =~= piece@.subrange(lo as int, k as int));
    }
    if !ends_with_exec(tail.as_slice(), word.as_slice()) {
        out.push(' ');
        let mut j: usize = 0;
        let ghost base2 = out@;
        while j < word.len()
            invariant
                j <= word.len(),
                word@ == important_word(),
                out@ == base2 + word@.take(j as int),
            decreases word.len() - j,
        {
            out.push(word[j]);
            j = j + 1;
            assert(out@ =~= base2 + word@.take(j as int));
        }
        assert(word@.take(j as int) =~= word@);
    }
    proof {
        let next = kept.push(mark_important(t));
        if kept.len() > 0 {
            assert(next.drop_last() =~= kept);
        }
        assert(final(out)@ =~= join(next, ';'));
    }
    true
}

/// Appends `!important` to every declaration of a sanitized inline style.
pub fn add_important(css: &str) -> (r: String)
    ensures
        r@ == with_important(css@),
{
    let s = to_chars(css);
    let mut out: Vec<char> = Vec::new();
    let mut cur: Vec<char> = Vec::new();
    let mut any = false;
    let mut i: usize = 0;
    while i < s.len()
        invariant
            i <= s.len(),
            s@ == css@,
            cur@ == split_state(s@.take(i as int), ';').1,
            out@ == join(important_declarations(split_state(s@.take(i as int), ';').0), ';'),
            any == (important_declarations(split_state(s@.take(i as int), ';').0).len() > 0),
        decreases s.len() - i,
    {
        let ghost done = split_state(s@.take(i as int), ';').0;
        assert(s@.take(i + 1).drop_last() =~= s@.take(i as int));
        if s[i] == ';' {
            any = flush_piece(&mut out, any, &cur, Ghost(important_declarations(done)));
            proof {
                let next = done.push(cur@);
                assert(next.drop_last() =~= done);
            }
            cur = Vec::new();
        } else {
            cur.push(s[i]);
        }
        i = i + 1;
    }
    assert(s@.take(i as int) =~= s@);
    let ghost done = split_state(s@, ';').0;
    let _ = flush_piece(&mut out, any, &cur, Ghost(important_declarations(done)));
    proof {
        let pieces = done.push(cur@);
        assert(pieces.drop_last() =~= done);
    }
    chars_to_string(&out)
}

/// The writes a `DefaultHasher` has seen after `<str as Hash>::hash` fed it
/// the string `s`, following the writes `writes`.
pub uninterp spec fn str_hash_writes(writes: Seq<Seq<u8>>, s: Seq<char>) -> Seq<Seq<u8>>;

/// Feeds `s` to `hasher` through `<str as Hash>::hash`. The standard library
/// writes the string's bytes and a terminator; which writes exactly is left
/// to the name `str_hash_writes`, a function of the writes before and of
/// the string.
#[verifier::external_body]
fn hash_str_into(s: &str, hasher: &mut DefaultHasher)
    ensures
        final(hasher)@ == str_hash_writes(old(hasher)@, s@),
{
    s.hash(hasher);
}

/// The 64-bit hash of a string under a fresh `DefaultHasher`.
pub open spec fn default_str_hash(s: Seq<char>) -> u64 {
    DefaultHasher::spec_finish(str_hash_writes(Seq::empty(), s))
}

/// The `data-dk` key of a dark style: its hash in lower-case hexadecimal.
pub open spec fn dark_style_key(css: Seq<char>) -> Seq<char> {
    lower_hex(default_str_hash(css) as nat)
}

/// A dark-style key is one to sixteen lower-case hexadecimal digits, and
/// equal styles have equal keys.
pub proof fn lemma_dark_style_key_shape(css: Seq<char>, other: Seq<char>)
    ensures
        1 <= dark_style_key(css).len() <= 16,
        forall|i: int|
            0 <= i < dark_style_key(css).len() ==> is_hex_digit(#[trigger] dark_style_key(css)[i]),
        css == other ==> dark_style_key(css) == dark_style_key(other),
{
    let h = default_str_hash(css) as nat;
    reveal_with_fuel(hex_bound, 17);
    assert(hex_bound(16) == 0x1_0000_0000_0000_0000);
    lemma_lower_hex_digits(h, 16);
}

/// The `data-dk` key of a dark style, so that equal styles share one rule.
pub fn dark_style_hash(css: &str) -> (r: String)
    ensures
        r@ == dark_style_key(css@),
{
    let mut hasher = DefaultHasher::new();
    hash_str_into(css, &mut hasher);
    let h = hasher.finish();
    let mut out: Vec<char> = Vec::new();
    push_lower_hex(&mut out, h);
    assert(out@ =~= lower_hex(h as nat));
    chars_to_string(&out)
}

/// `.dark [data-dk="`
pub open spec fn dark_rule_open() -> Seq<char> {
    seq!['.', 'd', 'a', 'r', 'k', ' ', '[', 'd', 'a', 't', 'a', '-', 'd', 'k', '=', '"']
}

/// The stylesheet rule of a dark style: `.dark [data-dk="KEY"]{DECLS}` where
/// the declarations are made `!important` and cannot close the `<style>`
/// element.
pub open spec fn dark_style_rule(css: Seq<char>) -> Seq<char> {
    dark_rule_open() + dark_style_key(css) + seq!['"', ']', '{'] + escape_style_close(
        with_important(css),
    ) + seq!['}']
}

/// The `data-dk` key and the stylesheet rule of a sanitized dark style.
pub fn build_dark_style_rule(dark_style: &str) -> (r: (String, String))
    ensures
        r.0@ == dark_style_key(dark_style@),
        r.1@ == dark_style_rule(dark_style@),
{
    let dk = dark_style_hash(dark_style);
    let important = add_important(dark_style);
    let escaped = escape_style_close_tag(important.as_str());
    let mut rule: Vec<char> = Vec::new();
    push_str(&mut rule, ".dark [data-dk=\"");
    push_str(&mut rule, dk.as_str());
    rule.push('"');
    rule.push(']');
    rule.push('{');
    push_str(&mut rule, escaped.as_str());
    rule.push('}');
    assert(rule@ =~= dark_style_rule(dark_style@)) by {
        reveal_strlit(".dark [data-dk=\"");
    }
    (dk, chars_to_string(&rule))
}

} // verus!
