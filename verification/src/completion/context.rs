//! Detection of the element context that surrounds the cursor.

use vstd::prelude::*;

use crate::text::{
    count_exec, count_from, is_keyword_char, rfind_from, keyword_end, keyword_end_exec, occurs_from, occurs_from_exec, rfind,
    rfind_exec, starts_at, starts_at_exec, to_chars,
};

verus! {

/// `{{{#`
pub open spec fn brace_hash() -> Seq<char> {
    seq!['{', '{', '{', '#']
}

/// `{{{`
pub open spec fn brace_open() -> Seq<char> {
    seq!['{', '{', '{']
}

/// `}}}`
pub open spec fn brace_close() -> Seq<char> {
    seq!['}', '}', '}']
}

/// `[[`
pub open spec fn bracket_open() -> Seq<char> {
    seq!['[', '[']
}

/// `]]`
pub open spec fn bracket_close() -> Seq<char> {
    seq![']', ']']
}

/// The stack of open `{{{#keyword` blocks, as `(brace index, keyword end)`
/// pairs, after scanning `s` from index `i` on with `stack` already open.
///
/// A `{{{#` followed by at least one keyword character opens a block; `}}}`
/// closes the innermost open block (and is ignored when none is open).
pub open spec fn open_blocks(s: Seq<char>, i: int, stack: Seq<(int, int)>) -> Seq<(int, int)>
    decreases s.len() - i,
{
    if i < 0 || i >= s.len() {
        stack
    } else if starts_at(s, i, brace_hash()) {
        let ke = keyword_end(s, i + 4);
        open_blocks(s, i + 4, if ke > i + 4 { stack.push((i, ke)) } else { stack })
    } else if starts_at(s, i, brace_close()) {
        open_blocks(s, i + 3, if stack.len() > 0 { stack.drop_last() } else { stack })
    } else {
        open_blocks(s, i + 1, stack)
    }
}

/// The innermost unclosed `{{{#keyword` block of `prefix`, with the number of
/// `[[` opened and not closed by `]]` since that block's `{{{#`
/// (the `[[` count less the `]]` count, and 0 when that is negative).
pub open spec fn context_of(prefix: Seq<char>) -> Option<(Seq<char>, nat)> {
    let stack = open_blocks(prefix, 0, seq![]);
    if stack.len() == 0 {
        None
    } else {
        let (bp, ke) = stack.last();
        let opens = count_from(prefix, bracket_open(), bp);
        let closes = count_from(prefix, bracket_close(), bp);
        Some((prefix.subrange(bp + 4, ke), if opens >= closes { (opens - closes) as nat } else { 0 }))
    }
}

/// The view of a completion context.
pub open spec fn context_view(c: Option<(&str, usize)>) -> Option<(Seq<char>, nat)> {
    match c {
        Some((k, d)) => Some((k@, d as nat)),
        None => None,
    }
}

spec fn stack_ints(s: Seq<(usize, usize)>) -> Seq<(int, int)> {
    s.map_values(|p: (usize, usize)| (p.0 as int, p.1 as int))
}

/// The cursor context: the innermost unclosed `{{{#keyword` block and the
/// bracket depth within it.
pub fn context_and_bracket_depth(prefix: &str) -> (r: Option<(&str, usize)>)
    ensures
        context_view(r) == context_of(prefix@),
{
    let s = to_chars(prefix);
    let brace_hash_pat = ['{', '{', '{', '#'];
    let brace_close_pat = ['}', '}', '}'];
    assert(brace_hash_pat@ == brace_hash());
    assert(brace_close_pat@ == brace_close());
    let mut stack: Vec<(usize, usize)> = Vec::new();
    let mut i: usize = 0;
    assert(stack_ints(stack@) =~= seq![]);
    while i < s.len()
        invariant
            s@ == prefix@,
            brace_hash_pat@ == brace_hash(),
            brace_close_pat@ == brace_close(),
            i <= s.len(),
            open_blocks(s@, 0, seq![]) == open_blocks(s@, i as int, stack_ints(stack@)),
            forall|k: int|
                0 <= k < stack@.len() ==> (#[trigger] stack@[k]).0 + 4 < stack@[k].1 <= s.len(),
        decreases s.len() - i,
    {
        if starts_at_exec(s.as_slice(), i, brace_hash_pat.as_slice()) {
            let kw_end = keyword_end_exec(s.as_slice(), i + 4);
            if kw_end > i + 4 {
                proof {
                    assert(stack_ints(stack@.push((i, kw_end))) =~= stack_ints(stack@).push(
                        (i as int, kw_end as int),
                    ));
                }
                stack.push((i, kw_end));
            }
            i = i + 4;
        } else if starts_at_exec(s.as_slice(), i, brace_close_pat.as_slice()) {
            if stack.len() > 0 {
                proof {
                    assert(stack_ints(stack@.drop_last()) =~= stack_ints(stack@).drop_last());
                }
                stack.pop();
            }
            i = i + 3;
        } else {
            i = i + 1;
        }
    }
    if stack.len() == 0 {
        return None;
    }
    let (brace_pos, kw_end) = stack[stack.len() - 1];
    assert(stack_ints(stack@).last() == (brace_pos as int, kw_end as int));
    let keyword = prefix.substring_char(brace_pos + 4, kw_end);
    let open_pat = ['[', '['];
    let close_pat = [']', ']'];
    assert(open_pat@ == bracket_open());
    assert(close_pat@ == bracket_close());
    let opens = count_exec(s.as_slice(), open_pat.as_slice(), brace_pos);
    let closes = count_exec(s.as_slice(), close_pat.as_slice(), brace_pos);
    let depth = if opens >= closes {
        opens - closes
    } else {
        0
    };
    Some((keyword, depth))
}

/// The keyword `kw` of an unclosed `[[#kw` after the last `[[` of `prefix`.
pub open spec fn bracket_element_of(prefix: Seq<char>) -> Option<Seq<char>> {
    match rfind(prefix, bracket_open()) {
        None => None,
        Some(p) => {
            let k = p + 2;
            if occurs_from(prefix, bracket_close(), k) {
                None
            } else if k >= prefix.len() || prefix[k] != '#' {
                None
            } else {
                let end = keyword_end(prefix, k + 1);
                if end == k + 1 {
                    None
                } else {
                    Some(prefix.subrange(k + 1, end))
                }
            }
        },
    }
}

/// The keyword `kw` of an unclosed `{{{#kw` after the last `{{{#` of `prefix`.
pub open spec fn brace_element_of(prefix: Seq<char>) -> Option<Seq<char>> {
    match rfind(prefix, brace_hash()) {
        None => None,
        Some(p) => {
            let k = p + 4;
            if occurs_from(prefix, brace_close(), k) {
                None
            } else {
                let end = keyword_end(prefix, k);
                if end == k {
                    None
                } else {
                    Some(prefix.subrange(k, end))
                }
            }
        },
    }
}

/// The last `[[` of `prefix` is not followed by a `]]`.
pub open spec fn unclosed_bracket(prefix: Seq<char>) -> bool {
    match rfind(prefix, bracket_open()) {
        None => false,
        Some(p) => !occurs_from(prefix, bracket_close(), p + 2),
    }
}

/// The last `{{{` of `prefix` is not followed by a `}}}`.
pub open spec fn unclosed_styled_brace(prefix: Seq<char>) -> bool {
    match rfind(prefix, brace_open()) {
        None => false,
        Some(p) => !occurs_from(prefix, brace_close(), p + 3),
    }
}

/// The view of an optional keyword.
pub open spec fn keyword_view(k: Option<&str>) -> Option<Seq<char>> {
    match k {
        Some(k) => Some(k@),
        None => None,
    }
}

/// Detects the bracket element (`[[#keyword`) the cursor is in and returns
/// its keyword.
pub fn detect_bracket_element(prefix: &str) -> (r: Option<&str>)
    ensures
        keyword_view(r) == bracket_element_of(prefix@),
{
    let s = to_chars(prefix);
    let open_pat = ['[', '['];
    let close_pat = [']', ']'];
    assert(open_pat@ == bracket_open());
    assert(close_pat@ == bracket_close());
    assert(bracket_open().len() == 2);
    let p = match rfind_exec(s.as_slice(), open_pat.as_slice()) {
        Some(p) => p,
        None => return None,
    };
    assert(starts_at(s@, p as int, bracket_open()));
    let k = p + 2;
    if occurs_from_exec(s.as_slice(), close_pat.as_slice(), k) {
        return None;
    }
    if k >= s.len() || s[k] != '#' {
        return None;
    }
    let end = keyword_end_exec(s.as_slice(), k + 1);
    if end == k + 1 {
        return None;
    }
    Some(prefix.substring_char(k + 1, end))
}

/// Detects the brace element (`{{{#keyword`) the cursor is in and returns its
/// keyword.
pub fn detect_brace_element(prefix: &str) -> (r: Option<&str>)
    ensures
        keyword_view(r) == brace_element_of(prefix@),
{
    let s = to_chars(prefix);
    let open_pat = ['{', '{', '{', '#'];
    let close_pat = ['}', '}', '}'];
    assert(open_pat@ == brace_hash());
    assert(close_pat@ == brace_close());
    let p = match rfind_exec(s.as_slice(), open_pat.as_slice()) {
        Some(p) => p,
        None => return None,
    };
    let k = p + 4;
    if occurs_from_exec(s.as_slice(), close_pat.as_slice(), k) {
        return None;
    }
    let end = keyword_end_exec(s.as_slice(), k);
    if end == k {
        return None;
    }
    Some(prefix.substring_char(k, end))
}

/// True when the cursor is inside an unclosed generic `[[...]]` element.
pub fn in_unclosed_bracket(prefix: &str) -> (r: bool)
    ensures
        r == unclosed_bracket(prefix@),
{
    let s = to_chars(prefix);
    let open_pat = ['[', '['];
    let close_pat = [']', ']'];
    assert(open_pat@ == bracket_open());
    assert(close_pat@ == bracket_close());
    assert(bracket_open().len() == 2);
    let p = match rfind_exec(s.as_slice(), open_pat.as_slice()) {
        Some(p) => p,
        None => return false,
    };
    assert(starts_at(s@, p as int, bracket_open()));
    let k = p + 2;
    !occurs_from_exec(s.as_slice(), close_pat.as_slice(), k)
}

/// True when the cursor is inside an unclosed triple-brace block that can
/// parse as a styled element (`{{{ #style=... }}}` or `{{{#style=... }}}`).
pub fn in_unclosed_styled_brace(prefix: &str) -> (r: bool)
    ensures
        r == unclosed_styled_brace(prefix@),
{
    let s = to_chars(prefix);
    let open_pat = ['{', '{', '{'];
    let close_pat = ['}', '}', '}'];
    assert(open_pat@ == brace_open());
    assert(close_pat@ == brace_close());
    assert(brace_open().len() == 3);
    let p = match rfind_exec(s.as_slice(), open_pat.as_slice()) {
        Some(p) => p,
        None => return false,
    };
    assert(starts_at(s@, p as int, brace_open()));
    let k = p + 3;
    !occurs_from_exec(s.as_slice(), close_pat.as_slice(), k)
}

/// Every character of `kw` is a keyword character.
pub open spec fn all_keyword_chars(kw: Seq<char>) -> bool {
    forall|j: int| 0 <= j < kw.len() ==> #[trigger] is_keyword_char(kw[j])
}

/// The keyword scan of `p` is not changed by text after it that does not
/// start with a keyword character.
proof fn lemma_keyword_end_prefix(p: Seq<char>, q: Seq<char>, j: int)
    requires
        0 <= j <= p.len(),
        q.len() > 0 ==> !is_keyword_char(q[0]),
    ensures
        keyword_end(p + q, j) == keyword_end(p, j),
    decreases p.len() - j,
{
    if j < p.len() {
        assert((p + q)[j] == p[j]);
        if is_keyword_char(p[j]) {
            lemma_keyword_end_prefix(p, q, j + 1);
        }
    } else if q.len() > 0 {
        assert((p + q)[j] == q[0]);
    }
}

/// A keyword scan runs over keyword characters up to the first other one.
proof fn lemma_keyword_end_run(s: Seq<char>, j: int, e: int)
    requires
        0 <= j <= e <= s.len(),
        forall|k: int| j <= k < e ==> #[trigger] is_keyword_char(s[k]),
        e < s.len() ==> !is_keyword_char(s[e]),
    ensures
        keyword_end(s, j) == e,
    decreases e - j,
{
    if j < e {
        lemma_keyword_end_run(s, j + 1, e);
    }
}

/// Text after `p` that starts with `{{{` and is not followed by `#` within
/// its first three characters changes nothing of the block scan of `p`:
/// scanning `p + q` reaches the end of `p` with the stack of `p`.
proof fn lemma_open_blocks_prefix(p: Seq<char>, q: Seq<char>, i: int, stack: Seq<(int, int)>)
    requires
        0 <= i <= p.len(),
        q.len() >= 3,
        q[0] == '{' && q[1] == '{' && q[2] == '{',
    ensures
        open_blocks(p + q, i, stack) == open_blocks(p + q, p.len() as int, open_blocks(p, i, stack)),
    decreases p.len() - i,
{
    let s = p + q;
    if i < p.len() {
        assert(s[i] == p[i]);
        if i + 4 <= p.len() {
            assert(s.subrange(i, i + 4) =~= p.subrange(i, i + 4));
        } else {
            assert(s[i + 3] != '#') by {
                assert(s[i + 3] == q[i + 3 - p.len()]);
            }
            assert(!starts_at(s, i, brace_hash())) by {
                if starts_at(s, i, brace_hash()) {
                    assert(s.subrange(i, i + 4)[3] == s[i + 3]);
                }
            }
        }
        if i + 3 <= p.len() {
            assert(s.subrange(i, i + 3) =~= p.subrange(i, i + 3));
        } else {
            assert(!starts_at(s, i, brace_close())) by {
                if starts_at(s, i, brace_close()) {
                    assert(s.subrange(i, i + 3)[p.len() - i] == s[p.len() as int]);
                    assert(s[p.len() as int] == q[0]);
                }
            }
        }
        if starts_at(p, i, brace_hash()) {
            lemma_keyword_end_prefix(p, q, i + 4);
            let ke = keyword_end(p, i + 4);
            lemma_open_blocks_prefix(p, q, i + 4, if ke > i + 4 { stack.push((i, ke)) } else { stack });
        } else if starts_at(p, i, brace_close()) {
            lemma_open_blocks_prefix(p, q, i + 3, if stack.len() > 0 { stack.drop_last() } else { stack });
        } else {
            lemma_open_blocks_prefix(p, q, i + 1, stack);
        }
    }
}

/// The block scan passes over a run of keyword characters.
proof fn lemma_open_blocks_keyword_run(s: Seq<char>, j: int, e: int, stack: Seq<(int, int)>)
    requires
        0 <= j <= e <= s.len(),
        forall|k: int| j <= k < e ==> #[trigger] is_keyword_char(s[k]),
    ensures
        open_blocks(s, j, stack) == open_blocks(s, e, stack),
    decreases e - j,
{
    if j < e {
        assert(is_keyword_char(s[j]));
        if starts_at(s, j, brace_hash()) {
            assert(s.subrange(j, j + 4)[0] == s[j]);
            assert(brace_hash()[0] == '{');
            assert(false);
        }
        if starts_at(s, j, brace_close()) {
            assert(s.subrange(j, j + 3)[0] == s[j]);
            assert(brace_close()[0] == '}');
            assert(false);
        }
        lemma_open_blocks_keyword_run(s, j + 1, e, stack);
    }
}

/// Bracket counts of `p` are not changed by text after it without `[` or
/// `]`.
proof fn lemma_count_prefix(p: Seq<char>, q: Seq<char>, pat: Seq<char>, i: int)
    requires
        0 <= i,
        pat.len() == 2,
        pat[0] == pat[1],
        pat[0] == '[' || pat[0] == ']',
        forall|k: int| 0 <= k < q.len() ==> #[trigger] q[k] != '[' && q[k] != ']',
    ensures
        count_from(p + q, pat, i) == count_from(p, pat, i),
    decreases (p + q).len() - i,
{
    let s = p + q;
    if i + 2 <= s.len() {
        if i + 2 <= p.len() {
            assert(s.subrange(i, i + 2) =~= p.subrange(i, i + 2));
        } else {
            assert(!starts_at(s, i, pat)) by {
                if starts_at(s, i, pat) {
                    assert(s.subrange(i, i + 2)[1] == s[i + 1]);
                    assert(s[i + 1] == q[i + 1 - p.len()]);
                }
            }
        }
        if starts_at(s, i, pat) {
            lemma_count_prefix(p, q, pat, i + 2);
        } else {
            lemma_count_prefix(p, q, pat, i + 1);
        }
    }
}

/// Closing a block at the end of a prefix leaves its completion context as
/// it was: the innermost open block and the bracket depth in it.
pub proof fn lemma_closed_block_keeps_context(p: Seq<char>, kw: Seq<char>)
    requires
        kw.len() > 0,
        all_keyword_chars(kw),
    ensures
        context_of(p + brace_hash() + kw + brace_close()) == context_of(p),
{
    let q = brace_hash() + kw + brace_close();
    let s = p + q;
    assert(s =~= p + brace_hash() + kw + brace_close());
    let l = p.len() as int;
    let n = kw.len() as int;
    assert(q[0] == '{' && q[1] == '{' && q[2] == '{');
    lemma_open_blocks_prefix(p, q, 0, seq![]);
    let st = open_blocks(p, 0, seq![]);
    assert(s.subrange(l, l + 4) =~= brace_hash());
    assert forall|k: int| l + 4 <= k < l + 4 + n implies #[trigger] is_keyword_char(s[k]) by {
        assert(s[k] == kw[k - l - 4]);
    }
    assert(s[l + 4 + n] == '}');
    lemma_keyword_end_run(s, l + 4, l + 4 + n);
    let st2 = st.push((l, l + 4 + n));
    lemma_open_blocks_keyword_run(s, l + 4, l + 4 + n, st2);
    assert(s.subrange(l + 4 + n, l + 7 + n) =~= brace_close());
    assert(st2.drop_last() =~= st);
    assert(open_blocks(s, l + 7 + n, st) == st);
    assert(open_blocks(s, 0, seq![]) == st);
    if st.len() > 0 {
        let (bp, ke) = st.last();
        lemma_open_blocks_bounds(p, 0, seq![]);
        assert(forall|k: int| 0 <= k < q.len() ==> #[trigger] q[k] != '[' && q[k] != ']') by {
            assert forall|k: int| 0 <= k < q.len() implies #[trigger] q[k] != '[' && q[k] != ']' by {
                if 4 <= k < 4 + n {
                    assert(q[k] == kw[k - 4]);
                    assert(is_keyword_char(kw[k - 4]));
                }
            }
        }
        lemma_count_prefix(p, q, bracket_open(), bp);
        lemma_count_prefix(p, q, bracket_close(), bp);
        assert(s.subrange(bp + 4, ke) =~= p.subrange(bp + 4, ke));
    }
}

/// The blocks on the stack lie within the scanned text.
proof fn lemma_open_blocks_bounds(s: Seq<char>, i: int, stack: Seq<(int, int)>)
    requires
        0 <= i,
        forall|k: int| 0 <= k < stack.len() ==> 0 <= (#[trigger] stack[k]).0 && stack[k].0 + 4
            <= stack[k].1 <= s.len(),
    ensures
        forall|k: int|
            0 <= k < open_blocks(s, i, stack).len() ==> 0 <= (#[trigger] open_blocks(
                s,
                i,
                stack,
            )[k]).0 && open_blocks(s, i, stack)[k].0 + 4 <= open_blocks(s, i, stack)[k].1
                <= s.len(),
    decreases s.len() - i,
{
    if i < s.len() {
        if starts_at(s, i, brace_hash()) {
            let ke = keyword_end(s, i + 4);
            lemma_keyword_end_bounds(s, i + 4);
            let next = if ke > i + 4 { stack.push((i, ke)) } else { stack };
            assert forall|k: int| 0 <= k < next.len() implies 0 <= (#[trigger] next[k]).0
                && next[k].0 + 4 <= next[k].1 <= s.len() by {
                if k < stack.len() {
                    assert(next[k] == stack[k]);
                }
            }
            assert(open_blocks(s, i, stack) == open_blocks(s, i + 4, next));
            lemma_open_blocks_bounds(s, i + 4, next);
        } else if starts_at(s, i, brace_close()) {
            let next = if stack.len() > 0 { stack.drop_last() } else { stack };
            assert forall|k: int| 0 <= k < next.len() implies 0 <= (#[trigger] next[k]).0
                && next[k].0 + 4 <= next[k].1 <= s.len() by {
                assert(next[k] == stack[k]);
            }
            assert(open_blocks(s, i, stack) == open_blocks(s, i + 3, next));
            lemma_open_blocks_bounds(s, i + 3, next);
        } else {
            assert(open_blocks(s, i, stack) == open_blocks(s, i + 1, stack));
            lemma_open_blocks_bounds(s, i + 1, stack);
        }
    }
}

proof fn lemma_keyword_end_bounds(s: Seq<char>, j: int)
    requires
        0 <= j,
    ensures
        j <= keyword_end(s, j) || j > s.len(),
        keyword_end(s, j) <= s.len() || j > s.len(),
    decreases s.len() - j,
{
    if j < s.len() && is_keyword_char(s[j]) {
        lemma_keyword_end_bounds(s, j + 1);
    }
}

/// A block just opened at the end of a prefix is its completion context,
/// with no brackets open in it.
pub proof fn lemma_open_block_is_context(p: Seq<char>, kw: Seq<char>)
    requires
        kw.len() > 0,
        all_keyword_chars(kw),
    ensures
        context_of(p + brace_hash() + kw) == Some((kw, 0nat)),
{
    let q = brace_hash() + kw;
    let s = p + q;
    assert(s =~= p + brace_hash() + kw);
    let l = p.len() as int;
    let n = kw.len() as int;
    assert(q[0] == '{' && q[1] == '{' && q[2] == '{');
    lemma_open_blocks_prefix(p, q, 0, seq![]);
    let st = open_blocks(p, 0, seq![]);
    assert(s.subrange(l, l + 4) =~= brace_hash());
    assert forall|k: int| l + 4 <= k < l + 4 + n implies #[trigger] is_keyword_char(s[k]) by {
        assert(s[k] == kw[k - l - 4]);
    }
    lemma_keyword_end_run(s, l + 4, l + 4 + n);
    let st2 = st.push((l, l + 4 + n));
    lemma_open_blocks_keyword_run(s, l + 4, l + 4 + n, st2);
    assert(open_blocks(s, 0, seq![]) == st2);
    assert(s.subrange(l + 4, l + 4 + n) =~= kw);
    assert forall|k: int| l + 1 <= k < s.len() implies #[trigger] s[k] != '[' && s[k] != ']' by {
        if k < l + 4 {
            assert(s[k] == brace_hash()[k - l]);
        } else {
            assert(is_keyword_char(s[k]));
        }
    }
    lemma_count_zero(s, bracket_open(), l);
    lemma_count_zero(s, bracket_close(), l);
}

/// No bracket pair starts at or after `i` when none of the characters from
/// `i + 1` on is a bracket.
proof fn lemma_count_zero(s: Seq<char>, pat: Seq<char>, i: int)
    requires
        0 <= i,
        pat.len() == 2,
        pat[1] == '[' || pat[1] == ']',
        forall|k: int| i + 1 <= k < s.len() ==> #[trigger] s[k] != '[' && s[k] != ']',
    ensures
        count_from(s, pat, i) == 0,
    decreases s.len() - i,
{
    if i + 2 <= s.len() {
        assert(!starts_at(s, i, pat)) by {
            if starts_at(s, i, pat) {
                assert(s.subrange(i, i + 2)[1] == s[i + 1]);
            }
        }
        lemma_count_zero(s, pat, i + 1);
    }
}

/// Where a `{{{#keyword` is found, the cursor is inside an unclosed brace.
pub proof fn lemma_brace_element_is_unclosed(prefix: Seq<char>)
    ensures
        brace_element_of(prefix) is Some ==> unclosed_styled_brace(prefix),
{
    if brace_element_of(prefix) is Some {
        let p = rfind(prefix, brace_hash())->0;
        lemma_rfind_from_found(prefix, brace_hash(), prefix.len() - 4);
        assert(prefix.subrange(p, p + 3) =~= prefix.subrange(p, p + 4).subrange(0, 3));
        assert(brace_hash().subrange(0, 3) =~= brace_open());
        assert(starts_at(prefix, p, brace_open()));
        lemma_rfind_from_at_least(prefix, brace_open(), prefix.len() - 3, p);
        let o = rfind(prefix, brace_open())->0;
        assert forall|i: int| o + 3 <= i implies !#[trigger] starts_at(prefix, i, brace_close()) by {
            if i == p + 3 {
                if starts_at(prefix, i, brace_close()) {
                    assert(prefix.subrange(p, p + 4)[3] == prefix[p + 3]);
                    assert(prefix.subrange(i, i + 3)[0] == prefix[i]);
                }
            } else if i >= p + 4 {
            }
        }
    }
}

/// What `rfind_from` finds is an occurrence at or before where it looks.
proof fn lemma_rfind_from_found(s: Seq<char>, pat: Seq<char>, i: int)
    ensures
        rfind_from(s, pat, i) matches Some(r) ==> r <= i && starts_at(s, r, pat),
    decreases i + 1,
{
    if i >= 0 && !starts_at(s, i, pat) {
        lemma_rfind_from_found(s, pat, i - 1);
    }
}

/// `rfind_from` finds an occurrence at `j` or a later one up to `i`.
proof fn lemma_rfind_from_at_least(s: Seq<char>, pat: Seq<char>, i: int, j: int)
    requires
        0 <= j <= i,
        starts_at(s, j, pat),
    ensures
        rfind_from(s, pat, i) matches Some(r) && j <= r,
    decreases i + 1,
{
    if !starts_at(s, i, pat) {
        lemma_rfind_from_at_least(s, pat, i - 1, j);
    }
}

} // verus!
