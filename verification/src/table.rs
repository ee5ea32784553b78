//! The layout decisions of a table: the alignment and width of its wrapper,
//! which rows form the head, and the column and row spans of cells.

use vstd::prelude::*;

use crate::fmt::{chars_to_string, is_decimal_digit, push_str};
use crate::parameters::{get_param, opt_view, param_value, Parameters};
use crate::text::{ascii_lower, ascii_lower_exec, to_chars, trim, trim_str};

verus! {

/// The horizontal alignment of a table.
#[derive(Clone, Copy, Debug, PartialEq, Eq, Structural)]
pub enum TableAlign {
    Left,
    Center,
    Right,
}

/// `s` with ASCII letters in lower case.
pub open spec fn lower(s: Seq<char>) -> Seq<char> {
    s.map_values(|c: char| ascii_lower(c))
}

/// The alignment `#align` asks for: `left`, `center` or `right`, after
/// trimming, in any ASCII case.
pub open spec fn align_of(params: Seq<(Seq<char>, Seq<char>)>) -> Option<TableAlign> {
    match param_value(params, "align"@) {
        Some(v) => {
            let l = lower(trim(v));
            if l == "left"@ {
                Some(TableAlign::Left)
            } else if l == "center"@ {
                Some(TableAlign::Center)
            } else if l == "right"@ {
                Some(TableAlign::Right)
            } else {
                None
            }
        },
        None => None,
    }
}

/// `#align` gives the alignment it names, `left`, `center` or `right`,
/// after trimming and in any ASCII case, and nothing otherwise; `#width`
/// gives the wrapper the declaration `width:` and its value.
pub proof fn lemma_table_layout_follows_its_parameters(params: Seq<(Seq<char>, Seq<char>)>)
    ensures
        param_value(params, "align"@) is None ==> align_of(params) is None,
        param_value(params, "align"@) matches Some(v) && lower(trim(v)) == "left"@ ==> align_of(params)
            == Some(TableAlign::Left),
        param_value(params, "align"@) matches Some(v) && lower(trim(v)) == "center"@ ==> align_of(
            params,
        ) == Some(TableAlign::Center),
        param_value(params, "align"@) matches Some(v) && lower(trim(v)) == "right"@ ==> align_of(params)
            == Some(TableAlign::Right),
        align_of(params) matches Some(a) ==> param_value(params, "align"@) matches Some(v) && (
        lower(trim(v)) == match a {
            TableAlign::Left => "left"@,
            TableAlign::Center => "center"@,
            TableAlign::Right => "right"@,
        }),
        param_value(params, "width"@) matches Some(w) ==> width_declaration_of(params) == Some(
            "width:"@ + w,
        ),
        param_value(params, "width"@) is None ==> width_declaration_of(params) is None,
{
    reveal_strlit("left");
    reveal_strlit("center");
    reveal_strlit("right");
    assert("left"@.len() != "center"@.len() && "left"@.len() != "right"@.len());
    assert("center"@.len() != "right"@.len());
}

/// The alignment of a table's wrapper.
pub fn table_align(params: &Parameters) -> (r: Option<TableAlign>)
    ensures
        r == align_of(params@),
{
    let value = match get_param(params, "align") {
        Some(v) => v,
        None => return None,
    };
    let trimmed = to_chars(trim_str(value.as_str()));
    let mut lowered: Vec<char> = Vec::new();
    let mut i: usize = 0;
    while i < trimmed.len()
        invariant
            i <= trimmed.len(),
            trimmed@ == trim(value@),
            lowered@ == trimmed@.take(i as int).map_values(|c: char| ascii_lower(c)),
        decreases trimmed.len() - i,
    {
        lowered.push(ascii_lower_exec(trimmed[i]));
        i = i + 1;
        assert(lowered@ =~= trimmed@.take(i as int).map_values(|c: char| ascii_lower(c)));
    }
    assert(trimmed@.take(i as int) =~= trimmed@);
    let l = chars_to_string(&lowered);
    if crate::text::str_eq(l.as_str(), "left") {
        Some(TableAlign::Left)
    } else if crate::text::str_eq(l.as_str(), "center") {
        Some(TableAlign::Center)
    } else if crate::text::str_eq(l.as_str(), "right") {
        Some(TableAlign::Right)
    } else {
        None
    }
}

/// The unsanitized width declaration of a table's wrapper, from `#width`.
pub open spec fn width_declaration_of(params: Seq<(Seq<char>, Seq<char>)>) -> Option<Seq<char>> {
    match param_value(params, "width"@) {
        Some(w) => Some("width:"@ + w),
        None => None,
    }
}

/// The width declaration of a table's wrapper, before sanitizing.
pub fn wrapper_width_declaration(params: &Parameters) -> (r: Option<String>)
    ensures
        opt_view(r) == width_declaration_of(params@),
{
    match get_param(params, "width") {
        Some(w) => {
            let mut out: Vec<char> = Vec::new();
            push_str(&mut out, "width:");
            push_str(&mut out, w.as_str());
            assert(out@ =~= "width:"@ + w@);
            Some(chars_to_string(&out))
        },
        None => None,
    }
}

/// An entry of a table as the row split reads it: a row and whether it has
/// the `#head` flag, or the rows of a conditional block and their flags.
pub enum RowItemInfo {
    Row { head: bool },
    Conditional { heads: Vec<bool> },
}

/// Where a row stands: the table entry, and for a conditional block the row
/// within it.
#[derive(Clone, Copy, Debug, PartialEq, Eq, Structural)]
pub struct RowPosition {
    pub item: usize,
    pub row: Option<usize>,
}

/// The rows of the conditional block at entry `item` whose `#head` flag is
/// `head`, in order.
pub open spec fn conditional_rows(item: int, heads: Seq<bool>, head: bool) -> Seq<RowPosition>
    decreases heads.len(),
{
    if heads.len() == 0 {
        seq![]
    } else {
        conditional_rows(item, heads.drop_last(), head) + if heads.last() == head {
            seq![RowPosition { item: item as usize, row: Some((heads.len() - 1) as usize) }]
        } else {
            seq![]
        }
    }
}

/// The rows of a table whose `#head` flag is `head`, in table order, rows
/// of conditional blocks included.
pub open spec fn rows_with(items: Seq<RowItemInfo>, head: bool) -> Seq<RowPosition>
    decreases items.len(),
{
    if items.len() == 0 {
        seq![]
    } else {
        rows_with(items.drop_last(), head) + match items.last() {
            RowItemInfo::Row { head: h } => if h == head {
                seq![RowPosition { item: (items.len() - 1) as usize, row: None }]
            } else {
                seq![]
            },
            RowItemInfo::Conditional { heads } => conditional_rows(items.len() - 1, heads@, head),
        }
    }
}

/// Splits the rows of a table into its head (rows with `#head`) and its
/// body, each in table order; rows of conditional blocks go where their own
/// flag puts them.
pub fn partition_rows(items: &Vec<RowItemInfo>) -> (r: (Vec<RowPosition>, Vec<RowPosition>))
    ensures
        r.0@ == rows_with(items@, true),
        r.1@ == rows_with(items@, false),
{
    let mut head_rows: Vec<RowPosition> = Vec::new();
    let mut body_rows: Vec<RowPosition> = Vec::new();
    let mut i: usize = 0;
    while i < items.len()
        invariant
            i <= items.len(),
            head_rows@ == rows_with(items@.take(i as int), true),
            body_rows@ == rows_with(items@.take(i as int), false),
        decreases items.len() - i,
    {
        assert(items@.take(i + 1).drop_last() =~= items@.take(i as int));
        assert(items@.take(i + 1).last() == items@[i as int]);
        match &items[i] {
            RowItemInfo::Row { head } => {
                if *head {
                    head_rows.push(RowPosition { item: i, row: None });
                } else {
                    body_rows.push(RowPosition { item: i, row: None });
                }
                assert(head_rows@ =~= rows_with(items@.take(i + 1), true));
                assert(body_rows@ =~= rows_with(items@.take(i + 1), false));
            },
            RowItemInfo::Conditional { heads } => {
                let ghost h0 = head_rows@;
                let ghost b0 = body_rows@;
                let mut j: usize = 0;
                while j < heads.len()
                    invariant
                        j <= heads.len(),
                        head_rows@ == h0 + conditional_rows(i as int, heads@.take(j as int), true),
                        body_rows@ == b0 + conditional_rows(i as int, heads@.take(j as int), false),
                    decreases heads.len() - j,
                {
                    assert(heads@.take(j + 1).drop_last() =~= heads@.take(j as int));
                    assert(heads@.take(j + 1).last() == heads@[j as int]);
                    if heads[j] {
                        head_rows.push(RowPosition { item: i, row: Some(j) });
                    } else {
                        body_rows.push(RowPosition { item: i, row: Some(j) });
                    }
                    assert(head_rows@ =~= h0 + conditional_rows(i as int, heads@.take(j + 1), true));
                    assert(body_rows@ =~= b0 + conditional_rows(i as int, heads@.take(j + 1), false));
                    j = j + 1;
                }
                assert(heads@.take(j as int) =~= heads@);
                assert(head_rows@ =~= rows_with(items@.take(i + 1), true));
                assert(body_rows@ =~= rows_with(items@.take(i + 1), false));
            },
        }
        i = i + 1;
    }
    assert(items@.take(i as int) =~= items@);
    (head_rows, body_rows)
}

/// The value of a run of decimal digits.
pub open spec fn digits_value(s: Seq<char>) -> nat
    decreases s.len(),
{
    if s.len() == 0 {
        0
    } else {
        digits_value(s.drop_last()) * 10 + (s.last() as nat - '0' as nat) as nat
    }
}

/// `s` without a leading `+`.
pub open spec fn without_plus(s: Seq<char>) -> Seq<char> {
    if s.len() > 0 && s[0] == '+' {
        s.drop_first()
    } else {
        s
    }
}

/// Every character of `d` is a decimal digit.
pub open spec fn all_digits(d: Seq<char>) -> bool {
    forall|i: int| 0 <= i < d.len() ==> is_decimal_digit(#[trigger] d[i])
}

/// The digits of `s` when it is an optional `+` followed by one or more
/// decimal digits and nothing else.
pub open spec fn unsigned_digits(s: Seq<char>) -> Option<Seq<char>> {
    let d = without_plus(s);
    if d.len() > 0 && all_digits(d) {
        Some(d)
    } else {
        None
    }
}

/// The number `s` spells as `str::parse::<usize>` reads it: an optional
/// `+` and decimal digits, no white space, and a value that fits.
pub open spec fn parsed_usize(s: Seq<char>) -> Option<usize> {
    match unsigned_digits(s) {
        Some(d) => if digits_value(d) <= usize::MAX {
            Some(digits_value(d) as usize)
        } else {
            None
        },
        None => None,
    }
}

/// The column or row span of a cell: its `x` or `y` text read as a number,
/// kept when above 1.
pub open spec fn span_count_of(s: Seq<char>) -> Option<usize> {
    match parsed_usize(s) {
        Some(n) => if n > 1 {
            Some(n)
        } else {
            None
        },
        None => None,
    }
}

/// Appending digits never makes the value smaller.
proof fn lemma_digits_value_grows(s: Seq<char>, k: int)
    requires
        0 <= k <= s.len(),
        forall|i: int| 0 <= i < s.len() ==> is_decimal_digit(#[trigger] s[i]),
    ensures
        digits_value(s.take(k)) <= digits_value(s),
    decreases s.len() - k,
{
    if k < s.len() {
        lemma_digits_value_grows(s, k + 1);
        assert(s.take(k + 1).drop_last() =~= s.take(k));
        assert(is_decimal_digit(s[k]));
        assert(s.take(k + 1).last() == s[k]);
    } else {
        assert(s.take(k) =~= s);
    }
}

/// The column or row span a cell asks for with its `x` or `y` text.
pub fn span_count(text: &str) -> (r: Option<usize>)
    ensures
        r == span_count_of(text@),
{
    let chars = to_chars(text);
    let start: usize = if chars.len() > 0 && chars[0] == '+' { 1 } else { 0 };
    let ghost d = if chars@.len() > 0 && chars@[0] == '+' {
        chars@.drop_first()
    } else {
        chars@
    };
    assert(d =~= chars@.skip(start as int));
    if start >= chars.len() {
        return None;
    }
    let mut value: usize = 0;
    let mut k: usize = start;
    while k < chars.len()
        invariant
            start <= k <= chars.len(),
            chars@ == text@,
            d == chars@.skip(start as int),
            d == without_plus(text@),
            d.len() > 0,
            forall|i: int| 0 <= i < k - start ==> is_decimal_digit(#[trigger] d[i]),
            value as nat == digits_value(d.take(k - start)),
        decreases chars.len() - k,
    {
        let c = chars[k];
        if !('0' <= c && c <= '9') {
            assert(!is_decimal_digit(d[k - start]));
            assert(unsigned_digits(text@) is None);
            return None;
        }
        let digit = (c as u32 - '0' as u32) as usize;
        assert(d.take(k - start + 1).drop_last() =~= d.take(k - start));
        assert(d.take(k - start + 1).last() == c);
        if value > (usize::MAX - digit) / 10 {
            proof {
                assert(value * 10 + digit > usize::MAX) by (nonlinear_arith)
                    requires
                        value > (usize::MAX - digit) / 10,
                        digit <= 9,
                ;
                if unsigned_digits(text@) is Some {
                    assert(unsigned_digits(text@) == Some(d));
                    lemma_digits_value_grows(d, k - start + 1);
                    assert(digits_value(d.take(k - start + 1)) == value * 10 + digit);
                }
            }
            return None;
        }
        value = value * 10 + digit;
        k = k + 1;
    }
    assert(d.take(k - start) =~= d);
    if value > 1 {
        Some(value)
    } else {
        None
    }
}

} // verus!
