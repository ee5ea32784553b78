//! Protocol positions of byte offsets: the line (counting `\n`) and the
//! character on it (counting UTF-16 code units), as `u32`s saturated at
//! `u32::MAX`.

use vstd::prelude::*;

use crate::rpc::utf16_width;

verus! {

/// The width of a character in UTF-8 bytes.
pub open spec fn utf8_width(c: char) -> nat {
    if (c as u32) < 0x80 {
        1
    } else if (c as u32) < 0x800 {
        2
    } else if (c as u32) < 0x10000 {
        3
    } else {
        4
    }
}

/// The line and character reached by scanning `s` from character `i`
/// (at byte `b`, with `line` and `col` counted so far) over the characters
/// that start before byte `offset`.
pub open spec fn position_from(s: Seq<char>, i: int, b: int, offset: int, line: nat, col: nat) -> (
    nat,
    nat,
)
    decreases s.len() - i,
{
    if i < 0 || i >= s.len() || b >= offset {
        (line, col)
    } else if s[i] == '\n' {
        position_from(s, i + 1, b + utf8_width(s[i]), offset, line + 1, 0)
    } else {
        position_from(s, i + 1, b + utf8_width(s[i]), offset, line, col + utf16_width(s[i]))
    }
}

/// A count as a `u32`, saturated at `u32::MAX`.
pub open spec fn saturated(n: nat) -> u32 {
    if n > u32::MAX {
        u32::MAX
    } else {
        n as u32
    }
}

/// The protocol position of byte `offset` of the text `s`.
pub open spec fn offset_position(s: Seq<char>, offset: int) -> (u32, u32) {
    let (line, col) = position_from(s, 0, 0, offset, 0, 0);
    (saturated(line), saturated(col))
}

/// The protocol position of byte `offset` of the text whose characters are
/// `chars`.
pub fn offset_to_position(chars: &Vec<char>, offset: usize) -> (r: (u32, u32))
    ensures
        r == offset_position(chars@, offset as int),
{
    let ghost s = chars@;
    let mut i: usize = 0;
    let mut b: u128 = 0;
    let mut line: u128 = 0;
    let mut col: u128 = 0;
    while i < chars.len() && b < offset as u128
        invariant
            s == chars@,
            i <= chars.len(),
            b <= 4 * i,
            line <= i,
            col <= 2 * i,
            position_from(s, i as int, b as int, offset as int, line as nat, col as nat)
                == position_from(s, 0, 0, offset as int, 0, 0),
        decreases chars.len() - i,
    {
        let c = chars[i];
        let cp = c as u32;
        let w: u128 = if cp < 0x80 {
            1
        } else if cp < 0x800 {
            2
        } else if cp < 0x10000 {
            3
        } else {
            4
        };
        if c == '\n' {
            line = line + 1;
            col = 0;
        } else {
            col = col + if cp < 0x10000 {
                1
            } else {
                2
            };
        }
        b = b + w;
        i = i + 1;
    }
    let l: u32 = if line > u32::MAX as u128 {
        u32::MAX
    } else {
        line as u32
    };
    let k: u32 = if col > u32::MAX as u128 {
        u32::MAX
    } else {
        col as u32
    };
    (l, k)
}

} // verus!
