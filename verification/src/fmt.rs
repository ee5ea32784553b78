//! Number formatting and string assembly.

use vstd::prelude::*;

verus! {

/// The character of a digit value below 16 (lower-case letters above 9).
pub open spec fn digit_char(d: nat) -> char {
    if d < 10 {
        ((d + 48) as u8) as char
    } else {
        ((d + 87) as u8) as char
    }
}

/// The decimal representation of `n`, without leading zeros ("0" for 0).
pub open spec fn decimal(n: nat) -> Seq<char>
    decreases n,
{
    if n < 10 {
        seq![digit_char(n)]
    } else {
        decimal(n / 10).push(digit_char(n % 10))
    }
}

/// The lower-case hexadecimal representation of `n`, without leading zeros
/// ("0" for 0), as `format!("{:x}", n)` writes it.
pub open spec fn lower_hex(n: nat) -> Seq<char>
    decreases n,
{
    if n < 16 {
        seq![digit_char(n)]
    } else {
        lower_hex(n / 16).push(digit_char(n % 16))
    }
}

/// A byte as two lower-case hexadecimal digits, as `format!("{:02x}", b)`
/// writes it.
pub open spec fn byte_hex(b: u8) -> Seq<char> {
    seq![digit_char((b / 16) as nat), digit_char((b % 16) as nat)]
}

/// Every byte of `bytes` as two lower-case hexadecimal digits.
pub open spec fn bytes_hex(bytes: Seq<u8>) -> Seq<char>
    decreases bytes.len(),
{
    if bytes.len() == 0 {
        seq![]
    } else {
        bytes_hex(bytes.drop_last()) + byte_hex(bytes.last())
    }
}

/// A decimal digit character, `0` to `9`.
pub open spec fn is_decimal_digit(c: char) -> bool {
    '0' <= c && c <= '9'
}

/// A lower-case hexadecimal digit character, `0` to `9` or `a` to `f`.
pub open spec fn is_hex_digit(c: char) -> bool {
    ('0' <= c && c <= '9') || ('a' <= c && c <= 'f')
}

/// Digit characters are hexadecimal digits, decimal below 10, and distinct
/// for distinct digit values.
pub proof fn lemma_digit_char(d: nat, e: nat)
    requires
        d < 16,
        e < 16,
    ensures
        is_hex_digit(digit_char(d)),
        d < 10 ==> is_decimal_digit(digit_char(d)),
        digit_char(d) == digit_char(e) ==> d == e,
{
}

/// `decimal(n)` is a non-empty run of decimal digits.
pub proof fn lemma_decimal_digits(n: nat)
    ensures
        decimal(n).len() >= 1,
        n >= 10 ==> decimal(n).len() >= 2,
        forall|k: int| 0 <= k < decimal(n).len() ==> is_decimal_digit(#[trigger] decimal(n)[k]),
    decreases n,
{
    lemma_digit_char(n % 10, 0);
    if n >= 10 {
        lemma_decimal_digits(n / 10);
    }
}

/// `16` to the power `k`.
pub open spec fn hex_bound(k: nat) -> nat
    decreases k,
{
    if k == 0 {
        1
    } else {
        16 * hex_bound((k - 1) as nat)
    }
}

/// `lower_hex(n)` is a non-empty run of hexadecimal digits, with at most
/// `k` digits when `n < 16^k`.
pub proof fn lemma_lower_hex_digits(n: nat, k: nat)
    requires
        k >= 1,
        n < hex_bound(k),
    ensures
        1 <= lower_hex(n).len() <= k,
        forall|i: int| 0 <= i < lower_hex(n).len() ==> is_hex_digit(#[trigger] lower_hex(n)[i]),
    decreases n,
{
    lemma_digit_char(n % 16, 0);
    if n >= 16 {
        let b = hex_bound((k - 1) as nat);
        if k == 1 {
            assert(hex_bound(0) == 1);
            assert(false);
        }
        assert(n / 16 < b) by (nonlinear_arith)
            requires
                n < 16 * b,
        ;
        lemma_lower_hex_digits(n / 16, (k - 1) as nat);
        assert forall|i: int| 0 <= i < lower_hex(n).len() implies is_hex_digit(
            #[trigger] lower_hex(n)[i],
        ) by {
            if i < lower_hex(n / 16).len() {
                assert(lower_hex(n)[i] == lower_hex(n / 16)[i]);
            }
        }
    }
}

/// Distinct numbers have distinct decimal representations.
pub proof fn lemma_decimal_injective(n: nat, m: nat)
    requires
        decimal(n) == decimal(m),
    ensures
        n == m,
    decreases n,
{
    lemma_decimal_digits(n);
    lemma_decimal_digits(m);
    if n < 10 && m < 10 {
        assert(decimal(n)[0] == digit_char(n));
        assert(decimal(m)[0] == digit_char(m));
        lemma_digit_char(n, m);
    } else if n >= 10 && m >= 10 {
        assert(decimal(n).drop_last() =~= decimal(n / 10));
        assert(decimal(m).drop_last() =~= decimal(m / 10));
        assert(decimal(n).last() == digit_char(n % 10));
        assert(decimal(m).last() == digit_char(m % 10));
        lemma_decimal_injective(n / 10, m / 10);
        lemma_digit_char(n % 10, m % 10);
        assert(n == (n / 10) * 10 + n % 10);
        assert(m == (m / 10) * 10 + m % 10);
    } else if n < 10 {
        assert(decimal(n).len() == 1);
    } else {
        assert(decimal(m).len() == 1);
    }
}

/// `bytes_hex(b)` holds two digits per byte: the high then the low half.
pub proof fn lemma_bytes_hex(b: Seq<u8>)
    ensures
        bytes_hex(b).len() == 2 * b.len(),
        forall|k: int|
            0 <= k < b.len() ==> bytes_hex(b)[2 * k] == digit_char((b[k] / 16) as nat) && bytes_hex(
                b,
            )[2 * k + 1] == digit_char((b[k] % 16) as nat),
        forall|k: int| 0 <= k < bytes_hex(b).len() ==> is_hex_digit(#[trigger] bytes_hex(b)[k]),
    decreases b.len(),
{
    if b.len() > 0 {
        lemma_bytes_hex(b.drop_last());
        lemma_digit_char((b.last() / 16) as nat, 0);
        lemma_digit_char((b.last() % 16) as nat, 0);
        let h = bytes_hex(b);
        let p = bytes_hex(b.drop_last());
        assert forall|k: int| 0 <= k < b.len() implies h[2 * k] == digit_char(
            (b[k] / 16) as nat,
        ) && h[2 * k + 1] == digit_char((b[k] % 16) as nat) by {
            if k < b.len() - 1 {
                assert(b.drop_last()[k] == b[k]);
                assert(h[2 * k] == p[2 * k]);
                assert(h[2 * k + 1] == p[2 * k + 1]);
            }
        }
        assert forall|k: int| 0 <= k < h.len() implies is_hex_digit(#[trigger] h[k]) by {
            if k < p.len() {
                assert(h[k] == p[k]);
            }
        }
    }
}

/// Distinct byte strings have distinct hexadecimal forms.
pub proof fn lemma_bytes_hex_injective(a: Seq<u8>, b: Seq<u8>)
    requires
        bytes_hex(a) == bytes_hex(b),
    ensures
        a == b,
{
    lemma_bytes_hex(a);
    lemma_bytes_hex(b);
    assert forall|k: int| 0 <= k < a.len() implies a[k] == b[k] by {
        lemma_digit_char((a[k] / 16) as nat, (b[k] / 16) as nat);
        lemma_digit_char((a[k] % 16) as nat, (b[k] % 16) as nat);
    }
    assert(a =~= b);
}

/// The character of a digit value.
pub fn digit_char_exec(d: u8) -> (c: char)
    requires
        d < 16,
    ensures
        c == digit_char(d as nat),
{
    if d < 10 {
        (d + 48) as char
    } else {
        (d + 87) as char
    }
}

/// Appends `c` to `s` with `String::push`, which the standard library
/// documents as appending the character to the end of the string.
#[verifier::external_body]
fn push_char(s: &mut String, c: char)
    ensures
        final(s)@ == old(s)@.push(c),
{
    s.push(c);
}

/// Collects characters into a `String`.
pub fn chars_to_string(chars: &Vec<char>) -> (s: String)
    ensures
        s@ == chars@,
{
    let mut out = String::new();
    let mut i: usize = 0;
    while i < chars.len()
        invariant
            i <= chars.len(),
            out@ == chars@.take(i as int),
        decreases chars.len() - i,
    {
        push_char(&mut out, chars[i]);
        i = i + 1;
        assert(out@ =~= chars@.take(i as int));
    }
    assert(chars@.take(i as int) =~= chars@);
    out
}

/// Appends the decimal representation of `n` to `out`.
pub fn push_decimal(out: &mut Vec<char>, n: usize)
    ensures
        final(out)@ == old(out)@ + decimal(n as nat),
    decreases n,
{
    if n >= 10 {
        push_decimal(out, n / 10);
    }
    out.push(digit_char_exec((n % 10) as u8));
}

/// Appends the lower-case hexadecimal representation of `n` to `out`.
pub fn push_lower_hex(out: &mut Vec<char>, n: u64)
    ensures
        final(out)@ == old(out)@ + lower_hex(n as nat),
    decreases n,
{
    if n >= 16 {
        push_lower_hex(out, n / 16);
    }
    out.push(digit_char_exec((n % 16) as u8));
}

/// Appends the characters of `s` to `out`.
pub fn push_str(out: &mut Vec<char>, s: &str)
    ensures
        final(out)@ == old(out)@ + s@,
{
    let chars = crate::text::to_chars(s);
    let mut i: usize = 0;
    let ghost start = out@;
    while i < chars.len()
        invariant
            i <= chars.len(),
            chars@ == s@,
            out@ == start + chars@.take(i as int),
        decreases chars.len() - i,
    {
        out.push(chars[i]);
        i = i + 1;
        assert(out@ =~= start + chars@.take(i as int));
    }
    assert(chars@.take(i as int) =~= chars@);
}

} // verus!
