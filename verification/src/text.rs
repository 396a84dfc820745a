//! Numbers written out in messages: decimal, and two-digit hexadecimal
//! with the `0x` prefix.

use vstd::prelude::*;
use vstd::string::*;

verus! {

/// The digit of value `d` (0 to 15), upper case beyond 9.
pub open spec fn digit_char(d: int) -> char {
    if d == 0 { '0' }
    else if d == 1 { '1' }
    else if d == 2 { '2' }
    else if d == 3 { '3' }
    else if d == 4 { '4' }
    else if d == 5 { '5' }
    else if d == 6 { '6' }
    else if d == 7 { '7' }
    else if d == 8 { '8' }
    else if d == 9 { '9' }
    else if d == 10 { 'A' }
    else if d == 11 { 'B' }
    else if d == 12 { 'C' }
    else if d == 13 { 'D' }
    else if d == 14 { 'E' }
    else { 'F' }
}

/// `n` in decimal, without leading zeros.
pub open spec fn decimal(n: nat) -> Seq<char>
    decreases n,
{
    if n < 10 {
        seq![digit_char(n as int)]
    } else {
        decimal(n / 10).push(digit_char((n % 10) as int))
    }
}

/// `b` as `0x` and two upper-case hexadecimal digits.
pub open spec fn hex_byte(b: u8) -> Seq<char> {
    seq!['0', 'x', digit_char(b as int / 16), digit_char(b as int % 16)]
}

/// The one-character text of the digit `d`.
fn digit_str(d: u64) -> (s: &'static str)
    requires
        d < 16,
    ensures
        s@ == seq![digit_char(d as int)],
{
    proof {
        reveal_strlit("0");
        reveal_strlit("1");
        reveal_strlit("2");
        reveal_strlit("3");
        reveal_strlit("4");
        reveal_strlit("5");
        reveal_strlit("6");
        reveal_strlit("7");
        reveal_strlit("8");
        reveal_strlit("9");
        reveal_strlit("A");
        reveal_strlit("B");
        reveal_strlit("C");
        reveal_strlit("D");
        reveal_strlit("E");
        reveal_strlit("F");
    }
    if d == 0 { "0" }
    else if d == 1 { "1" }
    else if d == 2 { "2" }
    else if d == 3 { "3" }
    else if d == 4 { "4" }
    else if d == 5 { "5" }
    else if d == 6 { "6" }
    else if d == 7 { "7" }
    else if d == 8 { "8" }
    else if d == 9 { "9" }
    else if d == 10 { "A" }
    else if d == 11 { "B" }
    else if d == 12 { "C" }
    else if d == 13 { "D" }
    else if d == 14 { "E" }
    else { "F" }
}

/// Appends `n` in decimal to `s`.
pub fn push_decimal(s: &mut String, n: u64)
    ensures
        final(s)@ == old(s)@ + decimal(n as nat),
    decreases n,
{
    if n >= 10 {
        push_decimal(s, n / 10);
    }
    s.append(digit_str(n % 10));
    proof {
        if n >= 10 {
            assert(decimal(n as nat) == decimal((n / 10) as nat).push(digit_char((n % 10) as int)));
        }
    }
}

/// Appends `b` as `0x` and two hexadecimal digits to `s`.
pub fn push_hex_byte(s: &mut String, b: u8)
    ensures
        final(s)@ == old(s)@ + hex_byte(b),
{
    proof {
        reveal_strlit("0x");
    }
    s.append("0x");
    s.append(digit_str(b as u64 / 16));
    s.append(digit_str(b as u64 % 16));
}

/// `b` as Rust writes a boolean.
pub open spec fn bool_text(b: bool) -> Seq<char> {
    if b { "true"@ } else { "false"@ }
}

/// `k` spaces.
pub open spec fn spaces(k: int) -> Seq<char> {
    Seq::new(if k < 0 { 0 } else { k as nat }, |_i: int| ' ')
}

/// `n` in decimal, spaces after it up to `w` characters.
pub open spec fn decimal_left(n: nat, w: int) -> Seq<char> {
    decimal(n) + spaces(w - decimal(n).len())
}

/// `n` in decimal, spaces before it up to `w` characters.
pub open spec fn decimal_right(n: nat, w: int) -> Seq<char> {
    spaces(w - decimal(n).len()) + decimal(n)
}

/// The eight bits of `b`, the highest first.
pub open spec fn binary8(b: u8) -> Seq<char> {
    Seq::new(8, |i: int| if (b >> (7 - i) as u8) & 1 == 1 { '1' } else { '0' })
}

/// Appends `b` as Rust writes a boolean.
pub fn push_bool(s: &mut String, b: bool)
    ensures
        final(s)@ == old(s)@ + bool_text(b),
{
    if b { s.append("true") } else { s.append("false") }
}

/// The number of decimal digits of `n`.
fn decimal_len(n: u64) -> (k: u64)
    ensures
        k as nat == decimal(n as nat).len(),
        k as nat <= n + 1,
    decreases n,
{
    if n < 10 {
        1
    } else {
        1 + decimal_len(n / 10)
    }
}

/// Appends `k` spaces.
fn push_spaces(s: &mut String, k: usize)
    ensures
        final(s)@ == old(s)@ + spaces(k as int),
{
    let mut i: usize = 0;
    while i < k
        invariant
            i <= k,
            s@ == old(s)@ + spaces(i as int),
        decreases k - i,
    {
        s.append(" ");
        proof {
            reveal_strlit(" ");
            assert(spaces(i as int) + " "@ =~= spaces(i + 1));
        }
        i += 1;
    }
}

/// Appends `n` in decimal, then spaces up to `w` characters.
pub fn push_decimal_left(s: &mut String, n: u64, w: usize)
    ensures
        final(s)@ == old(s)@ + decimal_left(n as nat, w as int),
{
    let k = decimal_len(n);
    push_decimal(s, n);
    let pad: usize = if (w as u64) > k { (w as u64 - k) as usize } else { 0 };
    push_spaces(s, pad);
    proof {
        assert(spaces(pad as int) =~= spaces(w - decimal(n as nat).len()));
    }
}

/// Appends spaces up to `w` characters, then `n` in decimal.
pub fn push_decimal_right(s: &mut String, n: u64, w: usize)
    ensures
        final(s)@ == old(s)@ + decimal_right(n as nat, w as int),
{
    let k = decimal_len(n);
    let pad: usize = if (w as u64) > k { (w as u64 - k) as usize } else { 0 };
    push_spaces(s, pad);
    push_decimal(s, n);
    proof {
        assert(spaces(pad as int) =~= spaces(w - decimal(n as nat).len()));
    }
}

/// Appends the eight bits of `b`, the highest first.
pub fn push_binary8(s: &mut String, b: u8)
    ensures
        final(s)@ == old(s)@ + binary8(b),
{
    let mut i: u8 = 0;
    while i < 8
        invariant
            i <= 8,
            s@ == old(s)@ + binary8(b).take(i as int),
        decreases 8 - i,
    {
        let bit = (b >> (7 - i)) & 1;
        if bit == 1 { s.append("1") } else { s.append("0") }
        proof {
            reveal_strlit("1");
            reveal_strlit("0");
            assert(binary8(b).take(i as int).push(binary8(b)[i as int]) =~= binary8(b).take(i + 1));
        }
        i += 1;
    }
    assert(binary8(b).take(8) =~= binary8(b));
}

/// `b` as two upper-case hexadecimal digits.
pub open spec fn hex2(b: u8) -> Seq<char> {
    seq![digit_char(b as int / 16), digit_char(b as int % 16)]
}

/// `w` as four upper-case hexadecimal digits.
pub open spec fn hex4(w: u16) -> Seq<char> {
    seq![digit_char(w as int / 4096), digit_char(w as int / 256 % 16), digit_char(w as int / 16 % 16), digit_char(w as int % 16)]
}

/// `w` as `0x` and four upper-case hexadecimal digits.
pub open spec fn hex_word(w: u16) -> Seq<char> {
    "0x"@ + hex4(w)
}

/// Appends `b` as two hexadecimal digits.
pub fn push_hex2(s: &mut String, b: u8)
    ensures
        final(s)@ == old(s)@ + hex2(b),
{
    s.append(digit_str(b as u64 / 16));
    s.append(digit_str(b as u64 % 16));
}

/// Appends `w` as four hexadecimal digits.
pub fn push_hex4(s: &mut String, w: u16)
    ensures
        final(s)@ == old(s)@ + hex4(w),
{
    s.append(digit_str(w as u64 / 4096));
    s.append(digit_str(w as u64 / 256 % 16));
    s.append(digit_str(w as u64 / 16 % 16));
    s.append(digit_str(w as u64 % 16));
}

/// Appends `w` as `0x` and four hexadecimal digits.
pub fn push_hex_word(s: &mut String, w: u16)
    ensures
        final(s)@ == old(s)@ + hex_word(w),
{
    s.append("0x");
    push_hex4(s, w);
}

} // verus!
