//! Numbers typed at the monitor: hexadecimal, written `0x1234`, `0X1234`,
//! `&1234`, `$1234` or plain `1234`, a `+` allowed before the digits.

use vstd::prelude::*;
use vstd::string::*;

verus! {

/// The value of the hexadecimal digit `c`, upper or lower case.
pub open spec fn hex_digit(c: char) -> Option<nat> {
    if '0' <= c && c <= '9' {
        Some((c as nat - '0' as nat) as nat)
    } else if 'a' <= c && c <= 'f' {
        Some((c as nat - 'a' as nat + 10) as nat)
    } else if 'A' <= c && c <= 'F' {
        Some((c as nat - 'A' as nat + 10) as nat)
    } else {
        None
    }
}

/// How many characters of `s` the radix prefix takes: `0x` or `0X`, `&`
/// or `$`, or none.
pub open spec fn prefix_len(s: Seq<char>) -> int {
    if s.len() >= 2 && s[0] == '0' && (s[1] == 'x' || s[1] == 'X') {
        2
    } else if s.len() >= 1 && (s[0] == '&' || s[0] == '$') {
        1
    } else {
        0
    }
}

/// The digits of `s`: what follows the prefix, and a `+` after it.
pub open spec fn digits_of(s: Seq<char>) -> Seq<char> {
    let d = s.skip(prefix_len(s));
    if d.len() > 0 && d[0] == '+' { d.skip(1) } else { d }
}

/// Every character of `d` is a hexadecimal digit.
pub open spec fn all_hex(d: Seq<char>) -> bool {
    forall|i: int| 0 <= i < d.len() ==> #[trigger] hex_digit(d[i]) is Some
}

/// The value of the hexadecimal digits `d`, the first the most significant.
pub open spec fn hex_value(d: Seq<char>) -> nat
    decreases d.len(),
{
    if d.len() == 0 {
        0
    } else {
        hex_value(d.drop_last()) * 16 + hex_digit(d.last())->0
    }
}

/// The number `s` reads as, when at most `max`: at least one digit, all of
/// them hexadecimal.
pub open spec fn hex_reading(s: Seq<char>, max: nat) -> Option<nat> {
    let d = digits_of(s);
    if d.len() > 0 && all_hex(d) && hex_value(d) <= max { Some(hex_value(d)) } else { None }
}

/// Adding digits never lowers the value.
proof fn lemma_hex_value_grows(d: Seq<char>, i: int)
    requires
        0 <= i <= d.len(),
        all_hex(d),
    ensures
        hex_value(d.take(i)) <= hex_value(d),
    decreases d.len() - i,
{
    if i < d.len() {
        lemma_hex_value_grows(d, i + 1);
        assert(d.take(i + 1).drop_last() =~= d.take(i));
        assert(hex_digit(d[i]) is Some);
    } else {
        assert(d.take(i) =~= d);
    }
}

/// The value of the hexadecimal digit `c`, if it is one.
fn digit_value(c: char) -> (v: Option<u32>)
    ensures
        match hex_digit(c) {
            Some(n) => v == Some(n as u32),
            None => v is None,
        },
{
    if '0' <= c && c <= '9' {
        Some(c as u32 - '0' as u32)
    } else if 'a' <= c && c <= 'f' {
        Some(c as u32 - 'a' as u32 + 10)
    } else if 'A' <= c && c <= 'F' {
        Some(c as u32 - 'A' as u32 + 10)
    } else {
        None
    }
}

/// The number `text` reads as (see `hex_reading`), when at most `max`.
pub fn read_hex(text: &str, max: u32) -> (r: Option<u32>)
    ensures
        match hex_reading(text@, max as nat) {
            Some(n) => r == Some(n as u32),
            None => r is None,
        },
{
    let ghost s = text@;
    let n = text.unicode_len();
    let mut start: usize = 0;
    if n >= 2 && text.get_char(0) == '0' && (text.get_char(1) == 'x' || text.get_char(1) == 'X') {
        start = 2;
    } else if n >= 1 && (text.get_char(0) == '&' || text.get_char(0) == '$') {
        start = 1;
    }
    assert(start == prefix_len(s));
    if start < n && text.get_char(start) == '+' {
        start += 1;
    }
    let ghost d = digits_of(s);
    assert(d =~= s.skip(start as int));
    if start == n {
        return None;
    }
    let mut value: u64 = 0;
    let mut i: usize = start;
    while i < n
        invariant
            start <= i <= n,
            n == s.len(),
            s == text@,
            start < n,
            d == s.skip(start as int),
            d == digits_of(text@),
            value <= max,
            value == hex_value(d.take(i - start)),
            all_hex(d.take(i - start)),
        decreases n - i,
    {
        let c = text.get_char(i);
        let ghost k = (i - start) as int;
        assert(d.take(k + 1).drop_last() =~= d.take(k));
        assert(d[k] == c);
        match digit_value(c) {
            Some(v) => {
                value = value * 16 + v as u64;
                assert(value == hex_value(d.take(k + 1)));
                if value > max as u64 {
                    proof {
                        assert(all_hex(d.take(k + 1))) by {
                            assert forall|j: int| 0 <= j < k + 1 implies #[trigger] hex_digit(d.take(k + 1)[j]) is Some by {
                                if j < k {
                                    assert(d.take(k + 1)[j] == d.take(k)[j]);
                                }
                            }
                        }
                        if all_hex(d) {
                            lemma_hex_value_grows(d, k + 1);
                        }
                    }
                    return None;
                }
                proof {
                    assert forall|j: int| 0 <= j < k + 1 implies #[trigger] hex_digit(d.take(k + 1)[j]) is Some by {
                        if j < k {
                            assert(d.take(k + 1)[j] == d.take(k)[j]);
                        }
                    }
                }
            },
            None => {
                assert(!all_hex(d)) by {
                    assert(hex_digit(d[k]) is None);
                }
                return None;
            },
        }
        i += 1;
    }
    assert(d.take(n - start) =~= d);
    Some(value as u32)
}

/// The message for `text` that is no `kind` hexadecimal value.
pub open spec fn not_hex_text(kind: Seq<char>, text: Seq<char>) -> Seq<char> {
    "not "@ + kind + " hexadecimal value: '"@ + text + "'"@
}

/// The message for `text` that is no `kind` hexadecimal value.
fn not_hex_message(kind: &str, text: &str) -> (m: String)
    ensures
        m@ == not_hex_text(kind@, text@),
{
    let mut m = String::from_str("not ");
    m.append(kind);
    m.append(" hexadecimal value: '");
    m.append(text);
    m.append("'");
    m
}

/// The 16-bit value `text` reads as (see `hex_reading`), or why not.
pub fn hex_u16(text: &str) -> (r: Result<u16, String>)
    ensures
        match hex_reading(text@, 0xFFFF) {
            Some(n) => r == Ok::<u16, String>(n as u16),
            None => r matches Err(m) && m@ == not_hex_text("a 16-bit"@, text@),
        },
{
    match read_hex(text, 0xFFFF) {
        Some(v) => Ok(v as u16),
        None => Err(not_hex_message("a 16-bit", text)),
    }
}

/// The 8-bit value `text` reads as (see `hex_reading`), or why not.
pub fn hex_u8(text: &str) -> (r: Result<u8, String>)
    ensures
        match hex_reading(text@, 0xFF) {
            Some(n) => r == Ok::<u8, String>(n as u8),
            None => r matches Err(m) && m@ == not_hex_text("an 8-bit"@, text@),
        },
{
    match read_hex(text, 0xFF) {
        Some(v) => Ok(v as u8),
        None => Err(not_hex_message("an 8-bit", text)),
    }
}

/// The value of the decimal digit `c`.
pub open spec fn dec_digit(c: char) -> Option<nat> {
    if '0' <= c && c <= '9' { Some((c as nat - '0' as nat) as nat) } else { None }
}

/// Every character of `d` is a decimal digit.
pub open spec fn all_dec(d: Seq<char>) -> bool {
    forall|i: int| 0 <= i < d.len() ==> #[trigger] dec_digit(d[i]) is Some
}

/// The value of the decimal digits `d`, the first the most significant.
pub open spec fn dec_value(d: Seq<char>) -> nat
    decreases d.len(),
{
    if d.len() == 0 { 0 } else { dec_value(d.drop_last()) * 10 + dec_digit(d.last())->0 }
}

/// The digits of a decimal count: `s` without a leading `+`.
pub open spec fn dec_digits_of(s: Seq<char>) -> Seq<char> {
    if s.len() > 0 && s[0] == '+' { s.skip(1) } else { s }
}

/// The number `s` reads as in decimal (as Rust's `parse` reads an unsigned
/// integer), when at most `max`.
pub open spec fn decimal_reading(s: Seq<char>, max: nat) -> Option<nat> {
    let d = dec_digits_of(s);
    if d.len() > 0 && all_dec(d) && dec_value(d) <= max { Some(dec_value(d)) } else { None }
}

/// Adding digits never lowers the value.
proof fn lemma_dec_value_grows(d: Seq<char>, i: int)
    requires
        0 <= i <= d.len(),
        all_dec(d),
    ensures
        dec_value(d.take(i)) <= dec_value(d),
    decreases d.len() - i,
{
    if i < d.len() {
        lemma_dec_value_grows(d, i + 1);
        assert(d.take(i + 1).drop_last() =~= d.take(i));
        assert(dec_digit(d[i]) is Some);
    } else {
        assert(d.take(i) =~= d);
    }
}

/// The number `text` reads as in decimal (see `decimal_reading`), when at
/// most `max`.
pub fn read_decimal(text: &str, max: u64) -> (r: Option<u64>)
    ensures
        match decimal_reading(text@, max as nat) {
            Some(n) => r == Some(n as u64),
            None => r is None,
        },
{
    let ghost s = text@;
    let n = text.unicode_len();
    let mut start: usize = 0;
    if n >= 1 && text.get_char(0) == '+' {
        start = 1;
    }
    let ghost d = dec_digits_of(s);
    assert(d =~= s.skip(start as int));
    if start == n {
        return None;
    }
    let mut value: u64 = 0;
    let mut i: usize = start;
    while i < n
        invariant
            start <= i <= n,
            n == s.len(),
            s == text@,
            start < n,
            d == s.skip(start as int),
            d == dec_digits_of(text@),
            value <= max,
            value == dec_value(d.take(i - start)),
            all_dec(d.take(i - start)),
        decreases n - i,
    {
        let c = text.get_char(i);
        let ghost k = (i - start) as int;
        assert(d.take(k + 1).drop_last() =~= d.take(k));
        assert(d[k] == c);
        if '0' <= c && c <= '9' {
            let v = c as u64 - '0' as u64;
            proof {
                assert forall|j: int| 0 <= j < k + 1 implies #[trigger] dec_digit(d.take(k + 1)[j]) is Some by {
                    if j < k {
                        assert(d.take(k + 1)[j] == d.take(k)[j]);
                    }
                }
            }
            if v > max || value > (max - v) / 10 {
                proof {
                    assert(value * 10 + v > max) by (nonlinear_arith)
                        requires v > max || value > (max - v) / 10, v <= 9, value >= 0;
                    if all_dec(d) {
                        lemma_dec_value_grows(d, k + 1);
                    }
                }
                return None;
            }
            assert(value * 10 + v <= max) by (nonlinear_arith)
                requires value <= (max - v) / 10, v <= max;
            value = value * 10 + v;
            assert(value == dec_value(d.take(k + 1)));
        } else {
            assert(!all_dec(d)) by {
                assert(dec_digit(d[k]) is None);
            }
            return None;
        }
        i += 1;
    }
    assert(d.take(n - start) =~= d);
    Some(value)
}

} // verus!
