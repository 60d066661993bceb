//! Decimal integers as text: reading a signed 32-bit value out of a run of
//! characters, writing one back, and the percentage strings built on both.

use vstd::prelude::*;
use vstd::slice::slice_subrange;

verus! {

/// Whether `c` is one of the ASCII digits `0` to `9`.
pub open spec fn is_digit(c: char) -> bool {
    0x30 <= c as u32 <= 0x39
}

/// The value of an ASCII digit; zero for any other character.
pub open spec fn digit_value(c: char) -> nat {
    if is_digit(c) {
        (c as u32 - 0x30) as nat
    } else {
        0
    }
}

/// Whether `s` is made of ASCII digits only.
pub open spec fn all_digits(s: Seq<char>) -> bool {
    forall|i: int| 0 <= i < s.len() ==> is_digit(#[trigger] s[i])
}

/// The number that the digits of `s` write in base ten.
pub open spec fn digits_value(s: Seq<char>) -> nat
    decreases s.len(),
{
    if s.len() == 0 {
        0
    } else {
        digits_value(s.drop_last()) * 10 + digit_value(s.last())
    }
}

/// The digits of `s` once an optional leading sign is set aside.
pub open spec fn unsigned_part(s: Seq<char>) -> Seq<char> {
    if s.len() > 0 && (s[0] == '-' || s[0] == '+') {
        s.skip(1)
    } else {
        s
    }
}

/// The integer that `s` writes: an optional `+` or `-`, then at least one
/// digit and nothing else. `None` for any other text.
pub open spec fn signed_decimal(s: Seq<char>) -> Option<int> {
    let digits = unsigned_part(s);
    if digits.len() == 0 || !all_digits(digits) {
        None
    } else if s[0] == '-' {
        Some(-(digits_value(digits) as int))
    } else {
        Some(digits_value(digits) as int)
    }
}

/// The 32-bit integer that `s` writes, where it writes one that fits.
pub open spec fn decimal_i32(s: Seq<char>) -> Option<i32> {
    match signed_decimal(s) {
        Some(v) => if i32::MIN <= v <= i32::MAX {
            Some(v as i32)
        } else {
            None
        },
        None => None,
    }
}

/// The length of `s` once every trailing `c` is dropped.
pub open spec fn strip_end(s: Seq<char>, c: char, end: int) -> int
    decreases end,
{
    if 0 < end <= s.len() && s[end - 1] == c {
        strip_end(s, c, end - 1)
    } else {
        end
    }
}

/// The percentage that a level string such as `85%` states: the text before
/// its trailing percent signs, read as a 32-bit integer.
pub open spec fn percentage_value(s: Seq<char>) -> Option<i32> {
    decimal_i32(s.take(strip_end(s, '%', s.len() as int)))
}

/// The character that writes the digit `d`.
pub open spec fn digit_char(d: nat) -> char {
    ((0x30 + d) as u8) as char
}

/// The digits that write `n` in base ten, without leading zeros.
pub open spec fn digits_text(n: nat) -> Seq<char>
    decreases n,
{
    if n < 10 {
        seq![digit_char(n)]
    } else {
        digits_text(n / 10).push(digit_char(n % 10))
    }
}

/// The text that writes `n` in base ten, with a `-` in front when negative.
pub open spec fn decimal_text(n: int) -> Seq<char> {
    if n < 0 {
        seq!['-'] + digits_text((-n) as nat)
    } else {
        digits_text(n as nat)
    }
}

/// The display form of a percentage: its decimal text and a percent sign.
pub open spec fn percentage_text(n: int) -> Seq<char> {
    decimal_text(n).push('%')
}

/// Reading more digits never makes the value smaller.
pub proof fn lemma_digits_value_grows(s: Seq<char>, k: int)
    requires
        0 <= k <= s.len(),
    ensures
        digits_value(s.take(k)) <= digits_value(s),
    decreases s.len(),
{
    if k < s.len() {
        assert(s.drop_last().take(k) == s.take(k));
        lemma_digits_value_grows(s.drop_last(), k);
    } else {
        assert(s.take(k) == s);
    }
}

/// Reads a signed decimal integer that fits in 32 bits.
///
/// The whole of `s` has to be the number: an optional sign, then digits.
/// Leading zeros are accepted; white space is not.
pub fn parse_i32(s: &[char]) -> (value: Option<i32>)
    ensures
        value == decimal_i32(s@),
{
    if s.len() == 0 {
        return None;
    }
    let negative = s[0] == '-';
    let start: usize = if negative || s[0] == '+' {
        1
    } else {
        0
    };
    let ghost digits = unsigned_part(s@);
    if start == s.len() {
        return None;
    }
    let mut acc: i64 = 0;
    let mut i: usize = start;
    while i < s.len()
        invariant
            start <= i <= s.len(),
            digits == unsigned_part(s@),
            digits == s@.skip(start as int),
            all_digits(digits.take(i - start)),
            acc == digits_value(digits.take(i - start)),
            0 <= acc <= 0x8000_0000,
        decreases s.len() - i,
    {
        let c = s[i];
        let n: u32 = c as u32;
        if n < 0x30 || n > 0x39 {
            assert(!is_digit(digits[i - start]));
            return None;
        }
        let ghost read = digits.take(i - start + 1);
        assert(read.drop_last() == digits.take(i - start));
        acc = acc * 10 + (n - 0x30) as i64;
        if acc > 0x8000_0000 {
            proof {
                lemma_digits_value_grows(digits, i - start + 1);
            }
            return None;
        }
        i += 1;
    }
    assert(digits.take(i - start) == digits);
    if negative {
        Some((-acc) as i32)
    } else if acc <= 0x7fff_ffff {
        Some(acc as i32)
    } else {
        None
    }
}

/// Reads a level string such as `85%`: trailing percent signs are dropped
/// and what is left has to be a decimal integer.
pub fn parse_percentage(s: &[char]) -> (value: Option<i32>)
    ensures
        value == percentage_value(s@),
{
    let mut end: usize = s.len();
    while end > 0 && s[end - 1] == '%'
        invariant
            end <= s.len(),
            strip_end(s@, '%', s.len() as int) == strip_end(s@, '%', end as int),
        decreases end,
    {
        end -= 1;
    }
    parse_i32(slice_subrange(s, 0, end))
}

/// Appends the decimal digits of `n` to `out`.
fn push_digits(n: u32, out: &mut String)
    ensures
        final(out)@ == old(out)@ + digits_text(n as nat),
    decreases n,
{
    if n >= 10 {
        push_digits(n / 10, out);
    }
    let d: u8 = (n % 10) as u8;
    out.push((0x30 + d) as char);
}

/// Writes a percentage for display: `40` becomes `40%`.
pub fn format_percentage(percentage: i32) -> (s: String)
    ensures
        s@ == percentage_text(percentage as int),
{
    let mut s = String::new();
    let magnitude: u32 = if percentage < 0 {
        s.push('-');
        (-(percentage as i64)) as u32
    } else {
        percentage as u32
    };
    push_digits(magnitude, &mut s);
    s.push('%');
    s
}

} // verus!
