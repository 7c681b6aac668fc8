//! Signed decimal numbers as text.

use vstd::prelude::*;

verus! {

/// The ten decimal digits.
pub open spec fn is_digit(c: char) -> bool {
    0x30 <= c as u32 <= 0x39
}

/// The digit for a value below ten.
pub open spec fn digit_char(d: int) -> char {
    ((0x30 + d) as u8) as char
}

/// The value of a digit.
pub open spec fn digit_value(c: char) -> int {
    c as u32 - 0x30
}

/// The number that a run of digits denotes; leading zeros do not count.
pub open spec fn digits_value(digits: Seq<char>) -> int
    decreases digits.len(),
{
    if digits.len() == 0 {
        0
    } else {
        digits_value(digits.drop_last()) * 10 + digit_value(digits.last())
    }
}

/// `s` consists of digits only.
pub open spec fn all_digits(s: Seq<char>) -> bool {
    forall|i: int| 0 <= i < s.len() ==> is_digit(#[trigger] s[i])
}

/// What follows the sign of `s`, if it has one.
pub open spec fn unsigned_part(s: Seq<char>) -> Seq<char> {
    if s.len() > 0 && (s[0] == '-' || s[0] == '+') {
        s.skip(1)
    } else {
        s
    }
}

/// The number that `s` denotes as a signed 64-bit integer: an optional `+` or `-`,
/// then one digit or more and nothing else, with a value in the range of the type.
pub open spec fn parsed_i64(s: Seq<char>) -> Option<int> {
    let digits = unsigned_part(s);
    let value = if s.len() > 0 && s[0] == '-' {
        -digits_value(digits)
    } else {
        digits_value(digits)
    };
    if digits.len() > 0 && all_digits(digits) && i64::MIN <= value <= i64::MAX {
        Some(value)
    } else {
        None
    }
}

/// A run of digits denotes no less than any run it begins with.
proof fn lemma_digits_value_grows(digits: Seq<char>, n: int)
    requires
        all_digits(digits),
        0 <= n <= digits.len(),
    ensures
        0 <= digits_value(digits.take(n)) <= digits_value(digits),
    decreases digits.len() - n,
{
    if n == digits.len() {
        assert(digits.take(n) == digits);
        lemma_digits_value_nonnegative(digits);
    } else {
        let longer = digits.take(n + 1);
        assert(longer.drop_last() == digits.take(n));
        assert(longer.last() == digits[n]);
        lemma_digits_value_nonnegative(digits.take(n));
        lemma_digits_value_grows(digits, n + 1);
    }
}

proof fn lemma_digits_value_nonnegative(digits: Seq<char>)
    requires
        all_digits(digits),
    ensures
        0 <= digits_value(digits),
    decreases digits.len(),
{
    if digits.len() > 0 {
        lemma_digits_value_nonnegative(digits.drop_last());
    }
}

/// Reads a signed 64-bit integer.
pub fn parse_i64(s: &Vec<char>) -> (number: Option<i64>)
    ensures
        match number {
            Some(n) => parsed_i64(s@) == Some(n as int),
            None => parsed_i64(s@) is None,
        },
{
    let negative = s.len() > 0 && s[0] == '-';
    let start: usize = if s.len() > 0 && (s[0] == '-' || s[0] == '+') {
        1
    } else {
        0
    };
    if start == s.len() {
        return None;
    }
    let ghost digits = unsigned_part(s@);
    let limit: u64 = if negative {
        0x8000_0000_0000_0000
    } else {
        0x7FFF_FFFF_FFFF_FFFF
    };
    let mut value: u64 = 0;
    let mut i: usize = start;
    while i < s.len()
        invariant
            start <= i <= s.len(),
            digits == s@.skip(start as int),
            digits == unsigned_part(s@),
            negative == (s@.len() > 0 && s@[0] == '-'),
            limit == if negative {
                0x8000_0000_0000_0000u64
            } else {
                0x7FFF_FFFF_FFFF_FFFFu64
            },
            all_digits(digits.take(i - start)),
            value == digits_value(digits.take(i - start)),
            value <= limit,
            0x7FFF_FFFF_FFFF_FFFF <= limit <= 0x8000_0000_0000_0000,
        decreases s.len() - i,
    {
        let c = s[i];
        let u: u32 = c as u32;
        assert(digits[i - start] == c);
        if u < 0x30 || u > 0x39 {
            assert(!is_digit(digits[i - start]));
            assert(!all_digits(digits));
            return None;
        }
        let d: u64 = (u - 0x30) as u64;
        proof {
            let longer = digits.take(i - start + 1);
            assert(longer.drop_last() == digits.take(i - start));
            assert(longer.last() == c);
            assert(all_digits(longer)) by {
                assert forall|j: int| 0 <= j < longer.len() implies is_digit(
                    #[trigger] longer[j],
                ) by {
                    if j < longer.len() - 1 {
                        assert(longer[j] == digits.take(i - start)[j]);
                    }
                }
            }
        }
        if value > (limit - d) / 10 {
            proof {
                if all_digits(digits) {
                    lemma_digits_value_grows(digits, i - start + 1);
                }
            }
            return None;
        }
        value = value * 10 + d;
        i += 1;
    }
    assert(digits.take(i - start) == digits);
    if negative {
        if value == 0x8000_0000_0000_0000 {
            Some(i64::MIN)
        } else {
            Some(-(value as i64))
        }
    } else {
        Some(value as i64)
    }
}

/// The digits of a natural number, without leading zeros.
pub open spec fn digits_of(n: nat) -> Seq<char>
    decreases n,
{
    if n < 10 {
        seq![digit_char(n as int)]
    } else {
        digits_of(n / 10).push(digit_char((n % 10) as int))
    }
}

/// The decimal text of an integer: a `-` where it is negative, then its digits.
pub open spec fn decimal(n: int) -> Seq<char> {
    if n < 0 {
        seq!['-'] + digits_of((-n) as nat)
    } else {
        digits_of(n as nat)
    }
}

/// The digit for `d`.
fn digit(d: u64) -> (c: char)
    requires
        d < 10,
    ensures
        c == digit_char(d as int),
{
    (0x30u8 + d as u8) as char
}

/// Writes a signed 64-bit integer in decimal.
pub fn format_i64(n: i64) -> (text: Vec<char>)
    ensures
        text@ == decimal(n as int),
{
    let magnitude: u64 = if n < 0 {
        (-(n as i128)) as u64
    } else {
        n as u64
    };
    let mut rest: u64 = magnitude;
    let mut low_first: Vec<char> = Vec::new();
    assert(digits_of(rest as nat) + low_first@.reverse() =~= digits_of(magnitude as nat));
    while rest >= 10
        invariant
            digits_of(rest as nat) + low_first@.reverse() == digits_of(magnitude as nat),
        decreases rest,
    {
        let ghost before = low_first@;
        let c = digit(rest % 10);
        low_first.push(c);
        assert(low_first@.reverse() =~= seq![c] + before.reverse());
        assert(digits_of((rest / 10) as nat).push(c) + before.reverse() =~= digits_of(
            (rest / 10) as nat,
        ) + (seq![c] + before.reverse()));
        rest = rest / 10;
    }
    let ghost before = low_first@;
    let c = digit(rest);
    low_first.push(c);
    assert(low_first@.reverse() =~= seq![c] + before.reverse());
    assert(low_first@.reverse() == digits_of(magnitude as nat));
    let mut text: Vec<char> = Vec::new();
    if n < 0 {
        text.push('-');
    }
    let ghost sign = text@;
    let mut i: usize = low_first.len();
    while i > 0
        invariant
            i <= low_first.len(),
            text@ == sign + low_first@.reverse().take(low_first.len() - i),
        decreases i,
    {
        i -= 1;
        text.push(low_first[i]);
        assert(text@ =~= sign + low_first@.reverse().take(low_first.len() - i));
    }
    assert(low_first@.reverse().take(low_first.len() as int) == low_first@.reverse());
    text
}

} // verus!
