//! Decimal numbers in text: reading an unsigned number and writing one.
use crate::text::{
    chars_of, in_class, lemma_prefix_len, lemma_prefix_len_bounds, prefix_len, string_of, CharClass,
};
use vstd::prelude::*;
use vstd::string::*;

verus! {

/// Why a text is not an unsigned decimal number of the wanted size.
#[derive(Clone, Copy, Debug, PartialEq, Eq)]
pub enum IntErrorKind {
    /// The text is empty.
    Empty,
    /// The text holds something else than digits after an optional `+`, or nothing
    /// but a sign.
    InvalidDigit,
    /// The number is larger than the largest wanted.
    PosOverflow,
}

/// The number that the digit `c` stands for.
pub open spec fn digit_value(c: char) -> nat {
    (c as u32 - '0' as u32) as nat
}

/// The number that the decimal digits `s` write.
pub open spec fn decimal_value(s: Seq<char>) -> nat
    decreases s.len(),
{
    if s.len() == 0 {
        0
    } else {
        decimal_value(s.drop_last()) * 10 + digit_value(s.last())
    }
}

/// `s` without a `+` at its start.
pub open spec fn unsigned_body(s: Seq<char>) -> Seq<char> {
    if s.len() > 0 && s[0] == '+' {
        s.drop_first()
    } else {
        s
    }
}

/// The number that `s` writes, where `s` is an optional `+` and then one or more
/// decimal digits that write a number up to `max`. Else the error: of a digit run that
/// already exceeds `max` the overflow is reported, whatever follows it.
pub open spec fn parse_decimal(s: Seq<char>, max: nat) -> Result<nat, IntErrorKind> {
    let body = unsigned_body(s);
    let digits = body.take(prefix_len(body, CharClass::Digit) as int);
    if s.len() == 0 {
        Err(IntErrorKind::Empty)
    } else if body.len() == 0 {
        Err(IntErrorKind::InvalidDigit)
    } else if decimal_value(digits) > max {
        Err(IntErrorKind::PosOverflow)
    } else if digits.len() < body.len() {
        Err(IntErrorKind::InvalidDigit)
    } else {
        Ok(decimal_value(body))
    }
}

/// The message that goes with an error.
pub open spec fn int_error_text(kind: IntErrorKind) -> Seq<char> {
    match kind {
        IntErrorKind::Empty => "cannot parse integer from empty string"@,
        IntErrorKind::InvalidDigit => "invalid digit found in string"@,
        IntErrorKind::PosOverflow => "number too large to fit in target type"@,
    }
}

/// The decimal digits of `n`, without leading zeros; `0` is written `0`.
pub open spec fn decimal_text(n: nat) -> Seq<char>
    decreases n,
{
    if n < 10 {
        seq![digit_char(n)]
    } else {
        decimal_text(n / 10).push(digit_char(n % 10))
    }
}

/// The digit that stands for `d`, a number from 0 to 9.
pub open spec fn digit_char(d: nat) -> char {
    if d == 0 {
        '0'
    } else if d == 1 {
        '1'
    } else if d == 2 {
        '2'
    } else if d == 3 {
        '3'
    } else if d == 4 {
        '4'
    } else if d == 5 {
        '5'
    } else if d == 6 {
        '6'
    } else if d == 7 {
        '7'
    } else if d == 8 {
        '8'
    } else {
        '9'
    }
}

/// A longer run of digits writes no smaller number.
pub proof fn lemma_decimal_value_grows(s: Seq<char>, a: int, b: int)
    requires
        0 <= a <= b <= s.len(),
    ensures
        decimal_value(s.take(a)) <= decimal_value(s.take(b)),
    decreases b - a,
{
    if a < b {
        lemma_decimal_value_grows(s, a, b - 1);
        assert(s.take(b).drop_last() == s.take(b - 1));
    }
}

/// Reads an unsigned decimal number up to `max`.
pub fn parse_decimal_chars(v: &Vec<char>, max: u32) -> (r: Result<u32, IntErrorKind>)
    ensures
        match parse_decimal(v@, max as nat) {
            Ok(n) => r == Ok::<u32, IntErrorKind>(n as u32) && n <= max,
            Err(e) => r == Err::<u32, IntErrorKind>(e),
        },
{
    if v.len() == 0 {
        return Err(IntErrorKind::Empty);
    }
    let start: usize = if v[0] == '+' {
        1
    } else {
        0
    };
    let ghost body = unsigned_body(v@);
    proof {
        assert(v@.skip(0) == v@);
        assert(body == v@.skip(start as int));
    }
    if start == v.len() {
        return Err(IntErrorKind::InvalidDigit);
    }
    let mut value: u64 = 0;
    let mut i: usize = start;
    while i < v.len()
        invariant
            start <= i <= v@.len(),
            start < v@.len(),
            body == v@.skip(start as int),
            body == unsigned_body(v@),
            forall|j: int| 0 <= j < i - start ==> in_class(#[trigger] body[j], CharClass::Digit),
            value == decimal_value(body.take(i - start)),
            value <= max,
        decreases v@.len() - i,
    {
        let c = v[i];
        assert(body[i - start] == c);
        if !('0' <= c && c <= '9') {
            proof {
                assert(!in_class(c, CharClass::Digit));
                lemma_prefix_len(body, CharClass::Digit, i - start);
            }
            return Err(IntErrorKind::InvalidDigit);
        }
        assert(in_class(c, CharClass::Digit));
        let digit: u64 = (c as u32 - '0' as u32) as u64;
        let next: u64 = value * 10 + digit;
        proof {
            assert(body.take(i - start + 1).drop_last() == body.take(i - start));
            assert(body.take(i - start + 1).last() == c);
            assert(next == decimal_value(body.take(i - start + 1)));
        }
        if next > max as u64 {
            proof {
                lemma_prefix_len_bounds(body, CharClass::Digit);
                let p = prefix_len(body, CharClass::Digit) as int;
                if p < i - start + 1 {
                    assert(in_class(body[p], CharClass::Digit));
                }
                lemma_decimal_value_grows(body, i - start + 1, p);
            }
            return Err(IntErrorKind::PosOverflow);
        }
        value = next;
        i += 1;
    }
    proof {
        lemma_prefix_len(body, CharClass::Digit, body.len() as int);
        assert(body.take(body.len() as int) == body);
    }
    Ok(value as u32)
}

/// Reads a number from 0 to 255.
pub fn parse_u8(s: &str) -> (r: Result<u8, IntErrorKind>)
    ensures
        match parse_decimal(s@, 255) {
            Ok(n) => r == Ok::<u8, IntErrorKind>(n as u8) && n <= 255,
            Err(e) => r == Err::<u8, IntErrorKind>(e),
        },
{
    let v = chars_of(s);
    match parse_decimal_chars(&v, 255) {
        Ok(n) => Ok(n as u8),
        Err(e) => Err(e),
    }
}

/// Reads a number from 0 to 65535.
pub fn parse_u16(s: &str) -> (r: Result<u16, IntErrorKind>)
    ensures
        match parse_decimal(s@, 65535) {
            Ok(n) => r == Ok::<u16, IntErrorKind>(n as u16) && n <= 65535,
            Err(e) => r == Err::<u16, IntErrorKind>(e),
        },
{
    let v = chars_of(s);
    match parse_decimal_chars(&v, 65535) {
        Ok(n) => Ok(n as u16),
        Err(e) => Err(e),
    }
}

/// Reads a number from 0 to 4294967295.
pub fn parse_u32(s: &str) -> (r: Result<u32, IntErrorKind>)
    ensures
        match parse_decimal(s@, u32::MAX as nat) {
            Ok(n) => r == Ok::<u32, IntErrorKind>(n as u32) && n <= u32::MAX,
            Err(e) => r == Err::<u32, IntErrorKind>(e),
        },
{
    let v = chars_of(s);
    parse_decimal_chars(&v, u32::MAX)
}

/// The message that goes with an error.
pub fn int_error_message(kind: IntErrorKind) -> (s: &'static str)
    ensures
        s@ == int_error_text(kind),
{
    match kind {
        IntErrorKind::Empty => "cannot parse integer from empty string",
        IntErrorKind::InvalidDigit => "invalid digit found in string",
        IntErrorKind::PosOverflow => "number too large to fit in target type",
    }
}

fn digit_to_char(d: u32) -> (c: char)
    requires
        d < 10,
    ensures
        c == digit_char(d as nat),
{
    if d == 0 {
        '0'
    } else if d == 1 {
        '1'
    } else if d == 2 {
        '2'
    } else if d == 3 {
        '3'
    } else if d == 4 {
        '4'
    } else if d == 5 {
        '5'
    } else if d == 6 {
        '6'
    } else if d == 7 {
        '7'
    } else if d == 8 {
        '8'
    } else {
        '9'
    }
}

/// Writes `n` in decimal digits.
pub fn u32_to_decimal(n: u32) -> (s: String)
    ensures
        s@ == decimal_text(n as nat),
{
    let mut digits: Vec<char> = Vec::new();
    let mut rest: u32 = n;
    // The digits are found from the last to the first.
    while rest >= 10
        invariant
            decimal_text(n as nat) == decimal_text(rest as nat) + digits@.reverse(),
        decreases rest,
    {
        let ghost before = digits@;
        digits.push(digit_to_char(rest % 10));
        proof {
            let d = digit_char((rest % 10) as nat);
            assert(digits@.reverse() == seq![d] + before.reverse());
            assert(decimal_text(rest as nat) == decimal_text((rest / 10) as nat).push(d));
            assert(decimal_text((rest / 10) as nat).push(d) + before.reverse() == decimal_text(
                (rest / 10) as nat,
            ) + (seq![d] + before.reverse()));
        }
        rest = rest / 10;
    }
    let ghost before = digits@;
    digits.push(digit_to_char(rest));
    proof {
        let d = digit_char(rest as nat);
        assert(digits@.reverse() == seq![d] + before.reverse());
        assert(decimal_text(rest as nat) == seq![d]);
    }
    let mut out: Vec<char> = Vec::new();
    let mut i: usize = digits.len();
    while i > 0
        invariant
            0 <= i <= digits@.len(),
            out@ == digits@.reverse().take(digits@.len() - i),
        decreases i,
    {
        i -= 1;
        out.push(digits[i]);
        proof {
            let r = digits@.reverse();
            assert(r.take(digits@.len() - i) == r.take(digits@.len() - i - 1).push(
                r[digits@.len() - i - 1],
            ));
        }
    }
    proof {
        assert(digits@.reverse().take(digits@.len() as int) == digits@.reverse());
    }
    string_of(&out)
}

} // verus!
