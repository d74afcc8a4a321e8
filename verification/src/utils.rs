//! Reading a signed decimal integer from text.

use vstd::prelude::*;
use vstd::string::*;

verus! {

/// Why a text is no 64-bit signed decimal integer.
#[derive(Debug, Clone, Copy, PartialEq, Eq, Structural)]
pub enum IntegerTextError {
    /// The text is empty.
    Empty,
    /// Something other than an optional sign followed by one or more digits.
    InvalidDigit,
    /// A well-formed number that an `i64` cannot hold.
    OutOfRange,
}

pub open spec fn is_digit(c: char) -> bool {
    '0' <= c && c <= '9'
}

pub open spec fn digit_value(c: char) -> int {
    c as int - '0' as int
}

pub open spec fn all_digits(s: Seq<char>) -> bool {
    forall|i: int| 0 <= i < s.len() ==> is_digit(#[trigger] s[i])
}

/// The number that a run of decimal digits denotes, most significant first.
pub open spec fn digits_value(s: Seq<char>) -> int
    decreases s.len(),
{
    if s.len() == 0 {
        0
    } else {
        digits_value(s.drop_last()) * 10 + digit_value(s.last())
    }
}

pub open spec fn has_sign(s: Seq<char>) -> bool {
    s.len() > 0 && (s[0] == '-' || s[0] == '+')
}

/// The digits of `s`: what follows its sign, if it has one.
pub open spec fn magnitude_text(s: Seq<char>) -> Seq<char> {
    if has_sign(s) {
        s.subrange(1, s.len() as int)
    } else {
        s
    }
}

/// `s` is an optional `+` or `-` followed by at least one decimal digit.
pub open spec fn well_formed_integer(s: Seq<char>) -> bool {
    magnitude_text(s).len() > 0 && all_digits(magnitude_text(s))
}

/// The integer that a well-formed `s` denotes.
pub open spec fn integer_value(s: Seq<char>) -> int {
    if s.len() > 0 && s[0] == '-' {
        -digits_value(magnitude_text(s))
    } else {
        digits_value(magnitude_text(s))
    }
}

/// What reading `s` as an `i64` gives.
pub open spec fn parse_i64(s: Seq<char>) -> Result<i64, IntegerTextError> {
    if s.len() == 0 {
        Err(IntegerTextError::Empty)
    } else if !well_formed_integer(s) {
        Err(IntegerTextError::InvalidDigit)
    } else if i64::MIN <= integer_value(s) <= i64::MAX {
        Ok(integer_value(s) as i64)
    } else {
        Err(IntegerTextError::OutOfRange)
    }
}

/// Reads an optionally signed decimal integer, as `str::parse::<i64>` does:
/// no blanks, no separators, at least one digit, and a value in range.
pub fn i64_from_string(s: &str) -> (r: Result<i64, IntegerTextError>)
    ensures
        r == parse_i64(s@),
{
    let n: usize = s.unicode_len();
    if n == 0 {
        return Err(IntegerTextError::Empty);
    }
    let first: char = s.get_char(0);
    let negative: bool = first == '-';
    let start: usize = if first == '-' || first == '+' { 1 } else { 0 };
    if start == n {
        return Err(IntegerTextError::InvalidDigit);
    }
    let ghost body = magnitude_text(s@);
    assert(body.len() == n - start);
    assert(forall|j: int| 0 <= j < body.len() ==> body[j] == s@[j + start]);
    let limit: u64 = 9223372036854775808;
    let mut acc: u64 = 0;
    let mut too_big: bool = false;
    let mut i: usize = start;
    while i < n
        invariant
            start <= i <= n,
            n == s@.len(),
            body == magnitude_text(s@),
            body.len() == n - start,
            forall|j: int| 0 <= j < body.len() ==> body[j] == s@[j + start],
            all_digits(body.take(i - start)),
            limit == 9223372036854775808,
            !too_big ==> acc == digits_value(body.take(i - start)) && acc <= limit,
            too_big ==> digits_value(body.take(i - start)) > limit,
        decreases n - i,
    {
        let c: char = s.get_char(i);
        if c < '0' || c > '9' {
            proof {
                assert(body[i - start] == c);
                assert(!is_digit(body[i - start]));
            }
            return Err(IntegerTextError::InvalidDigit);
        }
        let d: u64 = (c as u64) - ('0' as u64);
        proof {
            let next = body.take(i - start + 1);
            assert(next.drop_last() =~= body.take(i - start));
            assert(next.last() == c);
            assert(digit_value(c) == d);
            assert forall|j: int| 0 <= j < next.len() implies is_digit(#[trigger] next[j]) by {
                if j < i - start {
                    assert(body.take(i - start)[j] == next[j]);
                }
            }
        }
        if !too_big {
            if acc > (limit - d) / 10 {
                too_big = true;
            } else {
                acc = acc * 10 + d;
            }
        }
        i = i + 1;
    }
    proof {
        assert(body.take(n - start) =~= body);
    }
    if too_big {
        Err(IntegerTextError::OutOfRange)
    } else if negative {
        if acc == limit {
            Ok(i64::MIN)
        } else {
            Ok(-(acc as i64))
        }
    } else if acc == limit {
        Err(IntegerTextError::OutOfRange)
    } else {
        Ok(acc as i64)
    }
}

} // verus!
