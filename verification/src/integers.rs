//! Integers written as text.

use crate::text::chars_of;
use vstd::prelude::*;

verus! {

/// A decimal digit.
pub open spec fn is_digit(c: char) -> bool {
    '0' <= c <= '9'
}

/// One or more digits and nothing else.
pub open spec fn all_digits(s: Seq<char>) -> bool {
    s.len() > 0 && forall|i: int| 0 <= i < s.len() ==> is_digit(#[trigger] s[i])
}

/// The number that digits write.
pub open spec fn digits_value(s: Seq<char>) -> int
    decreases s.len(),
{
    if s.len() == 0 {
        0
    } else {
        10 * digits_value(s.drop_last()) + (s.last() as int - '0' as int)
    }
}

/// The integer that a text writes: digits behind an optional `+`, or behind a `-` where
/// signed numbers are meant.
pub open spec fn written(s: Seq<char>, signed: bool) -> Option<int> {
    if all_digits(s) {
        Some(digits_value(s))
    } else if s.len() > 0 && s[0] == '+' && all_digits(s.skip(1)) {
        Some(digits_value(s.skip(1)))
    } else if signed && s.len() > 0 && s[0] == '-' && all_digits(s.skip(1)) {
        Some(-digits_value(s.skip(1)))
    } else {
        None
    }
}

/// The integer that a text writes, where it lies between the bounds.
pub open spec fn written_within(s: Seq<char>, signed: bool, low: int, high: int) -> Option<int> {
    match written(s, signed) {
        Some(n) if low <= n <= high => Some(n),
        _ => None,
    }
}

/// The message of std's error for a text that writes no `i32`.
pub uninterp spec fn i32_failure(s: Seq<char>) -> Seq<char>;

/// `str::parse::<i32>` of std: reads digits behind an optional sign that write a number of the
/// type, and fails on any other text. The message of the error is not spelled out.
#[verifier::external_body]
pub(crate) fn parse_i32(s: &str) -> (r: Result<i32, String>)
    ensures
        r is Ok <==> written_within(s@, true, i32::MIN as int, i32::MAX as int) is Some,
        r matches Ok(n) ==> written_within(s@, true, i32::MIN as int, i32::MAX as int) == Some(
            n as int,
        ),
        r matches Err(m) ==> m@ == i32_failure(s@),
{
    s.parse::<i32>().map_err(|e| e.to_string())
}

/// The message of std's error for a text that writes no `u16`.
pub uninterp spec fn u16_failure(s: Seq<char>) -> Seq<char>;

/// `str::parse::<u16>` of std: reads digits behind an optional `+` that write a number of the
/// type, and fails on any other text. The message of the error is not spelled out.
#[verifier::external_body]
pub(crate) fn parse_u16(s: &str) -> (r: Result<u16, String>)
    ensures
        r is Ok <==> written_within(s@, false, 0, u16::MAX as int) is Some,
        r matches Ok(n) ==> written_within(s@, false, 0, u16::MAX as int) == Some(n as int),
        r matches Err(m) ==> m@ == u16_failure(s@),
{
    s.parse::<u16>().map_err(|e| e.to_string())
}

/// The unsigned integer that a text writes, where it fits.
pub fn parse_u64(s: &str) -> (r: Option<u64>)
    ensures
        r is Some <==> written_within(s@, false, 0, u64::MAX as int) is Some,
        r matches Some(n) ==> written_within(s@, false, 0, u64::MAX as int) == Some(n as int),
{
    let v = chars_of(s);
    let plus = v.len() > 0 && v[0] == '+';
    let from: usize = if plus { 1 } else { 0 };
    if from == v.len() {
        return None;
    }
    let ghost digits = v@.skip(from as int);
    proof {
        if !plus {
            assert(digits =~= v@);
        } else {
            assert(!all_digits(v@)) by {
                if all_digits(v@) {
                    assert(is_digit(v@[0]));
                }
            }
        }
    }
    let mut total: u64 = 0;
    let mut i: usize = from;
    let mut fits = true;
    assert(digits.take(0) =~= Seq::<char>::empty());
    while i < v.len()
        invariant
            from <= i <= v@.len(),
            v@ == s@,
            plus == (v@.len() > 0 && v@[0] == '+'),
            from == (if plus { 1int } else { 0int }),
            digits == v@.skip(from as int),
            forall|j: int| 0 <= j < i - from ==> is_digit(#[trigger] digits[j]),
            fits ==> total == digits_value(digits.take(i - from)),
            !fits ==> digits_value(digits.take(i - from)) > u64::MAX,
        decreases v@.len() - i,
    {
        let c = v[i];
        if !('0' <= c && c <= '9') {
            proof {
                assert(digits[i - from] == c);
                assert(!is_digit(digits[i - from]));
                if plus {
                    assert(v@.skip(1)[i - from] == c);
                    assert(!is_digit(v@[0]));
                } else {
                    assert(v@[i as int] == c);
                }
            }
            return None;
        }
        proof {
            let next = digits.take(i - from + 1);
            assert(next.drop_last() =~= digits.take(i - from));
            assert(next.last() == c);
            assert(digits[i - from] == c);
        }
        let d: u64 = (c as u32 - '0' as u32) as u64;
        if fits {
            if total > (u64::MAX - d) / 10 {
                fits = false;
            } else {
                total = total * 10 + d;
            }
        }
        i = i + 1;
    }
    proof {
        assert(digits.take(digits.len() as int) =~= digits);
    }
    if fits {
        Some(total)
    } else {
        None
    }
}

} // verus!
