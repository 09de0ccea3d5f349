//! The `X-Request-Delay` header: an explicit delay in milliseconds.
//!
//! The value is an optional `+` followed by one or more decimal digits, with
//! nothing before or after, and must fit in 64 bits.

use vstd::prelude::*;

verus! {

/// Nanoseconds in one millisecond.
pub const NANOS_PER_MILLI: u64 = 1_000_000;

/// ASCII `0`.
pub const DIGIT_ZERO: u8 = 0x30;

/// ASCII `9`.
pub const DIGIT_NINE: u8 = 0x39;

/// ASCII `+`.
pub const PLUS_SIGN: u8 = 0x2b;

/// Whether `b` is an ASCII decimal digit.
pub open spec fn is_digit(b: u8) -> bool {
    DIGIT_ZERO <= b <= DIGIT_NINE
}

/// The number a digit stands for; zero for any other byte.
pub open spec fn digit_value(b: u8) -> nat {
    if is_digit(b) {
        (b - DIGIT_ZERO) as nat
    } else {
        0
    }
}

/// Whether every byte of `s` is a decimal digit.
pub open spec fn all_digits(s: Seq<u8>) -> bool {
    forall|i: int| 0 <= i < s.len() ==> is_digit(#[trigger] s[i])
}

/// The number that the digits of `s` write in base ten.
pub open spec fn decimal_value(s: Seq<u8>) -> nat
    decreases s.len(),
{
    if s.len() == 0 {
        0
    } else {
        decimal_value(s.drop_last()) * 10 + digit_value(s.last())
    }
}

/// `s` without its leading `+`, if it has one.
pub open spec fn without_sign(s: Seq<u8>) -> Seq<u8> {
    if s.len() > 0 && s[0] == PLUS_SIGN {
        s.subrange(1, s.len() as int)
    } else {
        s
    }
}

/// The milliseconds that a header value states, if it states any.
pub open spec fn spec_parse_delay_ms(s: Seq<u8>) -> Option<u64> {
    let digits = without_sign(s);
    if digits.len() > 0 && all_digits(digits) && decimal_value(digits) <= u64::MAX {
        Some(decimal_value(digits) as u64)
    } else {
        None
    }
}

/// The nanoseconds in `ms` milliseconds, held at `u64::MAX` where the exact
/// number does not fit.
pub open spec fn spec_millis_to_nanos(ms: u64) -> u64 {
    if ms * NANOS_PER_MILLI > u64::MAX {
        u64::MAX
    } else {
        (ms * NANOS_PER_MILLI) as u64
    }
}

/// The total delay in nanoseconds that a header value asks for.
pub open spec fn spec_override_delay_ns(s: Seq<u8>) -> Option<u64> {
    match spec_parse_delay_ms(s) {
        Some(ms) => Some(spec_millis_to_nanos(ms)),
        None => None,
    }
}

/// Appending one byte to a digit string multiplies its value by ten and adds
/// the new digit.
pub proof fn lemma_decimal_value_push(s: Seq<u8>, b: u8)
    ensures
        decimal_value(s.push(b)) == decimal_value(s) * 10 + digit_value(b),
{
    assert(s.push(b).drop_last() =~= s);
}

/// A digit string is worth at least as much as each of its prefixes.
pub proof fn lemma_decimal_value_prefix(s: Seq<u8>, k: int)
    requires
        0 <= k <= s.len(),
    ensures
        decimal_value(s.subrange(0, k)) <= decimal_value(s),
    decreases s.len() - k,
{
    if k == s.len() {
        assert(s.subrange(0, k) =~= s);
    } else {
        lemma_decimal_value_prefix(s, k + 1);
        assert(s.subrange(0, k + 1) =~= s.subrange(0, k).push(s[k]));
        lemma_decimal_value_push(s.subrange(0, k), s[k]);
    }
}

/// Reads the milliseconds out of the header's value.
pub fn parse_delay_ms(value: &[u8]) -> (r: Option<u64>)
    ensures
        r == spec_parse_delay_ms(value@),
{
    let n: usize = value.len();
    if n == 0 {
        return None;
    }
    let start: usize = if value[0] == PLUS_SIGN {
        1
    } else {
        0
    };
    if start == n {
        return None;
    }
    let ghost digits = value@.subrange(start as int, n as int);
    assert(digits =~= without_sign(value@));
    let mut acc: u64 = 0;
    let mut i: usize = start;
    assert(digits.subrange(0, 0) =~= Seq::<u8>::empty());
    while i < n
        invariant
            start <= i <= n,
            n == value.len(),
            digits == value@.subrange(start as int, n as int),
            digits == without_sign(value@),
            all_digits(digits.subrange(0, i - start)),
            acc == decimal_value(digits.subrange(0, i - start)),
        decreases n - i,
    {
        let b: u8 = value[i];
        let ghost seen = digits.subrange(0, i - start);
        proof {
            assert(digits[i - start] == b);
            assert(digits.subrange(0, i - start + 1) =~= seen.push(b));
            lemma_decimal_value_push(seen, b);
            lemma_decimal_value_prefix(digits, i - start + 1);
        }
        if b < DIGIT_ZERO || b > DIGIT_NINE {
            return None;
        }
        let d: u64 = (b - DIGIT_ZERO) as u64;
        let shifted: u64 = match acc.checked_mul(10) {
            Some(m) => m,
            None => {
                return None;
            },
        };
        acc = match shifted.checked_add(d) {
            Some(a) => a,
            None => {
                return None;
            },
        };
        i += 1;
    }
    assert(digits.subrange(0, n - start) =~= digits);
    Some(acc)
}

/// Converts milliseconds to nanoseconds, saturating at `u64::MAX`.
pub fn millis_to_nanos(ms: u64) -> (ns: u64)
    ensures
        ns == spec_millis_to_nanos(ms),
{
    match ms.checked_mul(NANOS_PER_MILLI) {
        Some(ns) => ns,
        None => u64::MAX,
    }
}

/// The total delay in nanoseconds that the header's value asks for, or `None`
/// where the value is not a number of milliseconds.
pub fn override_delay_ns(value: &[u8]) -> (r: Option<u64>)
    ensures
        r == spec_override_delay_ns(value@),
{
    match parse_delay_ms(value) {
        Some(ms) => Some(millis_to_nanos(ms)),
        None => None,
    }
}

} // verus!
