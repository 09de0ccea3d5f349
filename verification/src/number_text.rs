//! The text of a floating-point number, as the coordinates of a client are
//! written.
//!
//! A number is an optional sign followed by decimal digits with at most one
//! point among them, at least one digit in all, and an optional exponent: `e`
//! or `E`, an optional sign, and at least one digit. The words `inf`,
//! `infinity` and `nan`, in any case and with an optional sign, are numbers
//! too. Only the form is judged here; the value is for the reader to compute.

use crate::delay_header::all_digits;
use crate::delay_header::is_digit;
use crate::delay_header::DIGIT_NINE;
use crate::delay_header::DIGIT_ZERO;
use crate::delay_header::PLUS_SIGN;
use vstd::prelude::*;
use vstd::slice::slice_subrange;

verus! {

/// ASCII `-`.
pub const MINUS_SIGN: u8 = 0x2d;

/// ASCII `.`.
pub const POINT: u8 = 0x2e;

/// ASCII `A`.
pub const UPPER_A: u8 = 0x41;

/// ASCII `Z`.
pub const UPPER_Z: u8 = 0x5a;

/// The distance from an upper-case ASCII letter to its lower-case form.
pub const CASE_OFFSET: u8 = 0x20;

/// ASCII `a`.
pub const LOWER_A: u8 = 0x61;

/// ASCII `e`.
pub const LOWER_E: u8 = 0x65;

/// ASCII `f`.
pub const LOWER_F: u8 = 0x66;

/// ASCII `i`.
pub const LOWER_I: u8 = 0x69;

/// ASCII `n`.
pub const LOWER_N: u8 = 0x6e;

/// ASCII `t`.
pub const LOWER_T: u8 = 0x74;

/// ASCII `y`.
pub const LOWER_Y: u8 = 0x79;

/// Whether `b` is `+` or `-`.
pub open spec fn is_sign(b: u8) -> bool {
    b == PLUS_SIGN || b == MINUS_SIGN
}

/// `b` with an upper-case ASCII letter turned into lower case.
pub open spec fn spec_lower_case(b: u8) -> u8 {
    if UPPER_A <= b <= UPPER_Z {
        (b + CASE_OFFSET) as u8
    } else {
        b
    }
}

/// Whether `s` spells `word`, which is in lower case, in any case.
pub open spec fn spells(s: Seq<u8>, word: Seq<u8>) -> bool {
    &&& s.len() == word.len()
    &&& forall|i: int| 0 <= i < s.len() ==> spec_lower_case(#[trigger] s[i]) == word[i]
}

/// The word `inf`.
pub open spec fn word_inf() -> Seq<u8> {
    seq![LOWER_I, LOWER_N, LOWER_F]
}

/// The word `infinity`.
pub open spec fn word_infinity() -> Seq<u8> {
    seq![LOWER_I, LOWER_N, LOWER_F, LOWER_I, LOWER_N, LOWER_I, LOWER_T, LOWER_Y]
}

/// The word `nan`.
pub open spec fn word_nan() -> Seq<u8> {
    seq![LOWER_N, LOWER_A, LOWER_N]
}

/// Whether `s` is one of the words that stand for a number that is not
/// finite.
pub open spec fn spec_is_special_word(s: Seq<u8>) -> bool {
    spells(s, word_inf()) || spells(s, word_infinity()) || spells(s, word_nan())
}

/// How many decimal digits `s` begins with.
pub open spec fn leading_digits(s: Seq<u8>) -> nat
    decreases s.len(),
{
    if s.len() > 0 && is_digit(s.first()) {
        1 + leading_digits(s.drop_first())
    } else {
        0
    }
}

/// `s` without its first byte where that is a sign.
pub open spec fn after_sign(s: Seq<u8>) -> Seq<u8> {
    if s.len() > 0 && is_sign(s.first()) {
        s.drop_first()
    } else {
        s
    }
}

/// Whether `s` is what follows the exponent mark: an optional sign and at
/// least one digit.
pub open spec fn spec_is_exponent(s: Seq<u8>) -> bool {
    after_sign(s).len() > 0 && all_digits(after_sign(s))
}

/// Whether `s` is a number without sign: digits with at most one point among
/// them, at least one digit in all, and an optional exponent.
pub open spec fn spec_is_unsigned_number(s: Seq<u8>) -> bool {
    let whole = leading_digits(s);
    let after_whole = s.skip(whole as int);
    let has_point = after_whole.len() > 0 && after_whole.first() == POINT;
    let fraction = if has_point {
        leading_digits(after_whole.drop_first())
    } else {
        0
    };
    let tail = if has_point {
        after_whole.drop_first().skip(fraction as int)
    } else {
        after_whole
    };
    &&& whole + fraction > 0
    &&& tail.len() == 0 || (spec_lower_case(tail.first()) == LOWER_E && spec_is_exponent(
        tail.drop_first(),
    ))
}

/// Whether `s` is the text of a floating-point number.
pub open spec fn spec_is_number_text(s: Seq<u8>) -> bool {
    spec_is_unsigned_number(after_sign(s)) || spec_is_special_word(after_sign(s))
}

/// Where the first `k` bytes of `s` are digits and the next one is not, `s`
/// begins with exactly `k` digits.
pub proof fn lemma_leading_digits_at(s: Seq<u8>, k: int)
    requires
        0 <= k <= s.len(),
        forall|i: int| 0 <= i < k ==> is_digit(#[trigger] s[i]),
        k == s.len() || !is_digit(s[k]),
    ensures
        leading_digits(s) == k,
    decreases k,
{
    if k > 0 {
        let rest = s.drop_first();
        assert(is_digit(s[0]));
        assert forall|i: int| 0 <= i < k - 1 implies is_digit(#[trigger] rest[i]) by {
            assert(rest[i] == s[i + 1]);
        }
        lemma_leading_digits_at(rest, k - 1);
    }
}

/// The digits that `s` begins with are digits, and they end where `s` ends or
/// at a byte that is no digit.
pub proof fn lemma_leading_digits_bounds(s: Seq<u8>)
    ensures
        leading_digits(s) <= s.len(),
        all_digits(s.take(leading_digits(s) as int)),
        leading_digits(s) < s.len() ==> !is_digit(s[leading_digits(s) as int]),
    decreases s.len(),
{
    if s.len() > 0 && is_digit(s.first()) {
        let rest = s.drop_first();
        lemma_leading_digits_bounds(rest);
        let k = leading_digits(s) as int;
        assert forall|i: int| 0 <= i < k implies is_digit(#[trigger] s.take(k)[i]) by {
            if i > 0 {
                assert(s.take(k)[i] == rest.take(k - 1)[i - 1]);
            }
        }
        if k < s.len() {
            assert(s[k] == rest[k - 1]);
        }
    }
}

/// `b` with an upper-case ASCII letter turned into lower case.
pub fn lower_case(b: u8) -> (r: u8)
    ensures
        r == spec_lower_case(b),
{
    if UPPER_A <= b && b <= UPPER_Z {
        b + CASE_OFFSET
    } else {
        b
    }
}

/// Whether `s` is `inf`, `infinity` or `nan`, in any case.
pub fn is_special_word(s: &[u8]) -> (r: bool)
    ensures
        r == spec_is_special_word(s@),
{
    let n: usize = s.len();
    if n == 3 {
        let a: u8 = lower_case(s[0]);
        let b: u8 = lower_case(s[1]);
        let c: u8 = lower_case(s[2]);
        (a == LOWER_I && b == LOWER_N && c == LOWER_F) || (a == LOWER_N && b == LOWER_A && c
            == LOWER_N)
    } else if n == 8 {
        lower_case(s[0]) == LOWER_I && lower_case(s[1]) == LOWER_N && lower_case(s[2]) == LOWER_F
            && lower_case(s[3]) == LOWER_I && lower_case(s[4]) == LOWER_N && lower_case(s[5])
            == LOWER_I && lower_case(s[6]) == LOWER_T && lower_case(s[7]) == LOWER_Y
    } else {
        false
    }
}

/// The place behind the digits that stand in `s` from `from` on.
fn skip_digits(s: &[u8], from: usize) -> (end: usize)
    requires
        from <= s.len(),
    ensures
        from <= end <= s.len(),
        end - from == leading_digits(s@.skip(from as int)),
{
    let n: usize = s.len();
    let mut end: usize = from;
    while end < n && DIGIT_ZERO <= s[end] && s[end] <= DIGIT_NINE
        invariant
            from <= end <= n,
            n == s.len(),
            forall|i: int| from <= i < end ==> is_digit(#[trigger] s@[i]),
        decreases n - end,
    {
        end += 1;
    }
    proof {
        let rest = s@.skip(from as int);
        assert forall|i: int| 0 <= i < end - from implies is_digit(#[trigger] rest[i]) by {
            assert(rest[i] == s@[from + i]);
        }
        lemma_leading_digits_at(rest, end - from);
    }
    end
}

/// Whether `s` is what follows the exponent mark: an optional sign and at
/// least one digit.
pub fn is_exponent(s: &[u8]) -> (r: bool)
    ensures
        r == spec_is_exponent(s@),
{
    let n: usize = s.len();
    let start: usize = if n > 0 && (s[0] == PLUS_SIGN || s[0] == MINUS_SIGN) {
        1
    } else {
        0
    };
    let end: usize = skip_digits(s, start);
    proof {
        let digits = s@.skip(start as int);
        assert(digits =~= after_sign(s@));
        lemma_leading_digits_bounds(digits);
        if end == n {
            assert(digits.take(digits.len() as int) =~= digits);
        } else {
            assert(!is_digit(digits[end - start]));
        }
    }
    start < n && end == n
}

/// Whether `s` is a number without sign.
pub fn is_unsigned_number(s: &[u8]) -> (r: bool)
    ensures
        r == spec_is_unsigned_number(s@),
{
    let n: usize = s.len();
    let whole_end: usize = skip_digits(s, 0);
    assert(s@.skip(0) =~= s@);
    let ghost after_whole = s@.skip(whole_end as int);
    let has_point: bool = whole_end < n && s[whole_end] == POINT;
    let tail_start: usize = if has_point {
        let fraction_end: usize = skip_digits(s, whole_end + 1);
        assert(s@.skip(whole_end + 1) =~= after_whole.drop_first());
        assert(s@.skip(fraction_end as int) =~= after_whole.drop_first().skip(
            fraction_end - (whole_end + 1),
        ));
        fraction_end
    } else {
        whole_end
    };
    let digits: usize = if has_point {
        tail_start - 1
    } else {
        tail_start
    };
    if digits == 0 {
        return false;
    }
    if tail_start == n {
        return true;
    }
    let mark: u8 = s[tail_start];
    if lower_case(mark) != LOWER_E {
        return false;
    }
    let exponent = slice_subrange(s, tail_start + 1, n);
    assert(exponent@ =~= s@.skip(tail_start as int).drop_first());
    is_exponent(exponent)
}

/// Whether `s` is the text of a floating-point number.
pub fn is_number_text(s: &[u8]) -> (r: bool)
    ensures
        r == spec_is_number_text(s@),
{
    let n: usize = s.len();
    let start: usize = if n > 0 && (s[0] == PLUS_SIGN || s[0] == MINUS_SIGN) {
        1
    } else {
        0
    };
    let body = slice_subrange(s, start, n);
    assert(body@ =~= after_sign(s@));
    is_unsigned_number(body) || is_special_word(body)
}

} // verus!
