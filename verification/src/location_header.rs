//! The `X-Client-Location` header: the client's coordinates as
//! `<latitude>;<longitude>`.
//!
//! The value must be visible ASCII with exactly one `;`, and each side,
//! stripped of the blanks around it, must be the text of a floating-point
//! number. The two numbers are handed out as text: their values are for the
//! caller to compute.

use crate::number_text::is_number_text;
use crate::number_text::spec_is_number_text;
use vstd::prelude::*;
use vstd::slice::slice_subrange;
use vstd::slice::slice_to_vec;

verus! {

/// ASCII `;`, which parts latitude from longitude.
pub const SEPARATOR: u8 = 0x3b;

/// ASCII space.
pub const SPACE: u8 = 0x20;

/// ASCII horizontal tab.
pub const TAB: u8 = 0x09;

/// ASCII delete, the first byte after the visible range.
pub const DELETE: u8 = 0x7f;

/// Whether `b` is a byte of header text: a tab, or an ASCII character from
/// space to `~`.
pub open spec fn is_visible_ascii(b: u8) -> bool {
    b == TAB || (SPACE <= b < DELETE)
}

/// Whether `s` is header text throughout.
pub open spec fn is_text(s: Seq<u8>) -> bool {
    forall|i: int| 0 <= i < s.len() ==> is_visible_ascii(#[trigger] s[i])
}

/// Whether `b` is a blank: the only white space that header text can hold.
pub open spec fn is_blank(b: u8) -> bool {
    b == SPACE || b == TAB
}

/// `s` without the blanks at its start.
pub open spec fn trim_start(s: Seq<u8>) -> Seq<u8>
    decreases s.len(),
{
    if s.len() > 0 && is_blank(s.first()) {
        trim_start(s.drop_first())
    } else {
        s
    }
}

/// `s` without the blanks at its end.
pub open spec fn trim_end(s: Seq<u8>) -> Seq<u8>
    decreases s.len(),
{
    if s.len() > 0 && is_blank(s.last()) {
        trim_end(s.drop_last())
    } else {
        s
    }
}

/// `s` without the blanks at either end.
pub open spec fn trimmed(s: Seq<u8>) -> Seq<u8> {
    trim_end(trim_start(s))
}

/// Whether `s` holds a separator at `k` and nowhere else.
pub open spec fn is_sole_separator(s: Seq<u8>, k: int) -> bool {
    &&& 0 <= k < s.len()
    &&& s[k] == SEPARATOR
    &&& forall|j: int| 0 <= j < s.len() && j != k ==> #[trigger] s[j] != SEPARATOR
}

/// Whether splitting `s` at its separators gives exactly two fields.
pub open spec fn has_two_fields(s: Seq<u8>) -> bool {
    exists|k: int| is_sole_separator(s, k)
}

/// Where the one separator of `s` stands.
pub open spec fn separator_position(s: Seq<u8>) -> int {
    choose|k: int| is_sole_separator(s, k)
}

/// The latitude and longitude that a header value states, each as text
/// without the blanks around it; `None` unless the value is text with exactly
/// two fields and each of them is the text of a number.
pub open spec fn spec_parse_location(s: Seq<u8>) -> Option<(Seq<u8>, Seq<u8>)> {
    if is_text(s) && has_two_fields(s) {
        let k = separator_position(s);
        let latitude = trimmed(s.subrange(0, k));
        let longitude = trimmed(s.subrange(k + 1, s.len() as int));
        if spec_is_number_text(latitude) && spec_is_number_text(longitude) {
            Some((latitude, longitude))
        } else {
            None
        }
    } else {
        None
    }
}

/// The two numbers of an `X-Client-Location` value, as text.
#[derive(Debug, Clone, PartialEq, Eq)]
pub struct CoordinateText {
    /// What stands before the separator, without the blanks around it.
    pub latitude: Vec<u8>,
    /// What stands after the separator, without the blanks around it.
    pub longitude: Vec<u8>,
}

impl CoordinateText {
    /// The two fields as byte sequences, latitude first.
    pub open spec fn fields(&self) -> (Seq<u8>, Seq<u8>) {
        (self.latitude@, self.longitude@)
    }
}

/// A value has at most one sole separator.
pub proof fn lemma_sole_separator_unique(s: Seq<u8>, k: int)
    requires
        is_sole_separator(s, k),
    ensures
        has_two_fields(s),
        separator_position(s) == k,
{
    let c = separator_position(s);
    assert(is_sole_separator(s, c));
    if c != k {
        assert(s[c] != SEPARATOR);
    }
}

/// Where the first `a` bytes of `s` are blanks and the next one is not,
/// trimming the start removes exactly those `a` bytes.
pub proof fn lemma_trim_start_at(s: Seq<u8>, a: int)
    requires
        0 <= a <= s.len(),
        forall|i: int| 0 <= i < a ==> is_blank(#[trigger] s[i]),
        a == s.len() || !is_blank(s[a]),
    ensures
        trim_start(s) == s.subrange(a, s.len() as int),
    decreases a,
{
    if a == 0 {
        assert(s.subrange(0, s.len() as int) =~= s);
    } else {
        let rest = s.drop_first();
        assert(is_blank(s[0]));
        assert forall|i: int| 0 <= i < a - 1 implies is_blank(#[trigger] rest[i]) by {
            assert(rest[i] == s[i + 1]);
        }
        lemma_trim_start_at(rest, a - 1);
        assert(rest.subrange(a - 1, rest.len() as int) =~= s.subrange(a, s.len() as int));
    }
}

/// Where the bytes of `s` from `b` on are blanks and the one before is not,
/// trimming the end keeps exactly the first `b` bytes.
pub proof fn lemma_trim_end_at(s: Seq<u8>, b: int)
    requires
        0 <= b <= s.len(),
        forall|i: int| b <= i < s.len() ==> is_blank(#[trigger] s[i]),
        b == 0 || !is_blank(s[b - 1]),
    ensures
        trim_end(s) == s.subrange(0, b),
    decreases s.len() - b,
{
    if b == s.len() {
        assert(s.subrange(0, b) =~= s);
    } else {
        let rest = s.drop_last();
        assert(is_blank(s[s.len() - 1]));
        lemma_trim_end_at(rest, b);
        assert(rest.subrange(0, b) =~= s.subrange(0, b));
    }
}

/// Trimming leaves no blank at either end.
pub proof fn lemma_trimmed_has_no_blank_ends(s: Seq<u8>)
    ensures
        trimmed(s).len() > 0 ==> !is_blank(trimmed(s).first()) && !is_blank(trimmed(s).last()),
        trimmed(s).len() <= s.len(),
{
    lemma_trim_start_props(s);
    lemma_trim_end_props(trim_start(s));
}

/// What is left after trimming the start is no longer than `s`, begins with
/// no blank, and ends as `s` ends.
proof fn lemma_trim_start_props(s: Seq<u8>)
    ensures
        trim_start(s).len() <= s.len(),
        trim_start(s).len() > 0 ==> !is_blank(trim_start(s).first()),
        trim_start(s).len() > 0 ==> trim_start(s).last() == s.last(),
    decreases s.len(),
{
    if s.len() > 0 && is_blank(s.first()) {
        lemma_trim_start_props(s.drop_first());
    }
}

/// What is left after trimming the end is no longer than `s`, ends with no
/// blank, and begins as `s` begins.
proof fn lemma_trim_end_props(s: Seq<u8>)
    ensures
        trim_end(s).len() <= s.len(),
        trim_end(s).len() > 0 ==> !is_blank(trim_end(s).last()),
        trim_end(s).len() > 0 ==> trim_end(s).first() == s.first(),
    decreases s.len(),
{
    if s.len() > 0 && is_blank(s.last()) {
        lemma_trim_end_props(s.drop_last());
    }
}

/// The part of `s` between the blanks at its ends.
pub fn trim(s: &[u8]) -> (r: &[u8])
    ensures
        r@ == trimmed(s@),
        r@.len() > 0 ==> !is_blank(r@.first()) && !is_blank(r@.last()),
{
    let n: usize = s.len();
    let mut a: usize = 0;
    while a < n && (s[a] == SPACE || s[a] == TAB)
        invariant
            a <= n,
            n == s.len(),
            forall|i: int| 0 <= i < a ==> is_blank(#[trigger] s@[i]),
        decreases n - a,
    {
        a += 1;
    }
    let mut b: usize = n;
    while b > a && (s[b - 1] == SPACE || s[b - 1] == TAB)
        invariant
            a <= b <= n,
            n == s.len(),
            forall|i: int| b <= i < n ==> is_blank(#[trigger] s@[i]),
        decreases b,
    {
        b -= 1;
    }
    proof {
        let rest = s@.subrange(a as int, n as int);
        lemma_trimmed_has_no_blank_ends(s@);
        lemma_trim_start_at(s@, a as int);
        assert forall|i: int| b - a <= i < rest.len() implies is_blank(#[trigger] rest[i]) by {
            assert(rest[i] == s@[i + a]);
        }
        lemma_trim_end_at(rest, b - a);
        assert(rest.subrange(0, b - a) =~= s@.subrange(a as int, b as int));
    }
    slice_subrange(s, a, b)
}

/// Reads the two coordinates out of the header's value, as text.
///
/// Returns `None` where the value holds a byte that is not visible ASCII,
/// does not hold exactly one separator, or has a field that is not the text
/// of a number.
pub fn parse_location(value: &[u8]) -> (r: Option<CoordinateText>)
    ensures
        match r {
            Some(text) => spec_parse_location(value@) == Some(text.fields()),
            None => spec_parse_location(value@) is None,
        },
{
    let n: usize = value.len();
    let mut found: Option<usize> = None;
    let mut i: usize = 0;
    while i < n
        invariant
            i <= n,
            n == value.len(),
            forall|j: int| 0 <= j < i ==> is_visible_ascii(#[trigger] value@[j]),
            match found {
                Some(k) => k < i && value@[k as int] == SEPARATOR && forall|j: int|
                    0 <= j < i && j != k ==> #[trigger] value@[j] != SEPARATOR,
                None => forall|j: int| 0 <= j < i ==> #[trigger] value@[j] != SEPARATOR,
            },
        decreases n - i,
    {
        let b: u8 = value[i];
        if !(b == TAB || (SPACE <= b && b < DELETE)) {
            assert(!is_visible_ascii(value@[i as int]));
            return None;
        }
        if b == SEPARATOR {
            if let Some(k) = found {
                assert forall|c: int| !is_sole_separator(value@, c) by {
                    if c == k {
                        assert(value@[i as int] == SEPARATOR);
                    } else {
                        assert(value@[k as int] == SEPARATOR);
                    }
                }
                return None;
            }
            found = Some(i);
        }
        i += 1;
    }
    match found {
        Some(k) => {
            proof {
                lemma_sole_separator_unique(value@, k as int);
            }
            let latitude = trim(slice_subrange(value, 0, k));
            let longitude = trim(slice_subrange(value, k + 1, n));
            if is_number_text(latitude) && is_number_text(longitude) {
                Some(
                    CoordinateText {
                        latitude: slice_to_vec(latitude),
                        longitude: slice_to_vec(longitude),
                    },
                )
            } else {
                None
            }
        },
        None => {
            assert forall|c: int| !is_sole_separator(value@, c) by {
                if 0 <= c < n {
                    assert(value@[c] != SEPARATOR);
                }
            }
            None
        },
    }
}

} // verus!
