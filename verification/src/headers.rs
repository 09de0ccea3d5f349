//! Reading the headers of a request out of hyper's header map.
//!
//! The map is `http::HeaderMap`, which hyper hands out under its own name.
//! Nothing in this module is proved: it states what the map does, and the
//! rest of the crate is proved against these statements.

use hyper::header::HeaderValue;
use hyper::HeaderMap;
use vstd::prelude::*;

verus! {

/// `http::HeaderMap`, a multimap from header names to values.
#[verifier::external_type_specification]
#[verifier::external_body]
#[verifier::reject_recursive_types(T)]
pub struct ExHeaderMap<T>(HeaderMap<T>);

/// `http::header::HeaderValue`, the bytes of one header's value.
#[verifier::external_type_specification]
#[verifier::external_body]
pub struct ExHeaderValue(HeaderValue);

/// What a header map holds, as far as this crate reads it: for each header
/// name in the map, written in lower case as the map stores it, the bytes of
/// the first value that was stored under that name.
pub uninterp spec fn first_values(headers: HeaderMap<HeaderValue>) -> Map<Seq<char>, Seq<u8>>;

/// Whether `c` may stand in a header name that `first_value` looks up:
/// a lower-case letter, a digit or a hyphen.
pub open spec fn is_plain_name_char(c: char) -> bool {
    ('a' <= c <= 'z') || ('0' <= c <= '9') || c == '-'
}

/// Whether `name` is a header name in the form in which the map stores it:
/// between 1 and 64 characters, each a lower-case letter, a digit or a hyphen.
pub open spec fn is_plain_name(name: Seq<char>) -> bool {
    &&& 1 <= name.len() <= 64
    &&& forall|i: int| 0 <= i < name.len() ==> is_plain_name_char(#[trigger] name[i])
}

/// The bytes of the first value that `headers` holds under `name`, if it holds
/// one.
pub open spec fn header_value(headers: HeaderMap<HeaderValue>, name: Seq<char>) -> Option<Seq<u8>> {
    if first_values(headers).contains_key(name) {
        Some(first_values(headers)[name])
    } else {
        None
    }
}

/// Calls `HeaderMap::get` with a string key, and `HeaderValue::as_bytes` on
/// what it finds.
///
/// `get` lower-cases the key, looks for an entry of that name and returns the
/// first value stored under it, or `None` where the map has no such entry;
/// it changes nothing and does not panic. A key that is already in the
/// stored form is looked up as it stands, and only that is claimed here: the
/// result is the entry of `first_values` under `name`, where there is one.
#[verifier::external_body]
pub(crate) fn first_value<'a>(headers: &'a HeaderMap<HeaderValue>, name: &str) -> (r: Option<&'a [u8]>)
    requires
        is_plain_name(name@),
    ensures
        match r {
            Some(bytes) => first_values(*headers).contains_key(name@) && first_values(
                *headers,
            )[name@] == bytes@,
            None => !first_values(*headers).contains_key(name@),
        },
{
    match headers.get(name) {
        Some(value) => Some(value.as_bytes()),
        None => None,
    }
}

} // verus!
