//! The administrator token that a request carries in its headers.
use axum::http::{HeaderMap, HeaderValue};
use vstd::prelude::*;
use crate::text;

verus! {

/// The header that holds an administrator token.
pub const ADMIN_HEADER_TOKEN: &'static str = "x-admin-token";

#[verifier::external_type_specification]
#[verifier::external_body]
#[verifier::reject_recursive_types(T)]
pub struct ExHeaderMap<T>(axum::http::HeaderMap<T>);

#[verifier::external_type_specification]
#[verifier::external_body]
pub struct ExHeaderValue(axum::http::HeaderValue);

/// What a set of headers holds: for each header name, in lower case, its first value.
pub uninterp spec fn header_values(headers: HeaderMap) -> Map<Seq<char>, Seq<u8>>;

/// The bytes of a header value.
pub uninterp spec fn value_bytes(value: HeaderValue) -> Seq<u8>;

/// A byte that a header value can hold as text: visible ASCII, space or tab.
pub open spec fn is_text_byte(b: u8) -> bool {
    32 <= b < 127 || b == 9
}

/// The text of a header value, where all its bytes are text.
pub open spec fn bytes_text(bytes: Seq<u8>) -> Option<Seq<char>> {
    if forall|i: int| 0 <= i < bytes.len() ==> is_text_byte(#[trigger] bytes[i]) {
        Some(bytes.map_values(|b: u8| b as char))
    } else {
        None
    }
}

/// A header name as the headers are keyed by: lower-case letters, digits and hyphens.
pub open spec fn is_plain_name(name: Seq<char>) -> bool {
    &&& 0 < name.len() < 100
    &&& forall|i: int|
        0 <= i < name.len() ==> 'a' <= #[trigger] name[i] <= 'z' || '0' <= name[i] <= '9'
            || name[i] == '-'
}

/// `axum::http::HeaderMap::get`: the first value of the header of that name, if there is one.
#[verifier::external_body]
fn header_value<'a>(headers: &'a HeaderMap, name: &str) -> (r: Option<&'a HeaderValue>)
    requires
        is_plain_name(name@),
    ensures
        r is Some <==> header_values(*headers).contains_key(name@),
        r is Some ==> value_bytes(*r->0) == header_values(*headers)[name@],
{
    headers.get(name)
}

/// `axum::http::HeaderValue::to_str`: the value's bytes as text, if they are all visible ASCII,
/// spaces or tabs; otherwise its error, which is `None` here.
#[verifier::external_body]
fn header_text(value: &HeaderValue) -> (r: Option<String>)
    ensures
        r is Some <==> bytes_text(value_bytes(*value)) is Some,
        r is Some ==> r->0@ == bytes_text(value_bytes(*value))->0,
{
    value.to_str().ok().map(|s| s.to_string())
}

/// The token in the text of a header: that text trimmed, if anything is left of it.
pub open spec fn token_in(value: Option<Seq<char>>) -> Option<Seq<char>> {
    match value {
        Some(raw) => if text::trimmed(raw).len() > 0 {
            Some(text::trimmed(raw))
        } else {
            None
        },
        None => None,
    }
}

/// The administrator token that the headers carry.
pub open spec fn admin_token(headers: HeaderMap) -> Option<Seq<char>> {
    if header_values(headers).contains_key(ADMIN_HEADER_TOKEN@) {
        token_in(bytes_text(header_values(headers)[ADMIN_HEADER_TOKEN@]))
    } else {
        None
    }
}

/// The characters of an optional text.
pub open spec fn text_of(value: Option<String>) -> Option<Seq<char>> {
    match value {
        Some(s) => Some(s@),
        None => None,
    }
}

/// The token in the text of a header: that text trimmed, if anything is left of it.
pub fn token_from_text(value: Option<String>) -> (r: Option<String>)
    ensures
        text_of(r) == token_in(text_of(value)),
{
    match value {
        Some(raw) => {
            let token = text::trim_text(raw.as_str());
            if token.as_str().is_empty() {
                None
            } else {
                Some(token)
            }
        },
        None => None,
    }
}

/// The administrator token that the headers carry: the first value of the header
/// `x-admin-token`, if it is text, trimmed, if anything is left of it.
pub fn extract_admin_token(headers: &HeaderMap) -> (r: Option<String>)
    ensures
        text_of(r) == admin_token(*headers),
{
    proof {
        reveal_strlit("x-admin-token");
    }
    match header_value(headers, ADMIN_HEADER_TOKEN) {
        Some(value) => token_from_text(header_text(value)),
        None => None,
    }
}

} // verus!
