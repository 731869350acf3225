//! The header types of the HTTP client, and what is assumed of them.
//!
//! A header map and a header value are opaque to the verifier. Two uninterpreted
//! functions name what they hold, and each method that the library calls has a
//! wrapper whose contract is stated over those names. The contracts are assumed,
//! not proved: they restate what the `http` crate documents.

use reqwest::header::{HeaderMap, HeaderValue, ACCEPT_RANGES, RANGE};
use vstd::prelude::*;

verus! {

/// `http::HeaderMap`: the header set of a request or of a response.
#[verifier::external_type_specification]
#[verifier::external_body]
#[verifier::reject_recursive_types(T)]
pub struct ExHeaderMap<T>(HeaderMap<T>);

/// `http::HeaderValue`: the value of one header field.
#[verifier::external_type_specification]
#[verifier::external_body]
pub struct ExHeaderValue(HeaderValue);

/// What a header map holds: for each header name in it (in lower case), the
/// bytes of the value that `HeaderMap::get` returns for that name, which is the
/// first value stored under it.
pub uninterp spec fn header_entries(headers: HeaderMap) -> Map<Seq<char>, Seq<u8>>;

/// What a header value holds: its bytes.
pub uninterp spec fn header_value_bytes(value: HeaderValue) -> Seq<u8>;

/// The name of the response header that advertises range support.
pub open spec fn accept_ranges_name() -> Seq<char> {
    "accept-ranges"@
}

/// The name of the request header that asks for a part of a resource.
pub open spec fn range_name() -> Seq<char> {
    "range"@
}

/// A byte that a header value can show as text: visible ASCII, space or tab.
pub open spec fn is_text_byte(b: u8) -> bool {
    (32 <= b && b < 127) || b == 9
}

/// A byte that a header value can hold at all: any but the control characters
/// other than tab.
pub open spec fn is_value_byte(b: u8) -> bool {
    (32 <= b && b != 127) || b == 9
}

/// Every byte is one that a header value can show as text.
pub open spec fn is_text(bytes: Seq<u8>) -> bool {
    forall|i: int| 0 <= i < bytes.len() ==> is_text_byte(#[trigger] bytes[i])
}

/// Every byte is one that a header value can hold.
pub open spec fn is_value(bytes: Seq<u8>) -> bool {
    forall|i: int| 0 <= i < bytes.len() ==> is_value_byte(#[trigger] bytes[i])
}

/// The `Accept-Ranges` value among `entries`, if there is one.
pub open spec fn accept_ranges_of(entries: Map<Seq<char>, Seq<u8>>) -> Option<Seq<u8>> {
    if entries.contains_key(accept_ranges_name()) {
        Some(entries[accept_ranges_name()])
    } else {
        None
    }
}

/// `HeaderMap::new`. Assumed: the new map holds nothing.
#[verifier::external_body]
pub(crate) fn new_header_map() -> (fresh: HeaderMap)
    ensures
        header_entries(fresh) =~= Map::empty(),
{
    HeaderMap::new()
}

/// `HeaderMap::insert` under the name `RANGE`. Assumed: afterwards `get` returns
/// `value` for that name, and the other names are as before. `insert` panics
/// once a map has grown to its size limit; a map that holds nothing is far from
/// it, and that is all this wrapper admits.
#[verifier::external_body]
pub(crate) fn insert_range(headers: &mut HeaderMap, value: HeaderValue)
    requires
        header_entries(*old(headers)) =~= Map::empty(),
    ensures
        header_entries(*final(headers)) == header_entries(*old(headers)).insert(
            range_name(),
            header_value_bytes(value),
        ),
{
    headers.insert(RANGE, value);
}

/// `HeaderMap::get` for the name `ACCEPT_RANGES`. Assumed: the result is the
/// first value stored under that name, and `None` if there is none.
#[verifier::external_body]
pub(crate) fn accept_ranges_value(headers: &HeaderMap) -> (value: Option<&HeaderValue>)
    ensures
        value is Some <==> header_entries(*headers).contains_key(accept_ranges_name()),
        value matches Some(v) ==> header_value_bytes(*v) == header_entries(
            *headers,
        )[accept_ranges_name()],
{
    headers.get(ACCEPT_RANGES)
}

/// `HeaderValue::to_str`, its text handed out as bytes. Assumed: it succeeds
/// exactly when every byte of the value is visible ASCII, space or tab, and the
/// text is then the value's bytes unchanged.
#[verifier::external_body]
pub(crate) fn value_text(value: &HeaderValue) -> (text: Option<&[u8]>)
    ensures
        text is Some <==> is_text(header_value_bytes(*value)),
        text matches Some(t) ==> t@ == header_value_bytes(*value),
{
    value.to_str().ok().map(str::as_bytes)
}

/// `HeaderValue::from_bytes`. Assumed: bytes that a header value can hold are
/// accepted, and the value then holds exactly them. Other bytes are refused by
/// `from_bytes`, so the wrapper leaves them out.
#[verifier::external_body]
pub(crate) fn value_of_bytes(bytes: &[u8]) -> (value: HeaderValue)
    requires
        is_value(bytes@),
    ensures
        header_value_bytes(value) == bytes@,
{
    HeaderValue::from_bytes(bytes).unwrap()
}

} // verus!
