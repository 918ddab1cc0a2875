//! Request headers.

use vstd::prelude::*;

use crate::text;

verus! {

/// The value of a header, in `reqwest`.
#[verifier::external_type_specification]
#[verifier::external_body]
pub struct ExHeaderValue(reqwest::header::HeaderValue);

/// The headers of a request, in `reqwest`.
#[verifier::external_type_specification]
#[verifier::external_body]
#[verifier::reject_recursive_types(T)]
pub struct ExHeaderMap<T>(reqwest::header::HeaderMap<T>);

/// The values under each name, as bytes. A name is in lower case.
pub uninterp spec fn header_fields(headers: reqwest::header::HeaderMap) -> Map<
    Seq<char>,
    Seq<Seq<u8>>,
>;

pub open spec fn no_fields() -> Map<Seq<char>, Seq<Seq<u8>>> {
    Map::empty()
}

/// Headers in which `name` has the one value `value`.
pub open spec fn with_field(
    fields: Map<Seq<char>, Seq<Seq<u8>>>,
    name: Seq<char>,
    value: Seq<char>,
) -> Map<Seq<char>, Seq<Seq<u8>>> {
    fields.insert(text::lower_of(name), seq![vstd::utf8::encode_utf8(value)])
}

/// A byte that may stand in the value of a header.
pub open spec fn is_value_byte(b: u8) -> bool {
    b == 9 || (b >= 32 && b != 127)
}

/// Text that may be the value of a header.
pub open spec fn is_header_value(value: Seq<char>) -> bool {
    let bytes = vstd::utf8::encode_utf8(value);
    forall|i: int| 0 <= i < bytes.len() ==> is_value_byte(#[trigger] bytes[i])
}

/// A name that this library sends a header under: letters and hyphens.
pub open spec fn is_header_name(name: Seq<char>) -> bool {
    &&& 0 < name.len() < 64
    &&& forall|i: int|
        0 <= i < name.len() ==> ('a' <= #[trigger] name[i] <= 'z' || 'A' <= name[i] <= 'Z'
            || name[i] == '-')
}

/// Few enough names for one more to be added: the map never grows past 32768
/// slots, and asks for more of them once a fifth is taken.
pub open spec fn has_room(headers: reqwest::header::HeaderMap) -> bool {
    &&& header_fields(headers).dom().finite()
    &&& header_fields(headers).dom().len() * 5 < 32768
}

/// Calls `reqwest::header::HeaderMap::new`, which holds nothing.
#[verifier::external_body]
pub(crate) fn new_headers() -> (headers: reqwest::header::HeaderMap)
    ensures
        header_fields(headers) == no_fields(),
{
    reqwest::header::HeaderMap::new()
}

/// Calls `reqwest::header::HeaderValue::from_str` on the value and, where it
/// is accepted, `HeaderMap::insert` under the name, in lower case. It is
/// accepted exactly where its bytes may stand in a header. What stood under
/// the name before is gone; nothing else changes. A full map makes `insert`
/// panic.
#[verifier::external_body]
pub(crate) fn insert_header(
    headers: &mut reqwest::header::HeaderMap,
    name: &str,
    value: &str,
) -> (r: bool)
    requires
        is_header_name(name@),
        has_room(*old(headers)),
    ensures
        r == is_header_value(value@),
        r ==> header_fields(*final(headers)) == with_field(
            header_fields(*old(headers)),
            name@,
            value@,
        ),
        !r ==> *final(headers) == *old(headers),
{
    let name = reqwest::header::HeaderName::from_bytes(name.as_bytes()).unwrap();
    match reqwest::header::HeaderValue::from_str(value) {
        Ok(value) => {
            headers.insert(name, value);
            true
        },
        Err(_) => false,
    }
}

} // verus!
