//! Response headers, as `reqwest` holds them.

use vstd::prelude::*;

verus! {

/// `reqwest`'s multimap of header names to values.
#[verifier::external_type_specification]
#[verifier::external_body]
#[verifier::reject_recursive_types(T)]
pub struct ExHeaderMap<T>(reqwest::header::HeaderMap<T>);

/// `reqwest`'s header value.
#[verifier::external_type_specification]
#[verifier::external_body]
pub struct ExHeaderValue(reqwest::header::HeaderValue);

/// What a header map holds: for each name that finds a value, the bytes
/// of the first value under it. Names are matched without regard to case.
pub uninterp spec fn header_values(
    headers: reqwest::header::HeaderMap<reqwest::header::HeaderValue>,
) -> Map<Seq<char>, Seq<u8>>;

/// `HeaderMap::get`: the first value under `name`, here as its bytes, or
/// `None` where there is none.
#[verifier::external_body]
fn first_value(headers: &reqwest::header::HeaderMap, name: &str) -> (res: Option<Vec<u8>>)
    ensures
        res is Some <==> header_values(*headers).dom().contains(name@),
        res matches Some(bytes) ==> bytes@ == header_values(*headers)[name@],
{
    headers.get(name).map(|v| v.as_bytes().to_vec())
}

/// Is `b` a visible ASCII character, a space or a tab?
pub open spec fn is_text_byte(b: u8) -> bool {
    32 <= b < 127 || b == 9
}

/// The text of a header value, which has one where all its bytes are
/// visible ASCII, spaces or tabs.
pub open spec fn value_text(bytes: Seq<u8>) -> Option<Seq<char>> {
    if forall|i: int| 0 <= i < bytes.len() ==> is_text_byte(#[trigger] bytes[i]) {
        Some(bytes.map_values(|b: u8| b as char))
    } else {
        None
    }
}

/// The text of the first value under `name`.
pub open spec fn header_text(
    headers: reqwest::header::HeaderMap<reqwest::header::HeaderValue>,
    name: Seq<char>,
) -> Option<Seq<char>> {
    if header_values(headers).dom().contains(name) {
        value_text(header_values(headers)[name])
    } else {
        None
    }
}

/// Read a header value as text. `None` where a byte of it is neither
/// visible ASCII nor a space or tab.
pub fn read_value(bytes: &[u8]) -> (res: Option<String>)
    ensures
        res is Some <==> value_text(bytes@) is Some,
        res matches Some(s) ==> s@ == value_text(bytes@)->0,
{
    let mut out = String::new();
    let mut i: usize = 0;
    while i < bytes.len()
        invariant
            i <= bytes@.len(),
            forall|j: int| 0 <= j < i ==> is_text_byte(#[trigger] bytes@[j]),
            out@ == bytes@.take(i as int).map_values(|b: u8| b as char),
        decreases bytes@.len() - i,
    {
        let b = bytes[i];
        if !((32 <= b && b < 127) || b == 9) {
            assert(!is_text_byte(bytes@[i as int]));
            return None;
        }
        out.push(b as char);
        assert(bytes@.take(i + 1) =~= bytes@.take(i as int).push(b));
        i = i + 1;
    }
    assert(bytes@.take(i as int) =~= bytes@);
    Some(out)
}

/// The text of the first value under `name`. `None` where there is no
/// such header or its value does not read as text.
pub fn get_text(headers: &reqwest::header::HeaderMap, name: &str) -> (res: Option<String>)
    ensures
        res is Some <==> header_text(*headers, name@) is Some,
        res matches Some(s) ==> s@ == header_text(*headers, name@)->0,
{
    match first_value(headers, name) {
        Some(bytes) => read_value(bytes.as_slice()),
        None => None,
    }
}

/// Extract `X-Request-Id` from response headers. Returns `None` when the
/// header is missing, empty, or does not read as text.
pub fn request_id_from_headers(headers: &reqwest::header::HeaderMap) -> (res: Option<String>)
    ensures
        res is Some <==> (header_text(*headers, "x-request-id"@) matches Some(id) && id.len() > 0),
        res matches Some(id) ==> id@ == header_text(*headers, "x-request-id"@)->0,
{
    match get_text(headers, "x-request-id") {
        Some(id) => if id.as_str().is_empty() {
            None
        } else {
            Some(id)
        },
        None => None,
    }
}

/// May `b` stand in a header value?
pub open spec fn is_value_byte(b: u8) -> bool {
    (b >= 32 && b != 127) || b == 9
}

/// May the UTF-8 bytes of `s` stand in a header value?
pub open spec fn is_header_value(s: Seq<char>) -> bool {
    forall|i: int|
        0 <= i < vstd::utf8::encode_utf8(s).len() ==> is_value_byte(
            #[trigger] vstd::utf8::encode_utf8(s)[i],
        )
}

/// `HeaderValue::from_str`: succeeds exactly where no byte of `s` is a
/// control character, tabs aside.
#[verifier::external_body]
pub(crate) fn makes_header_value(s: &str) -> (res: bool)
    ensures
        res == is_header_value(s@),
{
    reqwest::header::HeaderValue::from_str(s).is_ok()
}

/// A header value reads as text exactly where each of its bytes is from 32
/// to 126 or a tab, and each byte is then one character of the same code.
pub proof fn law_header_values_read_as_text(bytes: Seq<u8>)
    ensures
        value_text(bytes) is Some <==> forall|i: int|
            0 <= i < bytes.len() ==> (32 <= #[trigger] bytes[i] <= 126 || bytes[i] == 9),
        value_text(bytes) matches Some(s) ==> s.len() == bytes.len() && forall|i: int|
            0 <= i < bytes.len() ==> #[trigger] s[i] as nat == bytes[i] as nat,
{
    assert forall|i: int| 0 <= i < bytes.len() implies (is_text_byte(#[trigger] bytes[i]) <==> (32
        <= bytes[i] <= 126 || bytes[i] == 9)) by {}
}

/// A header is looked up by the name it is asked for, and is there only
/// where its value reads as text.
pub proof fn law_headers_are_found_by_name(
    headers: reqwest::header::HeaderMap<reqwest::header::HeaderValue>,
    name: Seq<char>,
)
    ensures
        !header_values(headers).dom().contains(name) ==> header_text(headers, name) is None,
        header_values(headers).dom().contains(name) ==> header_text(headers, name) == value_text(
            header_values(headers)[name],
        ),
{
}

/// A text can stand in a header value exactly where no byte of its UTF-8
/// is below 32, tabs aside, or 127.
pub proof fn law_header_values_hold_no_control_bytes(s: Seq<char>)
    ensures
        is_header_value(s) <==> forall|i: int|
            0 <= i < vstd::utf8::encode_utf8(s).len() ==> {
                let b = #[trigger] vstd::utf8::encode_utf8(s)[i];
                b == 9 || (32 <= b && b != 127)
            },
{
}

} // verus!
