//! HTTP headers.

use vstd::prelude::*;
use vstd::string::*;
use vstd::utf8::encode_utf8;
use reqwest::header::{HeaderMap, HeaderName, HeaderValue};
use crate::text::lower;

verus! {

/// `http::HeaderMap`, whose contents are named below.
#[verifier::external_type_specification]
#[verifier::external_body]
#[verifier::reject_recursive_types(T)]
pub struct ExHeaderMap<T>(reqwest::header::HeaderMap<T>);

/// `http::HeaderValue`, the value type of a header map.
#[verifier::external_type_specification]
#[verifier::external_body]
pub struct ExHeaderValue(reqwest::header::HeaderValue);

/// What a header map holds: under each name, in lower case, the bytes of its
/// values in order.
pub uninterp spec fn header_contents(headers: HeaderMap) -> Map<Seq<char>, Seq<Seq<u8>>>;

/// A map of fewer names than this always has room for one more.
pub const ROOMY_HEADERS: usize = 6000;

/// The characters of a header name.
pub open spec fn is_name_char(c: char) -> bool {
    ||| '0' <= c <= '9'
    ||| 'A' <= c <= 'Z'
    ||| 'a' <= c <= 'z'
    ||| c == '!' || c == '#' || c == '$' || c == '%' || c == '&' || c == '\'' || c == '*'
    ||| c == '+' || c == '-' || c == '.' || c == '^' || c == '_' || c == '`' || c == '|' || c == '~'
}

/// The header name that a text stands for, in lower case.
pub open spec fn name_of(text: Seq<char>) -> Option<Seq<char>> {
    if 0 < text.len() <= 65535 && (forall|i: int|
        0 <= i < text.len() ==> is_name_char(#[trigger] text[i])) {
        Some(lower(text))
    } else {
        None
    }
}

/// Whether a text can be the value of a header: it has no ASCII control
/// characters but tabs.
pub open spec fn is_value(text: Seq<char>) -> bool {
    forall|i: int| 0 <= i < text.len() ==> {
        let c = #[trigger] text[i];
        c == '\t' || (c >= ' ' && c != '\u{7f}')
    }
}

/// The text of a value, if all its bytes are visible ASCII, spaces or tabs.
pub open spec fn value_text_of(bytes: Seq<u8>) -> Option<Seq<char>> {
    if forall|i: int| 0 <= i < bytes.len() ==> (#[trigger] bytes[i]) == 9 || 32 <= bytes[i] < 127 {
        Some(bytes.map_values(|b: u8| b as char))
    } else {
        None
    }
}

/// The text of the first value under a name.
pub open spec fn first_text(
    headers: Map<Seq<char>, Seq<Seq<u8>>>,
    name: Seq<char>,
) -> Option<Seq<char>> {
    if headers.dom().contains(name) && headers[name].len() > 0 {
        value_text_of(headers[name][0])
    } else {
        None
    }
}

/// The values under a name, if there are any.
pub open spec fn header_at(
    headers: Map<Seq<char>, Seq<Seq<u8>>>,
    name: Seq<char>,
) -> Option<Seq<Seq<u8>>> {
    if headers.dom().contains(name) {
        Some(headers[name])
    } else {
        None
    }
}

/// The headers with `value` as the only value under `name`.
pub open spec fn with_header(
    headers: Map<Seq<char>, Seq<Seq<u8>>>,
    name: Seq<char>,
    value: Seq<char>,
) -> Map<Seq<char>, Seq<Seq<u8>>> {
    headers.insert(name, seq![encode_utf8(value)])
}

/// No headers at all.
pub open spec fn empty_contents() -> Map<Seq<char>, Seq<Seq<u8>>> {
    Map::empty()
}

/// `HeaderMap::new`: a map without headers.
#[verifier::external_body]
pub(crate) fn no_headers() -> (r: HeaderMap)
    ensures
        header_contents(r) == empty_contents(),
{
    HeaderMap::new()
}

/// `HeaderName::from_bytes`, then `HeaderName::as_str`: the name in lower case;
/// a text that is empty, longer than 65535 bytes or holds anything but the
/// characters of a token is no name.
#[verifier::external_body]
pub(crate) fn header_name(text: &str) -> (r: Option<String>)
    ensures
        crate::text::opt_text(r) == name_of(text@),
{
    HeaderName::from_bytes(text.as_bytes()).ok().map(|name| name.as_str().to_owned())
}

/// `HeaderValue::from_str`: whether it takes the text, which it does unless a
/// byte of it is a control character other than a tab.
#[verifier::external_body]
pub(crate) fn header_value_fits(text: &str) -> (r: bool)
    ensures
        r == is_value(text@),
{
    HeaderValue::from_str(text).is_ok()
}

/// `HeaderMap::try_insert`: puts the value under the name, in place of all that
/// the map had there. It fails, and changes nothing, only when the map would
/// have to grow beyond its largest size.
#[verifier::external_body]
pub(crate) fn try_insert_header(headers: &mut HeaderMap, name: &str, value: &str) -> (r: bool)
    requires
        name_of(name@) == Some(name@),
        is_value(value@),
    ensures
        header_contents(*final(headers)) == if r {
            with_header(header_contents(*old(headers)), name@, value@)
        } else {
            header_contents(*old(headers))
        },
        header_contents(*old(headers)).dom().finite() && header_contents(*old(headers)).dom().len()
            < ROOMY_HEADERS ==> r,
{
    match (HeaderName::from_bytes(name.as_bytes()), HeaderValue::from_str(value)) {
        (Ok(name), Ok(value)) => headers.try_insert(name, value).is_ok(),
        _ => false,
    }
}

/// `HeaderMap::get`, then `HeaderValue::to_str`: the text of the first value
/// under the name, if all its bytes are visible ASCII, spaces or tabs.
#[verifier::external_body]
pub(crate) fn first_header_text(headers: &HeaderMap, name: &str) -> (r: Option<String>)
    requires
        name_of(name@) == Some(name@),
    ensures
        crate::text::opt_text(r) == first_text(header_contents(*headers), name@),
{
    headers.get(name).and_then(|value| value.to_str().ok()).map(|text| text.to_owned())
}

} // verus!
