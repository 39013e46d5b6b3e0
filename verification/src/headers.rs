//! HTTP headers and status codes: the request id of a response, the bearer check, and the
//! calls into the `http` crate.
use vstd::prelude::*;
use vstd::string::*;
use crate::text::text_eq;

verus! {

/// The header map of the `http` crate.
#[verifier::external_type_specification]
#[verifier::external_body]
#[verifier::reject_recursive_types(T)]
pub struct ExHeaderMap<T>(http::HeaderMap<T>);

/// A header value of the `http` crate: a string of bytes.
#[verifier::external_type_specification]
#[verifier::external_body]
pub struct ExHeaderValue(http::HeaderValue);

/// The first value under each header name, by the name in lower case.
pub uninterp spec fn header_values(headers: http::HeaderMap<http::HeaderValue>) -> Map<
    Seq<char>,
    Seq<u8>,
>;

/// The bytes of a header value.
pub uninterp spec fn header_bytes(value: http::HeaderValue) -> Seq<u8>;

/// The names that are asked for: lower-case ASCII letters, digits and hyphens.
pub open spec fn is_plain_header_name(name: Seq<char>) -> bool {
    &&& 0 < name.len() <= 64
    &&& forall|i: int|
        0 <= i < name.len() ==> {
            ||| 'a' <= #[trigger] name[i] && name[i] <= 'z'
            ||| '0' <= name[i] && name[i] <= '9'
            ||| name[i] == '-'
        }
}

/// A byte that a header value may hold and still be read as text.
pub open spec fn is_visible_ascii(byte: u8) -> bool {
    (32 <= byte && byte < 127) || byte == 9
}

/// The text of a string of bytes, where each is visible ASCII or a tab.
pub open spec fn visible_text(bytes: Seq<u8>) -> Option<Seq<char>> {
    if forall|i: int| 0 <= i < bytes.len() ==> is_visible_ascii(#[trigger] bytes[i]) {
        Some(Seq::new(bytes.len(), |i: int| bytes[i] as char))
    } else {
        None
    }
}

/// The text of the first value under a header name, where there is one and it is text.
pub open spec fn header_text(
    headers: http::HeaderMap<http::HeaderValue>,
    name: Seq<char>,
) -> Option<Seq<char>> {
    if header_values(headers).contains_key(name) {
        visible_text(header_values(headers)[name])
    } else {
        None
    }
}

/// `http::HeaderMap::get`: the first value under a name, and nothing where there is none.
#[verifier::external_body]
fn header_get<'a>(headers: &'a http::HeaderMap<http::HeaderValue>, name: &str) -> (value: Option<
    &'a http::HeaderValue,
>)
    requires
        is_plain_header_name(name@),
    ensures
        value is Some == header_values(*headers).contains_key(name@),
        value matches Some(v) ==> header_bytes(*v) == header_values(*headers)[name@],
{
    headers.get(name)
}

/// `http::HeaderValue::to_str`: the value as text, where all of it is visible ASCII or tabs.
#[verifier::external_body]
fn header_to_str<'a>(value: &'a http::HeaderValue) -> (text: Option<&'a str>)
    ensures
        text is Some == visible_text(header_bytes(*value)) is Some,
        text matches Some(t) ==> visible_text(header_bytes(*value)) == Some(t@),
{
    value.to_str().ok()
}

/// `http::StatusCode::from_u16`: the number, where it has three digits.
#[verifier::external_body]
pub(crate) fn status_code(code: u16) -> (status: Option<u16>)
    ensures
        status == (if 100 <= code && code < 1000 {
            Some(code)
        } else {
            None
        }),
{
    http::StatusCode::from_u16(code).ok().map(|status| status.as_u16())
}

/// The text of the first value under `name`.
fn header_str<'a>(headers: &'a http::HeaderMap<http::HeaderValue>, name: &str) -> (text: Option<
    &'a str,
>)
    requires
        is_plain_header_name(name@),
    ensures
        text is Some == header_text(*headers, name@) is Some,
        text matches Some(t) ==> header_text(*headers, name@) == Some(t@),
{
    match header_get(headers, name) {
        Some(value) => header_to_str(value),
        None => None,
    }
}

/// The request id that a response carries: the first of three headers that holds text.
pub open spec fn request_id_of(headers: http::HeaderMap<http::HeaderValue>) -> Option<Seq<char>> {
    if header_text(headers, "x-request-id"@) is Some {
        header_text(headers, "x-request-id"@)
    } else if header_text(headers, "x-oai-request-id"@) is Some {
        header_text(headers, "x-oai-request-id"@)
    } else {
        header_text(headers, "cf-ray"@)
    }
}

/// The request id of a response, for error reports.
pub fn extract_request_id(headers: &http::HeaderMap<http::HeaderValue>) -> (id: Option<String>)
    ensures
        id.deep_view() == request_id_of(*headers),
{
    proof {
        reveal_strlit("x-request-id");
        reveal_strlit("x-oai-request-id");
        reveal_strlit("cf-ray");
    }
    if let Some(id) = header_str(headers, "x-request-id") {
        return Some(id.to_owned());
    }
    if let Some(id) = header_str(headers, "x-oai-request-id") {
        return Some(id.to_owned());
    }
    match header_str(headers, "cf-ray") {
        Some(id) => Some(id.to_owned()),
        None => None,
    }
}

/// A handshake is let in where no token is configured, or where its Authorization header
/// is the word Bearer, a space and the token.
pub open spec fn is_authorized(
    token: Option<Seq<char>>,
    headers: http::HeaderMap<http::HeaderValue>,
) -> bool {
    match token {
        Some(expected) => header_text(headers, "authorization"@) == Some("Bearer "@ + expected),
        None => true,
    }
}

/// May the client that sent these headers open a socket?
pub fn authorize(
    auth_token: &Option<String>,
    headers: &http::HeaderMap<http::HeaderValue>,
) -> (allowed: bool)
    ensures
        allowed == is_authorized(auth_token.deep_view(), *headers),
{
    match auth_token {
        Some(expected) => {
            proof {
                reveal_strlit("authorization");
            }
            match header_str(headers, "authorization") {
                Some(given) => {
                    let mut wanted: String = "Bearer ".to_owned();
                    wanted.append(expected.as_str());
                    text_eq(given, wanted.as_str())
                },
                None => false,
            }
        },
        None => true,
    }
}

/// Does the response announce a stream of events?
pub open spec fn announces_event_stream(headers: http::HeaderMap<http::HeaderValue>) -> bool {
    match header_text(headers, "content-type"@) {
        Some(kind) => crate::text::has_substring(kind, "text/event-stream"@),
        None => false,
    }
}

/// Does the response's content type name an event stream?
pub fn is_event_stream(headers: &http::HeaderMap<http::HeaderValue>) -> (yes: bool)
    ensures
        yes == announces_event_stream(*headers),
{
    proof {
        reveal_strlit("content-type");
    }
    match header_str(headers, "content-type") {
        Some(kind) => crate::text::contains(kind, "text/event-stream"),
        None => false,
    }
}

} // verus!
