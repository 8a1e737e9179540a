//! The items of other crates that the agent's rules call, and what is believed of them.
use std::sync::Arc;
use std::time::Duration;

use axum::http::header::ToStrError;
use axum::http::{HeaderMap, HeaderValue, StatusCode};
use base64::prelude::BASE64_STANDARD;
use base64::{DecodeError, Engine};
use chrono::{DateTime, SecondsFormat, Utc};
use serde_json::Value;
use uuid::Uuid;
use vstd::prelude::*;

verus! {

/// `base64::DecodeError`, the reason why a text is no Base64.
#[verifier::external_type_specification]
#[verifier::external_body]
pub struct ExDecodeError(DecodeError);

/// What `BASE64_STANDARD.decode` makes of a text: its bytes, or why the text is not standard Base64.
pub uninterp spec fn base64_decoded(text: Seq<char>) -> Result<Seq<u8>, DecodeError>;

/// What a decoding holds.
pub open spec fn decoding_view(r: Result<Vec<u8>, DecodeError>) -> Result<Seq<u8>, DecodeError> {
    match r {
        Ok(bytes) => Ok(bytes@),
        Err(error) => Err(error),
    }
}

/// `base64::Engine::decode` on `BASE64_STANDARD`. What it returns is a function of the text alone.
#[verifier::external_body]
pub(crate) fn base64_decode(text: &str) -> (r: Result<Vec<u8>, DecodeError>)
    ensures
        decoding_view(r) == base64_decoded(text@),
{
    BASE64_STANDARD.decode(text)
}

/// How long a `std::time::Duration` is, in nanoseconds.
pub uninterp spec fn duration_nanos(duration: Duration) -> int;

/// `Duration::clone`: the same duration. The type is `Copy`.
pub assume_specification[ <std::time::Duration as Clone>::clone ](
    duration: &std::time::Duration,
) -> (r: std::time::Duration)
    ensures
        r == *duration,
;

/// `Duration::from_millis`: the duration of so many milliseconds.
#[verifier::external_body]
pub(crate) fn duration_of_millis(millis: u64) -> (r: Duration)
    ensures
        duration_nanos(r) == millis * 1_000_000,
{
    Duration::from_millis(millis)
}

/// `Duration::as_nanos`: how long the duration is, in nanoseconds. No duration is longer than
/// `u64::MAX` seconds and 999,999,999 nanoseconds.
#[verifier::external_body]
pub(crate) fn nanos_of_duration(duration: Duration) -> (r: u128)
    ensures
        r == duration_nanos(duration),
        r <= 18_446_744_073_709_551_615_999_999_999,
{
    duration.as_nanos()
}

/// `Arc::clone`: another handle on the same value.
#[verifier::external_body]
pub(crate) fn share<T: ?Sized>(value: &Arc<T>) -> (r: Arc<T>)
    ensures
        r == *value,
{
    Arc::clone(value)
}

/// `Arc::<str>::from`: a shared copy of a text.
#[verifier::external_body]
pub(crate) fn shared_text(text: &str) -> (r: Arc<str>)
    ensures
        r@ == text@,
{
    Arc::from(text)
}

/// How chrono writes a moment in UTC by RFC 3339, to the microsecond and with a `Z`: the moment is
/// given in seconds since 1970 and nanoseconds. Nothing where chrono's calendar does not reach.
pub uninterp spec fn rfc3339_micros(secs: int, nanos: int) -> Option<Seq<char>>;

/// `chrono::DateTime::to_rfc3339_opts` with microseconds and `Z`, on the moment that
/// `DateTime::from_timestamp` makes of the arguments. What it returns is a function of them alone.
#[verifier::external_body]
pub(crate) fn write_rfc3339_micros(secs: i64, nanos: u32) -> (r: Option<String>)
    ensures
        match r {
            Some(text) => rfc3339_micros(secs as int, nanos as int) == Some(text@),
            None => rfc3339_micros(secs as int, nanos as int) is None,
        },
{
    DateTime::<Utc>::from_timestamp(secs, nanos).map(
        |time| time.to_rfc3339_opts(SecondsFormat::Micros, true),
    )
}

/// `uuid::Uuid`, an identifier made of sixteen bytes.
#[verifier::external_type_specification]
#[verifier::external_body]
pub struct ExUuid(Uuid);

/// The bytes that an identifier is made of.
pub uninterp spec fn uuid_bytes(id: Uuid) -> Seq<u8>;

/// `uuid::Uuid::as_bytes`: the sixteen bytes of the identifier, in order. The identifier is made of
/// nothing else, so no other one has them.
#[verifier::external_body]
pub(crate) fn bytes_of_uuid(id: &Uuid) -> (r: Vec<u8>)
    ensures
        r@ == uuid_bytes(*id),
        r@.len() == 16,
        forall|other: Uuid| #[trigger] uuid_bytes(other) == r@ ==> other == *id,
{
    id.as_bytes().to_vec()
}

/// A text in lower case, by the rules of Unicode.
pub uninterp spec fn lower_case(text: Seq<char>) -> Seq<char>;

/// `str::to_lowercase`. What it returns is a function of the text alone.
#[verifier::external_body]
pub(crate) fn to_lower_case(text: &str) -> (r: String)
    ensures
        r@ == lower_case(text@),
{
    text.to_lowercase()
}

/// `serde_json::Value`, any JSON. It is carried, never looked into.
#[verifier::external_type_specification]
#[verifier::external_body]
pub struct ExValue(Value);

/// `axum::http::HeaderMap`, the headers of a request.
#[verifier::external_type_specification]
#[verifier::external_body]
#[verifier::reject_recursive_types(T)]
pub struct ExHeaderMap<T>(HeaderMap<T>);

/// `axum::http::HeaderValue`, the bytes of one header.
#[verifier::external_type_specification]
#[verifier::external_body]
pub struct ExHeaderValue(HeaderValue);

/// `axum::http::header::ToStrError`, the reason why a header is no plain text.
#[verifier::external_type_specification]
#[verifier::external_body]
pub struct ExToStrError(ToStrError);

/// `axum::http::StatusCode`, the status of an answer. It is made of its number and nothing else.
#[verifier::external_type_specification]
#[verifier::external_body]
pub struct ExStatusCode(axum::http::StatusCode);

/// The number of a status, as `StatusCode::as_u16` gives it.
pub uninterp spec fn status_number(status: StatusCode) -> u16;

/// `StatusCode::from_u16`: the status of a number. Numbers of three digits have one, and no two
/// statuses have the same number.
#[verifier::external_body]
pub(crate) fn status_code(number: u16) -> (r: StatusCode)
    requires
        100 <= number <= 999,
    ensures
        status_number(r) == number,
        forall|other: StatusCode| #[trigger] status_number(other) == number ==> other == r,
{
    StatusCode::from_u16(number).unwrap()
}

/// The headers by their names, in lower case. Of a header that was sent more than once the first
/// value counts.
pub uninterp spec fn header_fields(headers: HeaderMap) -> Map<Seq<char>, Seq<u8>>;

/// The bytes of a header's value.
pub uninterp spec fn header_bytes(value: HeaderValue) -> Seq<u8>;

/// A letter of the English alphabet in lower case; any other character as it is.
pub open spec fn ascii_lower(c: char) -> char {
    if 'A' <= c <= 'Z' {
        (c as int + 32) as char
    } else {
        c
    }
}

/// `HeaderMap::get`: the first value of the header of this name. Names are the same whatever the
/// case of their letters.
#[verifier::external_body]
pub(crate) fn get_header<'a>(headers: &'a HeaderMap, name: &str) -> (r: Option<&'a HeaderValue>)
    ensures
        match r {
            Some(value) => {
                let key = name@.map_values(|c: char| ascii_lower(c));
                header_fields(*headers).contains_key(key) && header_fields(*headers)[key]
                    == header_bytes(*value)
            },
            None => !header_fields(*headers).contains_key(
                name@.map_values(|c: char| ascii_lower(c)),
            ),
        },
{
    headers.get(name)
}

/// The text that bytes stand for in a header: visible ASCII, blanks and tabs, one character each.
/// Nothing where any other byte occurs.
pub open spec fn header_text(bytes: Seq<u8>) -> Option<Seq<char>> {
    if forall|i: int| 0 <= i < bytes.len() ==> (32 <= #[trigger] bytes[i] < 127 || bytes[i] == 9) {
        Some(bytes.map_values(|b: u8| b as char))
    } else {
        None
    }
}

/// `HeaderValue::to_str`: the text that the value stands for.
#[verifier::external_body]
pub(crate) fn text_of_header(value: &HeaderValue) -> (r: Result<&str, ToStrError>)
    ensures
        match r {
            Ok(text) => header_text(header_bytes(*value)) == Some(text@),
            Err(_) => header_text(header_bytes(*value)) is None,
        },
{
    value.to_str()
}

} // verus!
