//! Fresh identifiers and the current time, which the library's constructors
//! stamp on new records.
use vstd::prelude::*;

verus! {

/// A lower-case hexadecimal digit.
pub open spec fn is_lower_hex(c: char) -> bool {
    ('0' <= c && c <= '9') || ('a' <= c && c <= 'f')
}

/// The hyphenated text form of a UUID: 32 lower-case hexadecimal digits in
/// groups of 8, 4, 4, 4 and 12, joined by hyphens.
pub open spec fn is_hyphenated_uuid(s: Seq<char>) -> bool {
    &&& s.len() == 36
    &&& forall|i: int| 0 <= i < 36 ==>
        if i == 8 || i == 13 || i == 18 || i == 23 { #[trigger] s[i] == '-' } else { is_lower_hex(s[i]) }
}

/// A random (version 4) UUID in its hyphenated text form: `uuid::Uuid::new_v4`
/// rendered with `to_string`, whose `Display` writes the lower-case hyphenated
/// form. Which UUID comes out is chance.
#[verifier::external_body]
pub(crate) fn new_uuid() -> (s: String)
    ensures
        is_hyphenated_uuid(s@),
{
    uuid::Uuid::new_v4().to_string()
}

/// The current time in milliseconds since the Unix epoch:
/// `chrono::Utc::now().timestamp_millis()`. Nothing is promised of its value.
#[verifier::external_body]
pub(crate) fn now_millis() -> (t: i64)
{
    chrono::Utc::now().timestamp_millis()
}

/// The current time in whole seconds since the Unix epoch:
/// `chrono::Utc::now().timestamp()`. Nothing is promised of its value.
#[verifier::external_body]
pub(crate) fn now_seconds() -> (t: i64)
{
    chrono::Utc::now().timestamp()
}


/// The milliseconds since the Unix epoch of a whole number of seconds, as
/// chrono counts them: `DateTime::from_timestamp(secs, 0)` followed by
/// `timestamp_millis`. The contract claims that a result is the seconds times
/// 1000, and that there is one for every instant within 8 * 10^12 seconds of
/// the epoch (about 250,000 years; chrono's dates reach beyond year 262,000
/// either way). Where exactly chrono stops further out is not stated.
#[verifier::external_body]
pub(crate) fn seconds_to_millis(secs: i64) -> (r: Option<i64>)
    ensures
        r matches Some(ms) ==> ms == secs * 1000,
        -8_000_000_000_000 <= secs <= 8_000_000_000_000 ==> r is Some,
{
    match chrono::DateTime::from_timestamp(secs, 0) {
        Some(d) => Some(d.timestamp_millis()),
        None => None,
    }
}

/// The instant an RFC 3339 date-time text names, in milliseconds since the
/// Unix epoch, as chrono reads it; none when chrono refuses the text.
pub uninterp spec fn rfc3339_millis(s: Seq<char>) -> Option<i64>;

/// Calls `chrono::DateTime::parse_from_rfc3339` and `timestamp_millis` on the
/// result. The contract claims only that the result depends on the text
/// alone; what it is, is left to the name `rfc3339_millis`.
#[verifier::external_body]
pub(crate) fn parse_rfc3339_millis(s: &str) -> (r: Option<i64>)
    ensures
        r == rfc3339_millis(s@),
{
    match chrono::DateTime::parse_from_rfc3339(s) {
        Ok(d) => Some(d.timestamp_millis()),
        Err(_) => None,
    }
}

} // verus!
