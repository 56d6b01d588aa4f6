//! Calendar time. The pipeline reasons about instants as unix timestamps in
//! seconds; parsing and rendering the timestamp strings of the wire formats
//! is delegated to chrono behind trusted wrappers, each result named so that
//! the callers' contracts stay exact.

use vstd::prelude::*;

verus! {

/// The unix timestamp that a `%Y-%m-%dT%H:%M:%S.%fZ` expiration string
/// parses to, if it parses.
pub uninterp spec fn expiration_ts_of(s: Seq<char>) -> Option<i64>;

/// Relies on chrono's `NaiveDateTime::parse_from_str` with the fixed format
/// `%Y-%m-%dT%H:%M:%S.%fZ` and on `and_utc().timestamp()`: the outcome is a
/// function of the text alone.
#[verifier::external_body]
pub(crate) fn parse_expiration(s: &str) -> (r: Option<i64>)
    ensures
        r == expiration_ts_of(s@),
{
    match chrono::NaiveDateTime::parse_from_str(s, "%Y-%m-%dT%H:%M:%S.%fZ") {
        Ok(t) => Some(t.and_utc().timestamp()),
        Err(_) => None,
    }
}

/// The unix timestamp that a `%Y-%m-%dT%H:%M:%S` record creation time parses
/// to, if it parses.
pub uninterp spec fn creation_ts_of(s: Seq<char>) -> Option<i64>;

/// Relies on chrono's `NaiveDateTime::parse_from_str` with the fixed format
/// `%Y-%m-%dT%H:%M:%S` and on `and_utc().timestamp()`: the outcome is a
/// function of the text alone.
#[verifier::external_body]
pub(crate) fn parse_creation_time(s: &str) -> (r: Option<i64>)
    ensures
        r == creation_ts_of(s@),
{
    match chrono::NaiveDateTime::parse_from_str(s, "%Y-%m-%dT%H:%M:%S") {
        Ok(t) => Some(t.and_utc().timestamp()),
        Err(_) => None,
    }
}

/// The `%Y-%m-%dT%H:%M:%SZ` rendering of a unix timestamp, as used in the
/// collection window URLs.
pub uninterp spec fn utc_chars_of(t: int) -> Seq<char>;

/// Relies on chrono's `DateTime::from_timestamp` and on formatting with the
/// fixed format `%Y-%m-%dT%H:%M:%SZ`: the rendering is a function of the
/// timestamp alone, and `from_timestamp` returns `None` only when the day
/// count does not fit in 32 bits — every timestamp up to the year 9999 is
/// rendered.
#[verifier::external_body]
pub(crate) fn format_utc_time(t: i64) -> (r: Option<String>)
    ensures
        r matches Some(s) ==> s@ == utc_chars_of(t as int),
        0 <= t <= 253402300799 ==> r is Some,
{
    chrono::DateTime::<chrono::Utc>::from_timestamp(t, 0).map(|d| {
        d.format("%Y-%m-%dT%H:%M:%SZ").to_string()
    })
}

/// The `%Y-%m-%d %H:%M:%S` rendering of a unix timestamp, as used in the
/// derived `timestamp` field of the line-delimited JSON sink.
pub uninterp spec fn stamp_chars_of(t: i64) -> Seq<char>;

/// Relies on chrono's `DateTime::from_timestamp` and on formatting with the
/// fixed format `%Y-%m-%d %H:%M:%S`: the rendering is a function of the
/// timestamp alone, and `from_timestamp` returns `None` only when the day
/// count does not fit in 32 bits — every timestamp up to the year 9999 is
/// rendered.
#[verifier::external_body]
pub(crate) fn format_stamp_time(t: i64) -> (r: Option<String>)
    ensures
        r matches Some(s) ==> s@ == stamp_chars_of(t),
        0 <= t <= 253402300799 ==> r is Some,
{
    chrono::DateTime::<chrono::Utc>::from_timestamp(t, 0).map(|d| {
        d.format("%Y-%m-%d %H:%M:%S").to_string()
    })
}

} // verus!
