//! Calendar dates and instants as the domain sees them.
//!
//! Dates are handled as day numbers (days since 1 January of year 1 in the
//! proleptic Gregorian calendar, that day being day 1); instants that the
//! domain only carries around are millisecond `Timestamp`s.

use vstd::prelude::*;
use chrono::Datelike;

verus! {

/// The day number of the date written in `s` when chrono's
/// `NaiveDate::parse_from_str(s, format)` accepts it, `None` when it
/// rejects it.
pub uninterp spec fn date_day_number(s: Seq<char>, format: Seq<char>) -> Option<i32>;

/// Parses `s` with `chrono::NaiveDate::parse_from_str(s, format)` and
/// converts the date to its day number with `Datelike::num_days_from_ce`
/// (which counts days in the proleptic Gregorian calendar, so earlier dates
/// get smaller numbers). The contract only names the outcome; which texts
/// chrono accepts is not restated here.
#[verifier::external_body]
pub(crate) fn parse_day_number(s: &str, format: &str) -> (r: Option<i32>)
    ensures
        r == date_day_number(s@, format@),
{
    chrono::NaiveDate::parse_from_str(s, format).ok().map(|d| d.num_days_from_ce())
}

/// The day number of a date written `YYYY-MM-DD`, the one date format of
/// the domain.
pub open spec fn ymd_day_number(s: Seq<char>) -> Option<i32> {
    date_day_number(s, "%Y-%m-%d"@)
}

/// Reads a `YYYY-MM-DD` date as its day number.
pub(crate) fn parse_ymd_day(s: &str) -> (r: Option<i32>)
    ensures
        r == ymd_day_number(s@),
{
    parse_day_number(s, "%Y-%m-%d")
}

/// The instant written in `s`, in milliseconds since the Unix epoch, when
/// chrono's `DateTime::parse_from_rfc3339` accepts it.
pub uninterp spec fn rfc3339_instant_ms(s: Seq<char>) -> Option<i64>;

/// Parses `s` with `chrono::DateTime::parse_from_rfc3339` and reads the
/// instant with `timestamp_millis`. The contract names the outcome; the
/// RFC 3339 grammar is not restated.
#[verifier::external_body]
pub(crate) fn parse_rfc3339_millis(s: &str) -> (r: Option<i64>)
    ensures
        r == rfc3339_instant_ms(s@),
{
    match chrono::DateTime::parse_from_rfc3339(s) {
        Ok(dt) => Some(dt.timestamp_millis()),
        Err(_) => None,
    }
}

/// The time from the instant written in `first` to the one written in
/// `last`, in whole milliseconds rounded toward zero, when chrono accepts
/// both as RFC 3339.
pub uninterp spec fn rfc3339_span_ms(first: Seq<char>, last: Seq<char>) -> Option<i64>;

/// Parses both texts with `chrono::DateTime::parse_from_rfc3339`, converts
/// them to UTC and measures `(last - first).num_milliseconds()`. The contract
/// names the outcome.
#[verifier::external_body]
pub(crate) fn rfc3339_span(first: &str, last: &str) -> (r: Option<i64>)
    ensures
        r == rfc3339_span_ms(first@, last@),
{
    let f = match chrono::DateTime::parse_from_rfc3339(first) {
        Ok(dt) => dt.to_utc(),
        Err(_) => return None,
    };
    let l = match chrono::DateTime::parse_from_rfc3339(last) {
        Ok(dt) => dt.to_utc(),
        Err(_) => return None,
    };
    Some((l - f).num_milliseconds())
}

/// The layout of a time stamp with milliseconds, such as
/// `2026-04-01T10:00:00.123Z`, in chrono's strftime notation.
pub open spec fn millis_stamp_format() -> Seq<char> {
    "%Y-%m-%dT%H:%M:%S%.3fZ"@
}

/// The current UTC time as `chrono::Utc::now()` formats it with `format`.
/// Only the millisecond stamp layout is admitted: chrono reports an error
/// for a layout it does not know, and `to_string` would then panic. The
/// text depends on the clock, so nothing is stated of it.
#[verifier::external_body]
pub(crate) fn now_formatted(format: &str) -> (r: String)
    requires
        format@ == millis_stamp_format(),
{
    chrono::Utc::now().format(format).to_string()
}

/// The current time in milliseconds since the Unix epoch, as
/// `chrono::Utc::now().timestamp_millis()` reads the clock. `Utc::now`
/// stops with a panic when the clock is set before 1970, so a value that
/// comes back is never negative; which value it is depends on the clock
/// and is not stated.
#[verifier::external_body]
pub(crate) fn now_millis() -> (r: i64)
    ensures
        r >= 0,
{
    chrono::Utc::now().timestamp_millis()
}

} // verus!
