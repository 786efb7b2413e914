//! Calendar dates and times of day, parsed and written by `chrono`.

use vstd::prelude::*;
use chrono::{Datelike, Timelike};
use crate::paths::opt_text;

verus! {

/// Deletion date format of a trashinfo record.
pub const TRASHINFO_TIME_FORMAT: &'static str = "%Y-%m-%dT%H:%M:%S";

/// Date format of a listing.
pub const LISTING_TIME_FORMAT: &'static str = "%Y-%m-%d %H:%M:%S";

/// The numbers of a timestamp: year, month, day, hour, minute, second and
/// nanosecond.
pub type Fields = (int, int, int, int, int, int, int);

/// A date and a time of day without a time zone. A leap second is written as
/// second 59 with a nanosecond of 1,000,000,000 or more.
#[derive(Clone, Copy, Debug, PartialEq, Eq, Structural)]
pub struct Timestamp {
    pub year: i32,
    pub month: u32,
    pub day: u32,
    pub hour: u32,
    pub minute: u32,
    pub second: u32,
    pub nanosecond: u32,
}

impl Timestamp {
    /// The numbers of the timestamp.
    pub open spec fn fields(self) -> Fields {
        (
            self.year as int,
            self.month as int,
            self.day as int,
            self.hour as int,
            self.minute as int,
            self.second as int,
            self.nanosecond as int,
        )
    }
}

/// The numbers of an optional timestamp.
pub open spec fn opt_fields(t: Option<Timestamp>) -> Option<Fields> {
    match t {
        Some(t) => Some(t.fields()),
        None => None,
    }
}

/// What `chrono::NaiveDateTime::parse_from_str` reads from `text` under
/// `pattern`; `None` where it reports an error.
pub uninterp spec fn parsed_datetime(text: Seq<char>, pattern: Seq<char>) -> Option<Fields>;

/// What `chrono::DateTime::parse_from_rfc3339` reads from `text`, moved to
/// UTC; `None` where it reports an error.
pub uninterp spec fn parsed_rfc3339(text: Seq<char>) -> Option<Fields>;

/// The UTC date and time that `chrono::DateTime::from_timestamp` gives for a
/// number of seconds since the Unix epoch; `None` where it is out of range.
pub uninterp spec fn unix_datetime(seconds: int) -> Option<Fields>;

/// What `chrono::NaiveDateTime::format` writes for the given numbers under
/// `pattern`; `None` where the numbers are no date and time of `chrono`.
pub uninterp spec fn formatted_datetime(fields: Fields, pattern: Seq<char>) -> Option<Seq<char>>;

/// Calls `chrono::NaiveDateTime::parse_from_str` and hands out the numbers of
/// the value it returns. The contract only names the result: equal texts
/// under equal patterns give equal numbers.
#[verifier::external_body]
pub(crate) fn parse_naive(value: &str, pattern: &str) -> (t: Option<Timestamp>)
    ensures
        opt_fields(t) == parsed_datetime(value@, pattern@),
{
    match chrono::NaiveDateTime::parse_from_str(value, pattern) {
        Ok(dt) => Some(Timestamp {
            year: dt.year(), month: dt.month(), day: dt.day(),
            hour: dt.hour(), minute: dt.minute(), second: dt.second(),
            nanosecond: dt.nanosecond(),
        }),
        Err(_) => None,
    }
}

/// Calls `chrono::DateTime::parse_from_rfc3339` and hands out the numbers of
/// the UTC date and time of the value it returns. The contract only names the
/// result.
#[verifier::external_body]
pub(crate) fn parse_rfc3339(value: &str) -> (t: Option<Timestamp>)
    ensures
        opt_fields(t) == parsed_rfc3339(value@),
{
    match chrono::DateTime::parse_from_rfc3339(value) {
        Ok(aware) => {
            let dt = aware.naive_utc();
            Some(Timestamp {
                year: dt.year(), month: dt.month(), day: dt.day(),
                hour: dt.hour(), minute: dt.minute(), second: dt.second(),
                nanosecond: dt.nanosecond(),
            })
        },
        Err(_) => None,
    }
}

/// Calls `chrono::DateTime::from_timestamp` with no nanoseconds and hands out
/// the numbers of the UTC date and time it returns. The contract only names
/// the result.
#[verifier::external_body]
pub(crate) fn from_unix_seconds(seconds: i64) -> (t: Option<Timestamp>)
    ensures
        opt_fields(t) == unix_datetime(seconds as int),
{
    match chrono::DateTime::from_timestamp(seconds, 0) {
        Some(aware) => {
            let dt = aware.naive_utc();
            Some(Timestamp {
                year: dt.year(), month: dt.month(), day: dt.day(),
                hour: dt.hour(), minute: dt.minute(), second: dt.second(),
                nanosecond: dt.nanosecond(),
            })
        },
        None => None,
    }
}

/// Rebuilds the `chrono::NaiveDateTime` of the given numbers and calls its
/// `format` with one of the two patterns of this module, which `chrono`
/// accepts. The contract only names the result; it is `None` where `chrono`
/// refuses the numbers.
#[verifier::external_body]
pub(crate) fn format_fields(t: &Timestamp, pattern: &str) -> (text: Option<String>)
    requires
        pattern@ == TRASHINFO_TIME_FORMAT@ || pattern@ == LISTING_TIME_FORMAT@,
    ensures
        opt_text(text) == formatted_datetime(t.fields(), pattern@),
{
    let date = chrono::NaiveDate::from_ymd_opt(t.year, t.month, t.day)?;
    let dt = date.and_hms_nano_opt(t.hour, t.minute, t.second, t.nanosecond)?;
    Some(dt.format(pattern).to_string())
}

/// The timestamp that a deletion date denotes: the text is read in the
/// trashinfo format first and, where that fails, as an RFC 3339 date and time,
/// which is moved to UTC.
pub open spec fn trash_datetime(text: Seq<char>) -> Option<Fields> {
    match parsed_datetime(text, TRASHINFO_TIME_FORMAT@) {
        Some(fields) => Some(fields),
        None => parsed_rfc3339(text),
    }
}

/// Parses a deletion date, in the trashinfo format or as RFC 3339.
pub fn parse_trash_datetime(value: &str) -> (t: Option<Timestamp>)
    ensures
        opt_fields(t) == trash_datetime(value@),
{
    match parse_naive(value, TRASHINFO_TIME_FORMAT) {
        Some(naive) => Some(naive),
        None => parse_rfc3339(value),
    }
}

/// The trashinfo form of the UTC date and time that lies `seconds` after the
/// Unix epoch.
pub open spec fn serialized_time(seconds: int) -> Option<Seq<char>> {
    match unix_datetime(seconds) {
        Some(fields) => formatted_datetime(fields, TRASHINFO_TIME_FORMAT@),
        None => None,
    }
}

/// Writes a point in time, given in seconds since the Unix epoch, in the
/// trashinfo format. `None` where the date is out of the calendar's range.
pub fn serialize_system_time(unix_seconds: i64) -> (text: Option<String>)
    ensures
        opt_text(text) == serialized_time(unix_seconds as int),
{
    match from_unix_seconds(unix_seconds) {
        Some(t) => format_fields(&t, TRASHINFO_TIME_FORMAT),
        None => None,
    }
}

} // verus!
