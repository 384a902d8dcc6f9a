//! Dates and times as they are stored and shown. A point in time is held
//! as seconds since the epoch, in UTC; reading and writing the calendar
//! forms is the work of the `chrono` crate.

use vstd::prelude::*;
use vstd::string::StringExecFns;
use chrono::{DateTime, NaiveDateTime};

verus! {

/// Form in which a point in time is stored.
pub const DATETIME_FORMAT: &'static str = "%Y-%m-%d %H:%M:%S";

/// Form in which the day of a comment is shown.
pub const DATETIME_TO_DATE_FORMAT: &'static str = "%d/%m/%Y";

/// Form in which the time of day of a comment is shown.
pub const DATETIME_TO_TIME_FORMAT: &'static str = "%Hh%M";

/// Form in which a point in time is given to programs.
pub const DATETIME_TO_UTC_FORMAT: &'static str = "%Y-%m-%dT%H:%M:%SZ";

/// What is shown for a point in time that is not known.
pub const FALLBACK_DATETIME_STRING: &'static str = "(?)";

/// The point in time that a text names when it is read in a given form,
/// or nothing where the text is not in that form: what
/// `NaiveDateTime::parse_from_str` makes of it.
pub uninterp spec fn parsed_datetime(datetime: Seq<char>, format: Seq<char>) -> Option<i64>;

/// The text of a point in time in a given form, or nothing where the
/// point in time is beyond the calendar or the form cannot be used: what
/// `NaiveDateTime::format` writes.
pub uninterp spec fn formatted_datetime(timestamp: i64, format: Seq<char>) -> Option<Seq<char>>;

/// Reads a point in time in a given form with
/// `NaiveDateTime::parse_from_str`, and gives it in seconds since the
/// epoch. The result is claimed to depend on the text and the form alone.
#[verifier::external_body]
fn parse_datetime(datetime: &str, format: &str) -> (parsed: Option<i64>)
    ensures
        parsed == parsed_datetime(datetime@, format@),
{
    NaiveDateTime::parse_from_str(datetime, format).ok().map(
        |parsed| parsed.and_utc().timestamp(),
    )
}

/// Writes a point in time in a given form with `DateTime::from_timestamp`
/// and `NaiveDateTime::format`. The result is claimed to depend on the
/// point in time and the form alone.
#[verifier::external_body]
fn format_datetime(timestamp: i64, format: &str) -> (text: Option<String>)
    ensures
        text is Some == formatted_datetime(timestamp, format@) is Some,
        text is Some ==> text->0@ == formatted_datetime(timestamp, format@)->0,
{
    let datetime = DateTime::from_timestamp(timestamp, 0)?;
    let mut text = String::new();
    datetime.naive_utc().format(format).write_to(&mut text).ok()?;
    Some(text)
}

/// What is shown for a point in time that may be unknown.
pub open spec fn shown_datetime(datetime: Option<i64>, format: Seq<char>) -> Seq<char> {
    match datetime {
        Some(timestamp) => match formatted_datetime(timestamp, format) {
            Some(text) => text,
            None => FALLBACK_DATETIME_STRING@,
        },
        None => FALLBACK_DATETIME_STRING@,
    }
}

/// Reads a point in time from its stored form.
pub fn parse_datetime_string(datetime: &str) -> (parsed: Option<i64>)
    ensures
        parsed == parsed_datetime(datetime@, DATETIME_FORMAT@),
{
    parse_datetime(datetime, DATETIME_FORMAT)
}

/// The time `now` in the stored form.
pub fn now_datetime_string(now: i64) -> (text: String)
    ensures
        text@ == shown_datetime(Some(now), DATETIME_FORMAT@),
{
    datetime_to_string(&Some(now), DATETIME_FORMAT)
}

/// The time `after` seconds after `now`, in the stored form.
pub fn now_after_datetime_string(now: i64, after: u64) -> (text: String)
    requires
        now + after <= i64::MAX,
    ensures
        text@ == shown_datetime(Some((now + after) as i64), DATETIME_FORMAT@),
{
    let later = ((now as i128) + (after as i128)) as i64;
    datetime_to_string(&Some(later), DATETIME_FORMAT)
}

/// Shows a point in time in a given form, and the fallback text for one
/// that is unknown or cannot be shown.
pub fn datetime_to_string(datetime: &Option<i64>, format: &str) -> (text: String)
    ensures
        text@ == shown_datetime(*datetime, format@),
{
    match datetime {
        Some(timestamp) => match format_datetime(*timestamp, format) {
            Some(text) => text,
            None => String::from_str(FALLBACK_DATETIME_STRING),
        },
        None => String::from_str(FALLBACK_DATETIME_STRING),
    }
}

/// Shows the day of a point in time.
pub fn datetime_to_date_string(datetime: &Option<i64>) -> (text: String)
    ensures
        text@ == shown_datetime(*datetime, DATETIME_TO_DATE_FORMAT@),
{
    datetime_to_string(datetime, DATETIME_TO_DATE_FORMAT)
}

/// Shows the time of day of a point in time.
pub fn datetime_to_time_string(datetime: &Option<i64>) -> (text: String)
    ensures
        text@ == shown_datetime(*datetime, DATETIME_TO_TIME_FORMAT@),
{
    datetime_to_string(datetime, DATETIME_TO_TIME_FORMAT)
}

/// Shows a point in time in the form that programs read.
pub fn datetime_to_utc_string(datetime: &Option<i64>) -> (text: String)
    ensures
        text@ == shown_datetime(*datetime, DATETIME_TO_UTC_FORMAT@),
{
    datetime_to_string(datetime, DATETIME_TO_UTC_FORMAT)
}

} // verus!
