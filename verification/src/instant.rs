//! Instants as seconds since the epoch, and their text.
//!
//! The calendar is chrono's. The library reads and writes instants through
//! it and keeps them as whole seconds.
use vstd::prelude::*;

verus! {

/// The RFC 3339 text that chrono writes for the instant `secs` seconds after
/// 1970-01-01T00:00:00 UTC, or `None` where chrono cannot represent that
/// instant.
pub uninterp spec fn rfc3339_text(secs: int) -> Option<Seq<char>>;

/// The instant that chrono reads from a timestamp in its relaxed RFC 3339
/// form, in whole seconds since the epoch, or `None` where chrono rejects the
/// text.
pub uninterp spec fn seconds_of_timestamp_text(text: Seq<char>) -> Option<int>;

/// The number of the day that chrono reads from `text` under the strftime
/// `format`, counted in the proleptic Gregorian calendar with January 1 of
/// year 1 as day 1, or `None` where chrono rejects the text or the format.
pub uninterp spec fn day_number_of_date_text(text: Seq<char>, format: Seq<char>) -> Option<int>;

/// Calls `chrono::DateTime::<Utc>::from_timestamp_secs` and, where that
/// gives an instant, `DateTime::to_rfc3339` on it.
///
/// Nothing is claimed of the text but that it is the one chrono writes for
/// these seconds, and that there is none exactly where chrono reports the
/// seconds as out of range.
#[verifier::external_body]
fn rfc3339_of_seconds(secs: i64) -> (r: Option<String>)
    ensures
        r is Some <==> rfc3339_text(secs as int) is Some,
        r matches Some(text) ==> rfc3339_text(secs as int) == Some(text@),
{
    match chrono::DateTime::from_timestamp_secs(secs) {
        Some(instant) => Some(instant.to_rfc3339()),
        None => None,
    }
}

/// Calls the `FromStr` implementation of `chrono::DateTime<Utc>`, which
/// accepts a relaxed form of RFC 3339 and converts to UTC, and takes
/// `DateTime::timestamp` of the instant.
///
/// Nothing is claimed of the seconds but that they are the ones chrono reads
/// from this text, and that there are none exactly where chrono rejects it.
#[verifier::external_body]
fn seconds_from_timestamp_text(text: &str) -> (r: Option<i64>)
    ensures
        r is Some <==> seconds_of_timestamp_text(text@) is Some,
        r matches Some(secs) ==> seconds_of_timestamp_text(text@) == Some(secs as int),
{
    match text.parse::<chrono::DateTime<chrono::Utc>>() {
        Ok(instant) => Some(instant.timestamp()),
        Err(_) => None,
    }
}

/// Calls `chrono::NaiveDate::parse_from_str` and takes
/// `Datelike::num_days_from_ce` of the day.
///
/// Nothing is claimed of the number but that it is the one chrono gives for
/// this text and format, and that there is none exactly where chrono
/// returns an error.
#[verifier::external_body]
fn day_number_from_date_text(text: &str, format: &str) -> (r: Option<i32>)
    ensures
        r is Some <==> day_number_of_date_text(text@, format@) is Some,
        r matches Some(day) ==> day_number_of_date_text(text@, format@) == Some(day as int),
{
    match chrono::NaiveDate::parse_from_str(text, format) {
        Ok(day) => Some(chrono::Datelike::num_days_from_ce(&day)),
        Err(_) => None,
    }
}

/// The number of the day on which the epoch begins, 1970-01-01, counted
/// from January 1 of year 1 as day 1.
pub const EPOCH_DAY: i64 = 719_163;

/// Seconds in a day.
pub const SECONDS_PER_DAY: i64 = 86_400;

/// The form of a date: year, month and day.
pub open spec fn date_format() -> Seq<char> {
    "%Y-%m-%d"@
}

/// Midnight UTC of the day that `text` names as year, month and day, in
/// seconds since the epoch.
pub open spec fn seconds_of_date_text(text: Seq<char>) -> Option<int> {
    match day_number_of_date_text(text, date_format()) {
        Some(day) => Some((day - EPOCH_DAY) * SECONDS_PER_DAY),
        None => None,
    }
}

/// Reads a date of the form `YYYY-MM-DD` as its midnight in UTC.
pub fn parse_date(text: &str) -> (r: Option<i64>)
    ensures
        r is Some <==> seconds_of_date_text(text@) is Some,
        r matches Some(secs) ==> seconds_of_date_text(text@) == Some(secs as int),
{
    match day_number_from_date_text(text, "%Y-%m-%d") {
        Some(day) => Some((day as i64 - EPOCH_DAY) * SECONDS_PER_DAY),
        None => None,
    }
}

/// The text of the time at which a quote was taken, where it has one.
pub open spec fn time_text_of(timestamp: u64) -> Option<Seq<char>> {
    if timestamp <= i64::MAX {
        rfc3339_text(timestamp as int)
    } else {
        None
    }
}

/// Whether `text` is the view of what `r` holds.
pub open spec fn holds_text(r: Option<String>, text: Option<Seq<char>>) -> bool {
    match r {
        Some(s) => text == Some(s@),
        None => text is None,
    }
}

/// Writes the time at which a quote was taken as an RFC 3339 timestamp in
/// UTC. Gives `None` for a time beyond the calendar.
pub fn time_text(timestamp: u64) -> (r: Option<String>)
    ensures
        holds_text(r, time_text_of(timestamp)),
{
    if timestamp <= i64::MAX as u64 {
        rfc3339_of_seconds(timestamp as i64)
    } else {
        None
    }
}

/// The start of a period as given on the command line: a full timestamp, or
/// else a date, which stands for its midnight in UTC.
pub open spec fn period_start_of(text: Seq<char>) -> Option<int> {
    match seconds_of_timestamp_text(text) {
        Some(secs) => Some(secs),
        None => seconds_of_date_text(text),
    }
}

/// Reads the start of a period: a timestamp such as `2020-07-01T12:00:00Z`,
/// or a date such as `2020-07-01`. Gives `None` for any other text.
pub fn parse_period_start(text: &str) -> (r: Option<i64>)
    ensures
        r is Some <==> period_start_of(text@) is Some,
        r matches Some(secs) ==> period_start_of(text@) == Some(secs as int),
{
    match seconds_from_timestamp_text(text) {
        Some(secs) => Some(secs),
        None => parse_date(text),
    }
}

} // verus!
