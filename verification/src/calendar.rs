//! The calendar, which the library has from the `chrono` crate. Each
//! function that calls `chrono` states what `chrono` documents, and nothing
//! is proved of it; [`local_time_of`] alone is proved, from what is stated
//! of the local clock.

use vstd::prelude::*;
use chrono::{DateTime, Datelike, Local, NaiveDateTime, TimeZone, Timelike};
use crate::time::MAX_TIME;

verus! {

/// The error that `chrono` gives for a text that it cannot read as a time.
#[verifier::external_type_specification]
#[verifier::external_body]
pub struct ExParseError(chrono::format::ParseError);

/// A day of the calendar.
#[derive(Clone, Copy, PartialEq, Eq, Structural, Debug)]
pub struct Date {
    pub year: i32,
    pub month: u32,
    pub day: u32,
}

/// A time on the local clock.
#[derive(Clone, Copy, PartialEq, Eq, Structural, Debug)]
pub struct LocalTime {
    pub year: i32,
    /// Month of the year, from 1.
    pub month: u32,
    /// Day of the month, from 1.
    pub day: u32,
    /// Day of the year, from 0.
    pub ordinal0: u32,
    /// Day of the week, from 0 for Monday.
    pub weekday: u32,
    pub hour: u32,
    pub minute: u32,
}

impl LocalTime {
    /// The day of the calendar.
    pub open spec fn date(&self) -> Date {
        Date { year: self.year, month: self.month, day: self.day }
    }

    /// Each part is within the range that the calendar gives it.
    pub open spec fn wf(&self) -> bool {
        &&& 1 <= self.month <= 12
        &&& 1 <= self.day <= 31
        &&& self.ordinal0 <= 365
        &&& self.weekday <= 6
        &&& self.hour <= 23
        &&& self.minute <= 59
    }
}

/// The second since the epoch that `text` stands for when it is read as
/// year, month, day, hour and minute, in digits without separators, in UTC;
/// none where `chrono` does not read it so.
pub uninterp spec fn minute_stamp(text: Seq<char>) -> Option<int>;

/// The second since the epoch that `text` stands for when it is read as
/// year, month, day, hour, minute and second, in digits without separators,
/// in UTC; none where `chrono` does not read it so.
pub uninterp spec fn second_stamp(text: Seq<char>) -> Option<int>;

/// The day of the year, from 0, that holds the second `t` since the epoch,
/// in UTC; none where `chrono` has no date for it.
pub uninterp spec fn utc_ordinal0(t: int) -> Option<int>;

/// `chrono::NaiveDateTime::parse_from_str` with the format `%Y%m%d%H%M`,
/// the result taken as UTC and given in seconds since the epoch. The
/// contract only names the result: the same text gives the same time.
#[verifier::external_body]
pub(crate) fn parse_minute_stamp(text: &str) -> (r: Result<i64, chrono::format::ParseError>)
    ensures
        match r {
            Ok(t) => minute_stamp(text@) == Some(t as int),
            Err(_) => minute_stamp(text@).is_none(),
        },
{
    match NaiveDateTime::parse_from_str(text, "%Y%m%d%H%M") {
        Ok(d) => Ok(d.and_utc().timestamp()),
        Err(e) => Err(e),
    }
}

/// `chrono::NaiveDateTime::parse_from_str` with the format
/// `%Y%m%d%H%M%S`, the result taken as UTC and given in seconds since the
/// epoch. The contract only names the result.
#[verifier::external_body]
pub(crate) fn parse_second_stamp(text: &str) -> (r: Result<i64, chrono::format::ParseError>)
    ensures
        match r {
            Ok(t) => second_stamp(text@) == Some(t as int),
            Err(_) => second_stamp(text@).is_none(),
        },
{
    match NaiveDateTime::parse_from_str(text, "%Y%m%d%H%M%S") {
        Ok(d) => Ok(d.and_utc().timestamp()),
        Err(e) => Err(e),
    }
}

/// The message of a `chrono::format::ParseError`, by its `Display`. Nothing
/// is claimed of the text.
#[verifier::external_body]
pub(crate) fn parse_error_text(e: &chrono::format::ParseError) -> String {
    format!("{}", e)
}

/// `chrono::DateTime::from_timestamp` and `chrono::Datelike::ordinal0`: the
/// day of the year in UTC, which `chrono` documents to range from 0 to 365,
/// and no day where the second is out of `chrono`'s range.
#[verifier::external_body]
pub(crate) fn ordinal0_at(t: i64) -> (r: Option<u32>)
    ensures
        r matches Some(d) ==> d <= 365,
        match r {
            Some(d) => utc_ordinal0(t as int) == Some(d as int),
            None => utc_ordinal0(t as int).is_none(),
        },
{
    match DateTime::from_timestamp(t, 0) {
        Some(d) => Some(d.ordinal0()),
        None => None,
    }
}

/// `chrono::TimeZone::timestamp_opt` of `chrono::Local`, and the parts of
/// the time it gives. What comes back depends on the time zone of the
/// machine, so the contract states the ranges that `chrono` documents for
/// the parts, and that there is a local time for every second from the
/// epoch to the end of the year 9999: `chrono` has a time in UTC for each of
/// them, and gives a single local time wherever it has one in UTC.
#[verifier::external_body]
pub(crate) fn local_time(t: i64) -> (r: Option<LocalTime>)
    ensures
        r matches Some(l) ==> l.wf(),
        0 <= t <= MAX_TIME ==> r.is_some(),
{
    let d = Local.timestamp_opt(t, 0).single()?;
    let (year, month, day, ordinal0) = (d.year(), d.month(), d.day(), d.ordinal0());
    let weekday = d.weekday().num_days_from_monday();
    Some(LocalTime { year, month, day, ordinal0, weekday, hour: d.hour(), minute: d.minute() })
}

/// What the local clock may answer for the second `t` since the epoch: a
/// time whose parts are within their ranges. There is an answer for every
/// second up to the end of the year 9999, and none for a second that the
/// clock cannot be asked for.
pub open spec fn local_answer(t: u64, r: Option<LocalTime>) -> bool {
    &&& r matches Some(l) ==> l.wf()
    &&& t <= MAX_TIME ==> r.is_some()
    &&& t > i64::MAX ==> r.is_none()
}

/// The time on the local clock at the second `t` since the epoch.
pub fn local_time_of(t: u64) -> (r: Option<LocalTime>)
    ensures
        local_answer(t, r),
{
    if t <= i64::MAX as u64 {
        local_time(t as i64)
    } else {
        None
    }
}

} // verus!
