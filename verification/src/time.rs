//! Reading and showing times of day and dates, by way of `chrono`.
//!
//! The calendar and the patterns are `chrono`'s. What it returns is known
//! here by name only: each name stands for the result of one of its
//! functions, which depends on the arguments alone.

use vstd::prelude::*;
use chrono::{Datelike, FixedOffset, NaiveDate, NaiveTime, TimeZone, Timelike};
use crate::context::Date;
use crate::event::{text_of, Time};

verus! {

/// A time of day.
#[derive(Clone, Copy, Debug, PartialEq, Eq, Structural)]
pub struct Clock {
    pub hour: u32,
    pub minute: u32,
    pub second: u32,
}

/// The date that `chrono` reads from `text` under the pattern `format`, or
/// `None` where the text does not follow the pattern or names no date.
pub uninterp spec fn date_read(text: Seq<char>, format: Seq<char>) -> Option<Date>;

/// The time of day that `chrono` reads from `text` under the pattern
/// `format`, or `None` where the text does not follow the pattern.
pub uninterp spec fn clock_read(text: Seq<char>, format: Seq<char>) -> Option<Clock>;

/// The seconds since the Unix epoch at which a clock `offset` seconds west of
/// UTC shows the date `date` and the time `clock`, or `None` where there is
/// no such offset, date or time, or the instant is beyond `chrono`'s range.
pub uninterp spec fn instant_at(offset: i32, date: Date, clock: Clock) -> Option<i64>;

/// What a clock `offset` seconds west of UTC shows at `timestamp` seconds
/// since the Unix epoch, written under the pattern `format`, or `None` where
/// there is no such offset, the instant is beyond `chrono`'s range or the
/// pattern cannot be written.
pub uninterp spec fn instant_shown(offset: i32, timestamp: i64, format: Seq<char>) -> Option<
    Seq<char>,
>;

/// Calls `chrono::NaiveDate::parse_from_str` and hands back the year, month
/// and day of the date it read. The result is `date_read` of the arguments;
/// nothing more is claimed of it.
#[verifier::external_body]
pub(crate) fn read_date(text: &str, format: &str) -> (r: Option<Date>)
    ensures
        r == date_read(text@, format@),
{
    match NaiveDate::parse_from_str(text, format) {
        Ok(d) => Some(Date { year: d.year(), month: d.month(), day: d.day() }),
        Err(_) => None,
    }
}

/// Calls `chrono::NaiveTime::parse_from_str` and hands back the hour, minute
/// and second of the time it read. The result is `clock_read` of the
/// arguments; nothing more is claimed of it.
#[verifier::external_body]
fn read_clock(text: &str, format: &str) -> (r: Option<Clock>)
    ensures
        r == clock_read(text@, format@),
{
    match NaiveTime::parse_from_str(text, format) {
        Ok(t) => Some(Clock { hour: t.hour(), minute: t.minute(), second: t.second() }),
        Err(_) => None,
    }
}

/// Calls `chrono::TimeZone::with_ymd_and_hms` on the fixed offset `offset`
/// seconds west of UTC and hands back the timestamp of the one instant it
/// found. The result is `instant_at` of the arguments; nothing more is
/// claimed of it.
#[verifier::external_body]
fn find_instant(offset: i32, date: Date, clock: Clock) -> (r: Option<i64>)
    ensures
        r == instant_at(offset, date, clock),
{
    let zone = FixedOffset::west_opt(offset)?;
    let found = zone.with_ymd_and_hms(
        date.year,
        date.month,
        date.day,
        clock.hour,
        clock.minute,
        clock.second,
    );
    match found.single() {
        Some(moment) => Some(moment.timestamp()),
        None => None,
    }
}

/// Calls `chrono::DateTime::format` on the instant `timestamp` as seen
/// `offset` seconds west of UTC and hands back the text written. The result
/// is `instant_shown` of the arguments; nothing more is claimed of it.
#[verifier::external_body]
fn show_instant(offset: i32, timestamp: i64, format: &str) -> (r: Option<String>)
    ensures
        text_of(r) == instant_shown(offset, timestamp, format@),
{
    let zone = FixedOffset::west_opt(offset)?;
    let moment = zone.timestamp_opt(timestamp, 0).single()?;
    let mut text = String::new();
    match moment.format(format).write_to(&mut text) {
        Ok(()) => Some(text),
        Err(_) => None,
    }
}

/// The instant at which a clock `offset` seconds west of UTC shows the day
/// `day` and the time written in `text` under `format`. There is none
/// without a day.
pub open spec fn moment(offset: i32, day: Option<Date>, text: Seq<char>, format: Seq<char>)
    -> Option<Time> {
    match day {
        None => None,
        Some(date) => match clock_read(text, format) {
            None => None,
            Some(clock) => match instant_at(offset, date, clock) {
                None => None,
                Some(timestamp) => Some(Time { timestamp, offset }),
            },
        },
    }
}

impl Time {
    /// Resolves the time of day written in `text` under `format`, on the day
    /// `day`, for a clock `offset` seconds west of UTC.
    pub fn from_format(offset: i32, day: Option<Date>, text: &str, format: &str) -> (r: Option<
        Time,
    >)
        ensures
            r == moment(offset, day, text@, format@),
    {
        match day {
            None => None,
            Some(date) => match read_clock(text, format) {
                None => None,
                Some(clock) => match find_instant(offset, date, clock) {
                    None => None,
                    Some(timestamp) => Some(Time { timestamp, offset }),
                },
            },
        }
    }

    /// This instant as a clock `offset` seconds west of UTC shows it,
    /// written under the pattern `format`.
    pub fn with_format(&self, offset: i32, format: &str) -> (r: Option<String>)
        ensures
            text_of(r) == instant_shown(offset, self.timestamp, format@),
    {
        show_instant(offset, self.timestamp, format)
    }
}

} // verus!
