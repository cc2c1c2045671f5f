//! Reading date-times from text, and the time between two of them.
//! The grammars themselves (RFC 3339, strftime patterns) are chrono's.

use chrono::{DateTime, Datelike, NaiveDate, NaiveDateTime, Timelike};
use vstd::prelude::*;

use crate::stamp::{stamp_lt, Stamp};
use crate::text::{trim, trimmed};

verus! {

/// A calendar date.
#[derive(Clone, Copy, Debug, PartialEq, Eq, Structural)]
pub struct CalendarDate {
    pub year: i32,
    pub month: u32,
    pub day: u32,
}

/// A time of day; `nano` may reach into a leap second only when `second` is 59.
#[derive(Clone, Copy, Debug, PartialEq, Eq, Structural)]
pub struct TimeOfDay {
    pub hour: u32,
    pub minute: u32,
    pub second: u32,
    pub nano: u32,
}

/// The instant that chrono's `DateTime::parse_from_rfc3339` reads from the
/// text, taken in UTC (`naive_utc`); `None` where chrono refuses the text.
pub uninterp spec fn rfc3339_instant(text: Seq<char>) -> Option<Stamp>;

/// What chrono's `NaiveDateTime::parse_from_str` reads from the text with the
/// given strftime format; `None` where chrono refuses it.
pub uninterp spec fn formatted_instant(text: Seq<char>, format: Seq<char>) -> Option<Stamp>;

/// What chrono's `NaiveDate::parse_from_str` reads from the text with the
/// given strftime format; `None` where chrono refuses it.
pub uninterp spec fn formatted_date(text: Seq<char>, format: Seq<char>) -> Option<CalendarDate>;

/// The whole seconds (`TimeDelta::num_seconds`) from `start` to `end` that
/// chrono's `NaiveDateTime` subtraction gives; `None` where chrono does not
/// accept the fields as a date-time.
pub uninterp spec fn elapsed_whole_seconds(start: Stamp, end: Stamp) -> Option<i64>;

/// chrono's `DateTime::parse_from_rfc3339`, followed by `naive_utc`. The
/// contract only names the result: RFC 3339 and the time-zone shift are
/// chrono's and are not restated here.
#[verifier::external_body]
fn parse_rfc3339_utc(text: &str) -> (res: Option<Stamp>)
    ensures
        res == rfc3339_instant(text@),
{
    match DateTime::parse_from_rfc3339(text) {
        Ok(dt) => {
            let n = dt.naive_utc();
            Some(Stamp { year: n.year(), month: n.month(), day: n.day(), hour: n.hour(),
                minute: n.minute(), second: n.second(), nano: n.nanosecond() })
        },
        Err(_) => None,
    }
}

/// chrono's `NaiveDateTime::parse_from_str`. The contract only names the
/// result: the strftime grammar is chrono's.
#[verifier::external_body]
fn parse_formatted_instant(text: &str, format: &str) -> (res: Option<Stamp>)
    ensures
        res == formatted_instant(text@, format@),
{
    match NaiveDateTime::parse_from_str(text, format) {
        Ok(n) => Some(Stamp { year: n.year(), month: n.month(), day: n.day(), hour: n.hour(),
            minute: n.minute(), second: n.second(), nano: n.nanosecond() }),
        Err(_) => None,
    }
}

/// chrono's `NaiveDate::parse_from_str`. The contract only names the result:
/// the strftime grammar is chrono's.
#[verifier::external_body]
fn parse_formatted_date(text: &str, format: &str) -> (res: Option<CalendarDate>)
    ensures
        res == formatted_date(text@, format@),
{
    match NaiveDate::parse_from_str(text, format) {
        Ok(d) => Some(CalendarDate { year: d.year(), month: d.month(), day: d.day() }),
        Err(_) => None,
    }
}

/// chrono's subtraction of two `NaiveDateTime`s, in whole seconds
/// (`TimeDelta::num_seconds`). The fields are turned back into chrono values
/// with `NaiveDate::from_ymd_opt` and `and_hms_nano_opt`; where chrono refuses
/// them the result is `None`. The contract only names the result.
#[verifier::external_body]
pub(crate) fn whole_seconds_between(start: &Stamp, end: &Stamp) -> (res: Option<i64>)
    ensures
        res == elapsed_whole_seconds(*start, *end),
{
    let a = NaiveDate::from_ymd_opt(start.year, start.month, start.day)?
        .and_hms_nano_opt(start.hour, start.minute, start.second, start.nano)?;
    let b = NaiveDate::from_ymd_opt(end.year, end.month, end.day)?
        .and_hms_nano_opt(end.hour, end.minute, end.second, end.nano)?;
    Some((b - a).num_seconds())
}

/// The times of day that chrono's `NaiveTime::from_hms_nano_opt` accepts.
pub open spec fn valid_time_of_day(hour: u32, minute: u32, second: u32, nano: u32) -> bool {
    &&& hour < 24
    &&& minute < 60
    &&& second < 60
    &&& nano < 2_000_000_000
    &&& (nano >= 1_000_000_000 ==> second == 59)
}

/// Law: a time of day is accepted exactly when the hour is below 24, the
/// minute and second below 60, and the nanosecond below one second, or below
/// two seconds on second 59 (a leap second).
pub proof fn lemma_time_of_day_ranges(hour: u32, minute: u32, second: u32, nano: u32)
    ensures
        hour < 24 && minute < 60 && second < 60 && nano < 1_000_000_000 ==> valid_time_of_day(
            hour,
            minute,
            second,
            nano,
        ),
        hour < 24 && minute < 60 && second == 59 && nano < 2_000_000_000 ==> valid_time_of_day(
            hour,
            minute,
            second,
            nano,
        ),
        valid_time_of_day(hour, minute, second, nano) ==> hour < 24 && minute < 60 && second < 60
            && nano < 2_000_000_000,
        valid_time_of_day(hour, minute, second, nano) && second != 59 ==> nano < 1_000_000_000,
{
}

/// A time of day from its parts, or `None` where the parts are out of range
/// (a leap second is allowed after second 59).
pub fn time_of_day(hour: u32, minute: u32, second: u32, nano: u32) -> (res: Option<TimeOfDay>)
    ensures
        valid_time_of_day(hour, minute, second, nano) ==> res == Some(
            TimeOfDay { hour, minute, second, nano },
        ),
        !valid_time_of_day(hour, minute, second, nano) ==> res is None,
{
    if hour >= 24 || minute >= 60 || second >= 60 || (nano >= 1_000_000_000 && second != 59)
        || nano >= 2_000_000_000 {
        return None;
    }
    Some(TimeOfDay { hour, minute, second, nano })
}

/// The date-time at `time` on `date`.
pub open spec fn spec_at_time(date: CalendarDate, time: TimeOfDay) -> Stamp {
    Stamp {
        year: date.year,
        month: date.month,
        day: date.day,
        hour: time.hour,
        minute: time.minute,
        second: time.second,
        nano: time.nano,
    }
}

/// The date-time at `time` on `date`.
pub fn at_time(date: CalendarDate, time: TimeOfDay) -> (res: Stamp)
    ensures
        res == spec_at_time(date, time),
        res.year == date.year && res.month == date.month && res.day == date.day,
        res.hour == time.hour && res.minute == time.minute && res.second == time.second
            && res.nano == time.nano,
{
    Stamp {
        year: date.year,
        month: date.month,
        day: date.day,
        hour: time.hour,
        minute: time.minute,
        second: time.second,
        nano: time.nano,
    }
}

/// The date-time patterns tried, in order, after RFC 3339.
pub open spec fn datetime_format(i: int) -> Seq<char> {
    if i == 0 {
        "%Y-%m-%d %H:%M:%S%.f"@
    } else if i == 1 {
        "%Y-%m-%d %H:%M:%S"@
    } else if i == 2 {
        "%Y-%m-%d %H:%M"@
    } else if i == 3 {
        "%Y-%m-%dT%H:%M:%S%.f"@
    } else if i == 4 {
        "%Y-%m-%dT%H:%M:%S"@
    } else {
        "%Y-%m-%dT%H:%M"@
    }
}

/// The number of date-time patterns.
pub const DATETIME_FORMATS: usize = 6;

/// The pattern of a date alone.
pub open spec fn date_format() -> Seq<char> {
    "%Y-%m-%d"@
}

/// The `i`-th date-time pattern.
fn datetime_format_text(i: usize) -> (res: &'static str)
    requires
        i < DATETIME_FORMATS,
    ensures
        res@ == datetime_format(i as int),
{
    if i == 0 {
        "%Y-%m-%d %H:%M:%S%.f"
    } else if i == 1 {
        "%Y-%m-%d %H:%M:%S"
    } else if i == 2 {
        "%Y-%m-%d %H:%M"
    } else if i == 3 {
        "%Y-%m-%dT%H:%M:%S%.f"
    } else if i == 4 {
        "%Y-%m-%dT%H:%M:%S"
    } else {
        "%Y-%m-%dT%H:%M"
    }
}

/// What the first of the patterns from the `i`-th on that reads the text gives.
pub open spec fn first_formatted(text: Seq<char>, i: int) -> Option<Stamp>
    decreases DATETIME_FORMATS - i,
{
    if i < 0 || i >= DATETIME_FORMATS {
        None
    } else {
        match formatted_instant(text, datetime_format(i)) {
            Some(s) => Some(s),
            None => first_formatted(text, i + 1),
        }
    }
}

/// Midnight of `date`, or its last nanosecond (23:59:59.999999999) where
/// the date closes a range.
pub open spec fn day_bound(date: CalendarDate, date_only_is_end: bool) -> Stamp {
    if date_only_is_end {
        spec_at_time(date, TimeOfDay { hour: 23, minute: 59, second: 59, nano: 999_999_999 })
    } else {
        spec_at_time(date, TimeOfDay { hour: 0, minute: 0, second: 0, nano: 0 })
    }
}

/// Law: a date alone given as both bounds covers the whole of that day.
/// Every instant on the day, from midnight to the last nanosecond, lies no
/// earlier than the day's start bound and no later than its end bound.
/// (A leap second, with `nano` past one second, lies after the end bound.)
pub proof fn lemma_day_bounds_cover_day(date: CalendarDate, dt: Stamp)
    requires
        dt.year == date.year,
        dt.month == date.month,
        dt.day == date.day,
        dt.hour < 24,
        dt.minute < 60,
        dt.second < 60,
        dt.nano < 1_000_000_000,
    ensures
        !stamp_lt(dt, day_bound(date, false)),
        !stamp_lt(day_bound(date, true), dt),
{
}

/// The date-time a text denotes: after trimming, RFC 3339 first (taken in
/// UTC), then the six date-time patterns in order, then a date alone, which
/// stands for the start of that day, or for its end where `date_only_is_end`.
pub open spec fn datetime_value(value: Seq<char>, date_only_is_end: bool) -> Option<Stamp> {
    let t = trimmed(value);
    if t.len() == 0 {
        None
    } else if rfc3339_instant(t) is Some {
        rfc3339_instant(t)
    } else if first_formatted(t, 0) is Some {
        first_formatted(t, 0)
    } else {
        match formatted_date(t, date_format()) {
            Some(d) => Some(day_bound(d, date_only_is_end)),
            None => None,
        }
    }
}

/// Law: how a text reads. Blank text reads as nothing. Otherwise, after
/// trimming, an RFC 3339 date-time wins; failing that, the first of the
/// patterns `%Y-%m-%d %H:%M:%S%.f`, `%Y-%m-%d %H:%M:%S`, `%Y-%m-%d %H:%M`,
/// `%Y-%m-%dT%H:%M:%S%.f`, `%Y-%m-%dT%H:%M:%S`, `%Y-%m-%dT%H:%M` (in that
/// order) that reads the text gives its instant; failing all of them, a date
/// alone (`%Y-%m-%d`) gives midnight of that day, or 23:59:59.999999999 where
/// it closes a range; and where nothing reads it, it reads as nothing.
pub proof fn lemma_datetime_reading(value: Seq<char>, date_only_is_end: bool)
    ensures
        trimmed(value).len() == 0 ==> datetime_value(value, date_only_is_end) is None,
        trimmed(value).len() > 0 && rfc3339_instant(trimmed(value)) is Some ==> datetime_value(
            value,
            date_only_is_end,
        ) == rfc3339_instant(trimmed(value)),
        trimmed(value).len() > 0 && rfc3339_instant(trimmed(value)) is None && formatted_instant(
            trimmed(value),
            "%Y-%m-%d %H:%M:%S%.f"@,
        ) is Some ==> datetime_value(value, date_only_is_end) == formatted_instant(
            trimmed(value),
            "%Y-%m-%d %H:%M:%S%.f"@,
        ),
        trimmed(value).len() > 0 && rfc3339_instant(trimmed(value)) is None && formatted_instant(
            trimmed(value),
            "%Y-%m-%d %H:%M:%S%.f"@,
        ) is None && formatted_instant(trimmed(value), "%Y-%m-%d %H:%M:%S"@) is Some
            ==> datetime_value(value, date_only_is_end) == formatted_instant(
            trimmed(value),
            "%Y-%m-%d %H:%M:%S"@,
        ),
        trimmed(value).len() > 0 && rfc3339_instant(trimmed(value)) is None && formatted_instant(
            trimmed(value),
            "%Y-%m-%d %H:%M:%S%.f"@,
        ) is None && formatted_instant(trimmed(value), "%Y-%m-%d %H:%M:%S"@) is None
            && formatted_instant(trimmed(value), "%Y-%m-%d %H:%M"@) is Some ==> datetime_value(
            value,
            date_only_is_end,
        ) == formatted_instant(trimmed(value), "%Y-%m-%d %H:%M"@),
        trimmed(value).len() > 0 && rfc3339_instant(trimmed(value)) is None && formatted_instant(
            trimmed(value),
            "%Y-%m-%d %H:%M:%S%.f"@,
        ) is None && formatted_instant(trimmed(value), "%Y-%m-%d %H:%M:%S"@) is None
            && formatted_instant(trimmed(value), "%Y-%m-%d %H:%M"@) is None && formatted_instant(
            trimmed(value),
            "%Y-%m-%dT%H:%M:%S%.f"@,
        ) is Some ==> datetime_value(value, date_only_is_end) == formatted_instant(
            trimmed(value),
            "%Y-%m-%dT%H:%M:%S%.f"@,
        ),
        trimmed(value).len() > 0 && rfc3339_instant(trimmed(value)) is None && formatted_instant(
            trimmed(value),
            "%Y-%m-%d %H:%M:%S%.f"@,
        ) is None && formatted_instant(trimmed(value), "%Y-%m-%d %H:%M:%S"@) is None
            && formatted_instant(trimmed(value), "%Y-%m-%d %H:%M"@) is None && formatted_instant(
            trimmed(value),
            "%Y-%m-%dT%H:%M:%S%.f"@,
        ) is None && formatted_instant(trimmed(value), "%Y-%m-%dT%H:%M:%S"@) is Some
            ==> datetime_value(value, date_only_is_end) == formatted_instant(
            trimmed(value),
            "%Y-%m-%dT%H:%M:%S"@,
        ),
        trimmed(value).len() > 0 && rfc3339_instant(trimmed(value)) is None && formatted_instant(
            trimmed(value),
            "%Y-%m-%d %H:%M:%S%.f"@,
        ) is None && formatted_instant(trimmed(value), "%Y-%m-%d %H:%M:%S"@) is None
            && formatted_instant(trimmed(value), "%Y-%m-%d %H:%M"@) is None && formatted_instant(
            trimmed(value),
            "%Y-%m-%dT%H:%M:%S%.f"@,
        ) is None && formatted_instant(trimmed(value), "%Y-%m-%dT%H:%M:%S"@) is None
            && formatted_instant(trimmed(value), "%Y-%m-%dT%H:%M"@) is Some ==> datetime_value(
            value,
            date_only_is_end,
        ) == formatted_instant(trimmed(value), "%Y-%m-%dT%H:%M"@),
        trimmed(value).len() > 0 && rfc3339_instant(trimmed(value)) is None && formatted_instant(
            trimmed(value),
            "%Y-%m-%d %H:%M:%S%.f"@,
        ) is None && formatted_instant(trimmed(value), "%Y-%m-%d %H:%M:%S"@) is None
            && formatted_instant(trimmed(value), "%Y-%m-%d %H:%M"@) is None && formatted_instant(
            trimmed(value),
            "%Y-%m-%dT%H:%M:%S%.f"@,
        ) is None && formatted_instant(trimmed(value), "%Y-%m-%dT%H:%M:%S"@) is None
            && formatted_instant(trimmed(value), "%Y-%m-%dT%H:%M"@) is None ==> match formatted_date(
            trimmed(value),
            "%Y-%m-%d"@,
        ) {
            Some(d) => datetime_value(value, date_only_is_end) == Some(
                if date_only_is_end {
                    Stamp {
                        year: d.year,
                        month: d.month,
                        day: d.day,
                        hour: 23,
                        minute: 59,
                        second: 59,
                        nano: 999_999_999,
                    }
                } else {
                    Stamp {
                        year: d.year,
                        month: d.month,
                        day: d.day,
                        hour: 0,
                        minute: 0,
                        second: 0,
                        nano: 0,
                    }
                },
            ),
            None => datetime_value(value, date_only_is_end) is None,
        },
{
    reveal_with_fuel(first_formatted, 7);
}

/// Reads a date-time from text; `None` where nothing reads it.
pub fn parse_datetime_value(value: &str, date_only_is_end: bool) -> (res: Option<Stamp>)
    ensures
        res == datetime_value(value@, date_only_is_end),
{
    let t = trim(value);
    if t.unicode_len() == 0 {
        return None;
    }
    let r = parse_rfc3339_utc(t);
    if r.is_some() {
        return r;
    }
    let mut i: usize = 0;
    while i < DATETIME_FORMATS
        invariant
            i <= DATETIME_FORMATS,
            t@ == trimmed(value@),
            t@.len() > 0,
            rfc3339_instant(t@) is None,
            first_formatted(t@, 0) == first_formatted(t@, i as int),
        decreases DATETIME_FORMATS - i,
    {
        let f = parse_formatted_instant(t, datetime_format_text(i));
        assert(f == formatted_instant(t@, datetime_format(i as int)));
        if f.is_some() {
            assert(first_formatted(t@, i as int) == f);
            return f;
        }
        i = i + 1;
    }
    match parse_formatted_date(t, "%Y-%m-%d") {
        Some(date) => {
            let time = if date_only_is_end {
                time_of_day(23, 59, 59, 999_999_999)
            } else {
                time_of_day(0, 0, 0, 0)
            };
            match time {
                Some(tm) => Some(at_time(date, tm)),
                None => None,
            }
        },
        None => None,
    }
}

} // verus!
