//! Calendar dates of the proleptic Gregorian calendar and their day
//! numbers, with January 1 of year 1 as day 1.  Dates run over the years
//! that `chrono::NaiveDate` can hold.

use vstd::prelude::*;
use chrono::{Datelike, NaiveDate};
use crate::time::{MAX_TIMESTAMP_NANOS, MIN_TIMESTAMP_NANOS, NANOS_PER_DAY};

verus! {

/// The first year a date may lie in.
pub const MIN_CALENDAR_YEAR: i32 = -262143;
/// The last year a date may lie in.
pub const MAX_CALENDAR_YEAR: i32 = 262142;
/// Day number of January 1 of the first year.
pub const MIN_DAY_NUMBER: i32 = -95746129;
/// Day number of December 31 of the last year.
pub const MAX_DAY_NUMBER: i32 = 95745399;

/// A calendar date: year, month from 1, day of the month from 1.
#[derive(Debug, Clone, Copy, PartialEq, Eq, Structural)]
pub struct CalendarDate {
    pub year: i32,
    pub month: u32,
    pub day: u32,
}

pub open spec fn is_leap_year(y: int) -> bool {
    (y % 4 == 0 && y % 100 != 0) || y % 400 == 0
}

pub open spec fn month_length(y: int, m: int) -> int {
    if m == 2 {
        if is_leap_year(y) { 29 } else { 28 }
    } else if m == 4 || m == 6 || m == 9 || m == 11 {
        30
    } else {
        31
    }
}

/// The date exists and lies in the supported years.
pub open spec fn valid_date(d: CalendarDate) -> bool {
    &&& MIN_CALENDAR_YEAR <= d.year <= MAX_CALENDAR_YEAR
    &&& 1 <= d.month <= 12
    &&& 1 <= d.day <= month_length(d.year as int, d.month as int)
}

/// Days of the year before the first of month `m`.
pub open spec fn days_before_month(y: int, m: int) -> int {
    let common = if m == 1 {
        0int
    } else if m == 2 {
        31
    } else if m == 3 {
        59
    } else if m == 4 {
        90
    } else if m == 5 {
        120
    } else if m == 6 {
        151
    } else if m == 7 {
        181
    } else if m == 8 {
        212
    } else if m == 9 {
        243
    } else if m == 10 {
        273
    } else if m == 11 {
        304
    } else {
        334
    };
    if m > 2 && is_leap_year(y) { common + 1 } else { common }
}

/// The day number of a date: 365 days a year plus one for each leap year
/// before it, then the days of the year up to and including the date.
pub open spec fn day_number(d: CalendarDate) -> int {
    let y = d.year - 1;
    365 * y + y / 4 - y / 100 + y / 400 + days_before_month(d.year as int, d.month as int)
        + d.day
}

/// Whether the date exists and lies in the supported years.
pub fn is_valid_date(d: CalendarDate) -> (b: bool)
    ensures
        b == valid_date(d),
{
    if d.year < MIN_CALENDAR_YEAR || d.year > MAX_CALENDAR_YEAR || d.month < 1 || d.month > 12
        || d.day < 1 {
        return false;
    }
    let leap: bool = (d.year % 4 == 0 && d.year % 100 != 0) || d.year % 400 == 0;
    let len: u32 = if d.month == 2 {
        if leap { 29 } else { 28 }
    } else if d.month == 4 || d.month == 6 || d.month == 9 || d.month == 11 {
        30
    } else {
        31
    };
    d.day <= len
}

/// The day number of a valid date.
#[verifier::rlimit(30)]
pub fn day_number_of(d: CalendarDate) -> (n: i32)
    requires
        valid_date(d),
    ensures
        n == day_number(d),
{
    // Shift the year by whole 400-year cycles so that every quotient below
    // is taken of a non-negative number.
    let shifted: i64 = d.year as i64 - 1 + 400_000;
    let ghost y: int = d.year - 1;
    assert(shifted / 4 == y / 4 + 100_000);
    assert(shifted / 100 == y / 100 + 4_000);
    assert(shifted / 400 == y / 400 + 1_000);
    let leap: bool = (d.year % 4 == 0 && d.year % 100 != 0) || d.year % 400 == 0;
    let common: i64 = match d.month {
        1 => 0,
        2 => 31,
        3 => 59,
        4 => 90,
        5 => 120,
        6 => 151,
        7 => 181,
        8 => 212,
        9 => 243,
        10 => 273,
        11 => 304,
        _ => 334,
    };
    let before: i64 = if d.month > 2 && leap { common + 1 } else { common };
    let n: i64 = 365 * (d.year as i64 - 1) + (shifted / 4 - 100_000) - (shifted / 100 - 4_000)
        + (shifted / 400 - 1_000) + before + d.day as i64;
    n as i32
}

/// `chrono::NaiveDate::from_num_days_from_ce_opt`: the date with the given
/// day number, `None` outside the supported dates; the date is read back
/// by its year, month and day.
#[verifier::external_body]
pub(crate) fn date_of_day_number(n: i32) -> (r: Option<CalendarDate>)
    ensures
        r is Some <==> MIN_DAY_NUMBER <= n <= MAX_DAY_NUMBER,
        r matches Some(d) ==> valid_date(d) && day_number(d) == n,
{
    match NaiveDate::from_num_days_from_ce_opt(n) {
        Some(date) => Some(CalendarDate { year: date.year(), month: date.month(), day: date.day() }),
        None => None,
    }
}

/// The range of timestamps is exactly the instants of the supported dates:
/// it starts at midnight of the first day of the first year and ends at the
/// last nanosecond of the last day of the last year.
pub proof fn law_timestamps_span_the_calendar()
    ensures
        day_number(CalendarDate { year: MIN_CALENDAR_YEAR, month: 1, day: 1 }) == MIN_DAY_NUMBER,
        day_number(CalendarDate { year: MAX_CALENDAR_YEAR, month: 12, day: 31 }) == MAX_DAY_NUMBER,
        MIN_TIMESTAMP_NANOS == (MIN_DAY_NUMBER - day_number(
            CalendarDate { year: 1970, month: 1, day: 1 },
        )) * NANOS_PER_DAY,
        MAX_TIMESTAMP_NANOS == (MAX_DAY_NUMBER - day_number(
            CalendarDate { year: 1970, month: 1, day: 1 },
        ) + 1) * NANOS_PER_DAY - 1,
{
    assert(day_number(CalendarDate { year: MIN_CALENDAR_YEAR, month: 1, day: 1 }) == MIN_DAY_NUMBER);
    assert(day_number(CalendarDate { year: MAX_CALENDAR_YEAR, month: 12, day: 31 }) == MAX_DAY_NUMBER);
    assert(day_number(CalendarDate { year: 1970, month: 1, day: 1 }) == 719163);
}

} // verus!
