//! The period a driving session is scored in.  Calendar periods begin at a
//! local hour, midnight, Monday, the first of the month or January 1; the
//! caller turns these local times into instants with the machine's time
//! zone.

use vstd::prelude::*;
use crate::application::ScoreGranularity;
use crate::calendar::{
    date_of_day_number, day_number, day_number_of, is_valid_date, valid_date, CalendarDate,
    MAX_CALENDAR_YEAR,
    MIN_DAY_NUMBER,
};
use crate::time::{timestamp_in_range, Duration, Timestamp, NANOS_PER_SEC};

verus! {

/// Where a calendar period ends.
#[derive(Debug, Clone, Copy, PartialEq, Eq, Structural)]
pub enum PeriodEnd {
    /// This long after the period's start.
    After(Duration),
    /// At local midnight of this date.
    LocalMidnight(CalendarDate),
}

/// The bounds of a scoring period.
#[derive(Debug, Clone, Copy, PartialEq, Eq, Structural)]
pub enum PeriodBounds {
    /// A session is its own period, at least a millisecond long.
    Exact(Timestamp, Timestamp),
    /// A calendar period starting at the given local date and hour.
    Local { date: CalendarDate, hour: u32, end: PeriodEnd },
}

/// Day of the week of a day number, Monday being 0; January 1 of year 1
/// was a Monday.
pub open spec fn weekday_of(n: int) -> int {
    (n - 1) % 7
}

/// Day of the week of a date, Monday being 0.
pub open spec fn weekday(d: CalendarDate) -> int {
    weekday_of(day_number(d))
}

proof fn lemma_weekday_shift(n: int)
    ensures
        (n - 1 + 7 * 20_000_000) % 7 == weekday_of(n),
{
}

/// A calendar period starting at local `date` and `hour`.
pub open spec fn local_bounds(b: PeriodBounds, date: CalendarDate, hour: u32) -> bool {
    b matches PeriodBounds::Local { date: d, hour: h, end: _ } && d == date && h == hour
}

/// A calendar period `secs` seconds long.
pub open spec fn ends_after(b: PeriodBounds, secs: nat) -> bool {
    b matches PeriodBounds::Local { date: _, hour: _, end: PeriodEnd::After(d) } && d@ == secs * NANOS_PER_SEC
}

/// A calendar period ending at local midnight of `date`.
pub open spec fn ends_at_midnight(b: PeriodBounds, date: CalendarDate) -> bool {
    b matches PeriodBounds::Local { date: _, hour: _, end: PeriodEnd::LocalMidnight(d) } && d == date
}

/// What a granularity needs of the session for its period to exist.
pub open spec fn period_defined(g: ScoreGranularity, start: Timestamp, local_date: CalendarDate, local_hour: u32) -> bool {
    &&& valid_date(local_date)
    &&& local_hour < 24
    &&& match g {
        ScoreGranularity::Session => timestamp_in_range(start@ + 1_000_000),
        ScoreGranularity::Week => day_number(local_date) - weekday(local_date) >= MIN_DAY_NUMBER,
        ScoreGranularity::Month => local_date.month < 12 || local_date.year < MAX_CALENDAR_YEAR,
        ScoreGranularity::Year => local_date.year < MAX_CALENDAR_YEAR,
        _ => true,
    }
}

/// Whether the period of granularity `g` exists for a session starting at
/// `start`, on `local_date` at `local_hour` local time.
pub fn period_is_defined(
    g: ScoreGranularity,
    start: Timestamp,
    local_date: CalendarDate,
    local_hour: u32,
) -> (b: bool)
    ensures
        b == period_defined(g, start, local_date, local_hour),
{
    if !is_valid_date(local_date) || local_hour >= 24 {
        return false;
    }
    match g {
        ScoreGranularity::Session => {
            let n = start.bounded();
            Timestamp::from_nanos(n + 1_000_000).is_some()
        },
        ScoreGranularity::Week => {
            let n = day_number_of(local_date);
            let shifted: i64 = n as i64 - 1 + 7 * 20_000_000;
            let back: i64 = shifted % 7;
            proof {
                lemma_weekday_shift(n as int);
            }
            n as i64 - back >= MIN_DAY_NUMBER as i64
        },
        ScoreGranularity::Month => local_date.month < 12 || local_date.year < MAX_CALENDAR_YEAR,
        ScoreGranularity::Year => local_date.year < MAX_CALENDAR_YEAR,
        _ => true,
    }
}

/// The Monday of the week holding `d`.
#[verifier::rlimit(30)]
pub fn week_start(d: CalendarDate) -> (m: CalendarDate)
    requires
        valid_date(d),
        day_number(d) - weekday(d) >= MIN_DAY_NUMBER,
    ensures
        valid_date(m),
        day_number(m) == day_number(d) - weekday(d),
{
    let n = day_number_of(d);
    // Shifted by whole weeks so that the remainder is taken of a positive
    // number.
    let shifted: i64 = n as i64 - 1 + 7 * 20_000_000;
    let back = (shifted % 7) as i32;
    proof {
        lemma_weekday_shift(n as int);
    }
    match date_of_day_number(n - back) {
        Some(m) => m,
        None => {
            assert(false);
            d
        },
    }
}

/// The period of granularity `g` holding a session from `start` to `end`
/// whose start falls on `local_date` at `local_hour` local time.
pub fn period_bounds(
    g: ScoreGranularity,
    start: Timestamp,
    end: Timestamp,
    local_date: CalendarDate,
    local_hour: u32,
) -> (b: PeriodBounds)
    requires
        period_defined(g, start, local_date, local_hour),
    ensures
        match g {
            ScoreGranularity::Session => b matches PeriodBounds::Exact(s, e) && s == start && e@ == (
            if end@ >= start@ + 1_000_000 {
                end@
            } else {
                start@ + 1_000_000
            }),
            ScoreGranularity::Hour => local_bounds(b, local_date, local_hour) && ends_after(b, 3_600),
            ScoreGranularity::Day => local_bounds(b, local_date, 0) && ends_after(b, 86_400),
            ScoreGranularity::Week => b matches PeriodBounds::Local { date, hour, end } && hour == 0
                && valid_date(date) && day_number(date) == day_number(local_date) - weekday(local_date)
                && ends_after(b, 7 * 86_400),
            ScoreGranularity::Month => local_bounds(
                b,
                CalendarDate { year: local_date.year, month: local_date.month, day: 1 },
                0,
            ) && ends_at_midnight(
                b,
                if local_date.month == 12 {
                    CalendarDate { year: (local_date.year + 1) as i32, month: 1, day: 1 }
                } else {
                    CalendarDate { year: local_date.year, month: (local_date.month + 1) as u32, day: 1 }
                },
            ),
            ScoreGranularity::Year => local_bounds(
                b,
                CalendarDate { year: local_date.year, month: 1, day: 1 },
                0,
            ) && ends_at_midnight(b, CalendarDate { year: (local_date.year + 1) as i32, month: 1, day: 1 }),
        },
{
    match g {
        ScoreGranularity::Session => {
            let least = Timestamp::from_nanos_in_range(start.nanos() + 1_000_000);
            let e = if end.nanos() >= least.nanos() { end } else { least };
            PeriodBounds::Exact(start, e)
        },
        ScoreGranularity::Hour => PeriodBounds::Local {
            date: local_date,
            hour: local_hour,
            end: PeriodEnd::After(Duration::from_secs(3_600)),
        },
        ScoreGranularity::Day => PeriodBounds::Local {
            date: local_date,
            hour: 0,
            end: PeriodEnd::After(Duration::from_secs(86_400)),
        },
        ScoreGranularity::Week => PeriodBounds::Local {
            date: week_start(local_date),
            hour: 0,
            end: PeriodEnd::After(Duration::from_secs(7 * 86_400)),
        },
        ScoreGranularity::Month => {
            let next = if local_date.month == 12 {
                CalendarDate { year: local_date.year + 1, month: 1, day: 1 }
            } else {
                CalendarDate { year: local_date.year, month: local_date.month + 1, day: 1 }
            };
            PeriodBounds::Local {
                date: CalendarDate { year: local_date.year, month: local_date.month, day: 1 },
                hour: 0,
                end: PeriodEnd::LocalMidnight(next),
            }
        },
        ScoreGranularity::Year => PeriodBounds::Local {
            date: CalendarDate { year: local_date.year, month: 1, day: 1 },
            hour: 0,
            end: PeriodEnd::LocalMidnight(CalendarDate { year: local_date.year + 1, month: 1, day: 1 }),
        },
    }
}

} // verus!
