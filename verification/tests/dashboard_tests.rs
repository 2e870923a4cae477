use car_logger::application::ScoreGranularity;
use car_logger::score_periods::{period_bounds, period_is_defined, PeriodBounds, PeriodEnd};
use car_logger::time::Timestamp;
use car_logger::calendar::{
    day_number_of, is_valid_date, CalendarDate, MAX_DAY_NUMBER, MIN_DAY_NUMBER,
};
use car_logger::vehicle_data::{period_range, previous_range, DashboardPeriod, DateRange};

fn date(year: i32, month: u32, day: u32) -> CalendarDate {
    CalendarDate { year, month, day }
}

#[test]
fn periods_and_validation() {
    let today = date(2026, 7, 12);
    let r = period_range(DashboardPeriod::Last12Months, today, None);
    assert_eq!(r.start, date(2025, 8, 1));
    assert!(r.in_progress);
    assert!(previous_range(DashboardPeriod::All, r).is_none());
}

#[test]
fn day_numbers_count_from_the_first_of_year_one() {
    assert_eq!(day_number_of(date(1970, 1, 1)), 719_163);
    assert_eq!(day_number_of(date(2, 1, 1)), 366);
    assert_eq!(day_number_of(date(1, 1, 1)), 1);
    assert_eq!(day_number_of(date(0, 1, 1)), -365);
    assert_eq!(day_number_of(date(2024, 3, 1)) - day_number_of(date(2024, 2, 28)), 2);
    assert_eq!(day_number_of(date(2100, 3, 1)) - day_number_of(date(2100, 2, 28)), 1);
    assert_eq!(day_number_of(date(-262143, 1, 1)), MIN_DAY_NUMBER);
    assert_eq!(day_number_of(date(262142, 12, 31)), MAX_DAY_NUMBER);
}

#[test]
fn the_day_after_crosses_months_years_and_leap_days() {
    for (today, next) in [
        (date(2024, 2, 28), date(2024, 2, 29)),
        (date(2023, 2, 28), date(2023, 3, 1)),
        (date(2025, 12, 31), date(2026, 1, 1)),
        (date(-44, 3, 15), date(-44, 3, 16)),
    ] {
        let r = period_range(DashboardPeriod::All, today, Some(today));
        assert_eq!(r.end_exclusive, next);
        assert_eq!(day_number_of(next), day_number_of(today) + 1);
    }
}

#[test]
fn rolling_periods_start_on_the_first_of_a_month() {
    let today = date(2026, 3, 31);
    let r = period_range(DashboardPeriod::Last6Months, today, None);
    assert_eq!(r, DateRange { start: date(2025, 10, 1), end_exclusive: date(2026, 4, 1), in_progress: true });
    let r = period_range(DashboardPeriod::Last12Months, date(2026, 12, 5), None);
    assert_eq!(r.start, date(2026, 1, 1));
    assert_eq!(r.end_exclusive, date(2027, 1, 1));
}

#[test]
fn year_and_all_periods() {
    let today = date(2026, 12, 31);
    let r = period_range(DashboardPeriod::Year(2026), today, None);
    assert_eq!(r, DateRange { start: date(2026, 1, 1), end_exclusive: date(2027, 1, 1), in_progress: true });
    let r = period_range(DashboardPeriod::Year(2025), today, None);
    assert!(!r.in_progress);
    let r = period_range(DashboardPeriod::All, today, Some(date(2020, 5, 3)));
    assert_eq!(r, DateRange { start: date(2020, 5, 3), end_exclusive: date(2027, 1, 1), in_progress: true });
    let r = period_range(DashboardPeriod::All, date(2024, 2, 28), None);
    assert_eq!(r.start, date(2024, 2, 1));
    assert_eq!(r.end_exclusive, date(2024, 2, 29));
}

#[test]
fn previous_periods_end_where_the_shown_one_starts() {
    let r = period_range(DashboardPeriod::Last6Months, date(2026, 7, 12), None);
    let p = previous_range(DashboardPeriod::Last6Months, r).unwrap();
    assert_eq!(p.end_exclusive, r.start);
    assert!(!p.in_progress);
    let shown = day_number_of(r.end_exclusive) - day_number_of(r.start);
    assert_eq!(day_number_of(p.end_exclusive) - day_number_of(p.start), shown);
    assert_eq!(p.start, date(2025, 8, 4));

    let y = period_range(DashboardPeriod::Year(2026), date(2026, 7, 12), None);
    let p = previous_range(DashboardPeriod::Year(2026), y).unwrap();
    assert_eq!(p, DateRange { start: date(2025, 1, 1), end_exclusive: date(2026, 1, 1), in_progress: false });
}

#[test]
fn scoring_periods_start_on_local_boundaries() {
    let start = Timestamp::from_nanos(1_000).unwrap();
    let end = Timestamp::from_nanos(2_000).unwrap();
    let thursday = date(1970, 1, 1);
    match period_bounds(ScoreGranularity::Session, start, end, thursday, 9) {
        PeriodBounds::Exact(s, e) => {
            assert_eq!(s, start);
            assert_eq!(e.nanos(), 1_000 + 1_000_000);
        }
        other => panic!("unexpected {other:?}"),
    }
    match period_bounds(ScoreGranularity::Week, start, end, thursday, 9) {
        PeriodBounds::Local { date: d, hour, end: PeriodEnd::After(span) } => {
            assert_eq!(d, date(1969, 12, 29));
            assert_eq!(hour, 0);
            assert_eq!(span.as_secs(), 7 * 86_400);
        }
        other => panic!("unexpected {other:?}"),
    }
    assert_eq!(
        period_bounds(ScoreGranularity::Month, start, end, date(2025, 12, 31), 23),
        PeriodBounds::Local { date: date(2025, 12, 1), hour: 0, end: PeriodEnd::LocalMidnight(date(2026, 1, 1)) }
    );
    assert_eq!(
        period_bounds(ScoreGranularity::Year, start, end, date(2025, 6, 2), 23),
        PeriodBounds::Local { date: date(2025, 1, 1), hour: 0, end: PeriodEnd::LocalMidnight(date(2026, 1, 1)) }
    );
    match period_bounds(ScoreGranularity::Hour, start, end, thursday, 9) {
        PeriodBounds::Local { date: d, hour, end: PeriodEnd::After(span) } => {
            assert_eq!((d, hour, span.as_secs()), (thursday, 9, 3_600));
        }
        other => panic!("unexpected {other:?}"),
    }
}

#[test]
fn periods_past_the_supported_dates_are_not_defined() {
    let d = |year, month, day| CalendarDate { year, month, day };
    let t = Timestamp::from_nanos(0).unwrap();
    assert!(is_valid_date(d(2024, 2, 29)));
    assert!(!is_valid_date(d(2023, 2, 29)));
    assert!(!is_valid_date(d(262143, 1, 1)));
    assert!(period_is_defined(ScoreGranularity::Month, t, d(2024, 12, 31), 23));
    assert!(!period_is_defined(ScoreGranularity::Month, t, d(262142, 12, 31), 0));
    assert!(period_is_defined(ScoreGranularity::Month, t, d(262142, 11, 30), 0));
    assert!(!period_is_defined(ScoreGranularity::Year, t, d(262142, 1, 1), 0));
    assert!(!period_is_defined(ScoreGranularity::Hour, t, d(2024, 1, 1), 24));
    // January 1 of year -262143 is a Thursday: its week began before the
    // first supported date; the following Monday starts a week of its own.
    assert_eq!(day_number_of(d(-262143, 1, 1)), MIN_DAY_NUMBER);
    assert!(!period_is_defined(ScoreGranularity::Week, t, d(-262143, 1, 1), 0));
    assert!(period_is_defined(ScoreGranularity::Week, t, d(-262143, 1, 5), 0));
    let last = Timestamp::from_nanos(8_210_266_876_799_999_999_999).unwrap();
    assert!(!period_is_defined(ScoreGranularity::Session, last, d(262142, 12, 31), 23));
    assert!(period_is_defined(ScoreGranularity::Session, t, d(1970, 1, 1), 0));
}
