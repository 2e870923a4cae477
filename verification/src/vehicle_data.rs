//! Records kept per vehicle: refuel candidates, distance sources, scan and
//! attribute records, and the codes they are stored under.

use vstd::prelude::*;
use crate::calendar::{
    date_of_day_number, day_number, day_number_of, valid_date, CalendarDate, MAX_CALENDAR_YEAR,
    MAX_DAY_NUMBER, MIN_CALENDAR_YEAR, MIN_DAY_NUMBER,
};
use crate::domain::VehicleId;
use crate::text::str_eq;

verus! {

pub const DEFAULT_VEHICLE_KEY: &'static str = "default";

#[derive(Debug, Clone, Copy, PartialEq, Eq, Structural)]
pub enum DataQuality {
    Measured,
    Estimated,
    Mixed,
    Missing,
}

#[derive(Debug, Clone, Copy, PartialEq, Eq, Structural)]
pub enum DistanceSource {
    ObdOdometer,
    SpeedIntegrated,
}

#[derive(Debug, Clone, Copy, PartialEq, Eq, Structural)]
pub enum DashboardPeriod {
    Last6Months,
    Last12Months,
    Year(i32),
    All,
}

pub open spec fn source_name(v: DistanceSource) -> Seq<char> {
    match v {
        DistanceSource::ObdOdometer => "obd_odometer"@,
        DistanceSource::SpeedIntegrated => "speed_integrated"@,
    }
}

/// The stored spelling of a distance source.
pub fn source_str(v: DistanceSource) -> (s: &'static str)
    ensures
        s@ == source_name(v),
{
    match v {
        DistanceSource::ObdOdometer => "obd_odometer",
        DistanceSource::SpeedIntegrated => "speed_integrated",
    }
}

pub open spec fn quality_name(v: DataQuality) -> Seq<char> {
    match v {
        DataQuality::Measured => "measured"@,
        DataQuality::Estimated => "estimated"@,
        DataQuality::Mixed => "mixed"@,
        DataQuality::Missing => "missing"@,
    }
}

/// The stored spelling of a data quality.
pub fn quality_str(v: DataQuality) -> (s: &'static str)
    ensures
        s@ == quality_name(v),
{
    match v {
        DataQuality::Measured => "measured",
        DataQuality::Estimated => "estimated",
        DataQuality::Mixed => "mixed",
        DataQuality::Missing => "missing",
    }
}

/// The month `delta` months away from the given one, as year and month
/// (counted from 1); the month index `year * 12 + month - 1` moves by
/// exactly `delta`.
pub fn shift_month(year: i32, month: u32, delta: i32) -> (r: (i32, u32))
    requires
        1 <= month <= 12,
        i32::MIN <= year * 12 <= i32::MAX,
        i32::MIN <= year * 12 + month - 1 <= i32::MAX,
        i32::MIN <= year * 12 + month - 1 + delta <= i32::MAX,
    ensures
        1 <= r.1 <= 12,
        r.0 * 12 + r.1 - 1 == year * 12 + month - 1 + delta,
{
    let total: i32 = year * 12 + (month - 1) as i32 + delta;
    let mut y = total / 12;
    let mut m = total % 12;
    if m < 0 {
        m = m + 12;
        y = y - 1;
    }
    (y, (m + 1) as u32)
}

/// Calendar days shown by a dashboard period: from `start` up to, but not
/// including, `end_exclusive`; `in_progress` while the period has not ended.
#[derive(Debug, Clone, Copy, PartialEq, Eq, Structural)]
pub struct DateRange {
    pub start: CalendarDate,
    pub end_exclusive: CalendarDate,
    pub in_progress: bool,
}

/// Index of the month of a date, counted in months from January of year 0.
pub open spec fn month_index(d: CalendarDate) -> int {
    d.year * 12 + d.month - 1
}

/// The first day of the month `delta` months away from the month of `d`.
pub open spec fn shifted_month_start(d: CalendarDate, delta: int) -> CalendarDate {
    let i = month_index(d) + delta;
    CalendarDate { year: (i / 12) as i32, month: (i % 12 + 1) as u32, day: 1 }
}

/// The month `delta` months away lies in the supported years.
pub open spec fn month_shift_in_range(d: CalendarDate, delta: int) -> bool {
    MIN_CALENDAR_YEAR * 12 <= month_index(d) + delta <= MAX_CALENDAR_YEAR * 12 + 11
}

fn shift_months(date: CalendarDate, delta: i32) -> (r: CalendarDate)
    requires
        valid_date(date),
        -12 <= delta <= 12,
        month_shift_in_range(date, delta as int),
    ensures
        r == shifted_month_start(date, delta as int),
        valid_date(r),
{
    let (year, month) = shift_month(date.year, date.month, delta);
    CalendarDate { year, month, day: 1 }
}

/// What a period needs of the dates for its range to exist.
pub open spec fn period_range_defined(
    period: DashboardPeriod,
    today: CalendarDate,
    earliest: Option<CalendarDate>,
) -> bool {
    &&& valid_date(today)
    &&& (earliest matches Some(e) ==> valid_date(e))
    &&& match period {
        DashboardPeriod::Last6Months => month_shift_in_range(today, -5) && month_shift_in_range(
            today,
            1,
        ),
        DashboardPeriod::Last12Months => month_shift_in_range(today, -11)
            && month_shift_in_range(today, 1),
        DashboardPeriod::Year(y) => MIN_CALENDAR_YEAR <= y && y + 1 <= MAX_CALENDAR_YEAR,
        DashboardPeriod::All => day_number(today) + 1 <= MAX_DAY_NUMBER,
    }
}

/// The days a dashboard period covers on `today`: the rolling periods run
/// from the first of an earlier month to the first of next month, a year
/// from its January 1 to the next one, and everything from the earliest
/// record (or this month) through today.
pub fn period_range(period: DashboardPeriod, today: CalendarDate, earliest: Option<CalendarDate>) -> (r: DateRange)
    requires
        period_range_defined(period, today, earliest),
    ensures
        valid_date(r.start),
        valid_date(r.end_exclusive),
        match period {
            DashboardPeriod::Last6Months => r == (DateRange {
                start: shifted_month_start(today, -5),
                end_exclusive: shifted_month_start(today, 1),
                in_progress: true,
            }),
            DashboardPeriod::Last12Months => r == (DateRange {
                start: shifted_month_start(today, -11),
                end_exclusive: shifted_month_start(today, 1),
                in_progress: true,
            }),
            DashboardPeriod::Year(y) => r == (DateRange {
                start: CalendarDate { year: y, month: 1, day: 1 },
                end_exclusive: CalendarDate { year: (y + 1) as i32, month: 1, day: 1 },
                in_progress: y == today.year,
            }),
            DashboardPeriod::All => {
                &&& r.start == (match earliest {
                    Some(e) => e,
                    None => shifted_month_start(today, 0),
                })
                &&& day_number(r.end_exclusive) == day_number(today) + 1
                &&& r.in_progress
            },
        },
{
    match period {
        DashboardPeriod::Last6Months => DateRange {
            start: shift_months(today, -5),
            end_exclusive: shift_months(today, 1),
            in_progress: true,
        },
        DashboardPeriod::Last12Months => DateRange {
            start: shift_months(today, -11),
            end_exclusive: shift_months(today, 1),
            in_progress: true,
        },
        DashboardPeriod::Year(year) => DateRange {
            start: CalendarDate { year, month: 1, day: 1 },
            end_exclusive: CalendarDate { year: year + 1, month: 1, day: 1 },
            in_progress: year == today.year,
        },
        DashboardPeriod::All => {
            let start = match earliest {
                Some(e) => e,
                None => shift_months(today, 0),
            };
            let next = date_of_day_number(day_number_of(today) + 1);
            match next {
                Some(end_exclusive) => DateRange { start, end_exclusive, in_progress: true },
                None => {
                    assert(false);
                    DateRange { start, end_exclusive: today, in_progress: true }
                },
            }
        },
    }
}

/// What the comparison period before a range needs of the range.
pub open spec fn previous_range_defined(period: DashboardPeriod, range: DateRange) -> bool {
    &&& valid_date(range.start)
    &&& valid_date(range.end_exclusive)
    &&& match period {
        DashboardPeriod::All => true,
        DashboardPeriod::Year(_) => MIN_CALENDAR_YEAR <= range.start.year - 1,
        _ => MIN_DAY_NUMBER <= 2 * day_number(range.start) - day_number(range.end_exclusive)
            <= MAX_DAY_NUMBER,
    }
}

/// The period a range is compared with: none for everything, the year
/// before for a year, and otherwise the equally long stretch of days that
/// ends where the range starts.
pub fn previous_range(period: DashboardPeriod, range: DateRange) -> (r: Option<DateRange>)
    requires
        previous_range_defined(period, range),
    ensures
        match period {
            DashboardPeriod::All => r is None,
            DashboardPeriod::Year(_) => r == Some(
                DateRange {
                    start: CalendarDate { year: (range.start.year - 1) as i32, month: 1, day: 1 },
                    end_exclusive: range.start,
                    in_progress: false,
                },
            ),
            _ => r matches Some(p) && {
                &&& valid_date(p.start)
                &&& day_number(p.start) == 2 * day_number(range.start) - day_number(
                    range.end_exclusive,
                )
                &&& p.end_exclusive == range.start
                &&& !p.in_progress
            },
        },
{
    match period {
        DashboardPeriod::All => None,
        DashboardPeriod::Year(_) => Some(
            DateRange {
                start: CalendarDate { year: range.start.year - 1, month: 1, day: 1 },
                end_exclusive: range.start,
                in_progress: false,
            },
        ),
        _ => {
            let start_day = day_number_of(range.start);
            let end_day = day_number_of(range.end_exclusive);
            let days = end_day - start_day;
            match date_of_day_number(start_day - days) {
                Some(start) => Some(DateRange { start, end_exclusive: range.start, in_progress: false }),
                None => {
                    assert(false);
                    None
                },
            }
        },
    }
}

/// Quality of a total over rows of the given qualities: missing without
/// rows, mixed once any row is estimated or mixed, measured otherwise.
pub open spec fn combined_quality_of(qs: Seq<DataQuality>) -> DataQuality {
    if qs.len() == 0 {
        DataQuality::Missing
    } else if exists|i: int|
        0 <= i < qs.len() && (#[trigger] qs[i] == DataQuality::Estimated || qs[i]
            == DataQuality::Mixed) {
        DataQuality::Mixed
    } else {
        DataQuality::Measured
    }
}

pub fn combined_quality(qualities: &[DataQuality]) -> (q: DataQuality)
    ensures
        q == combined_quality_of(qualities@),
{
    if qualities.len() == 0 {
        return DataQuality::Missing;
    }
    let mut i: usize = 0;
    while i < qualities.len()
        invariant
            i <= qualities@.len(),
            forall|j: int|
                0 <= j < i ==> !(#[trigger] qualities@[j] == DataQuality::Estimated
                    || qualities@[j] == DataQuality::Mixed),
        decreases qualities.len() - i,
    {
        if qualities[i] == DataQuality::Estimated || qualities[i] == DataQuality::Mixed {
            return DataQuality::Mixed;
        }
        i = i + 1;
    }
    DataQuality::Measured
}

/// Review state of a detected refuel.
#[derive(Debug, Clone, Copy, PartialEq, Eq, Structural)]
pub enum RefuelStatus {
    Unconfirmed,
    Deferred,
    Confirmed,
    Rejected,
}

impl RefuelStatus {
    pub open spec fn name(self) -> Seq<char> {
        match self {
            RefuelStatus::Unconfirmed => "unconfirmed"@,
            RefuelStatus::Deferred => "deferred"@,
            RefuelStatus::Confirmed => "confirmed"@,
            RefuelStatus::Rejected => "rejected"@,
        }
    }

    pub fn as_str(self) -> (s: &'static str)
        ensures
            s@ == self.name(),
    {
        match self {
            RefuelStatus::Unconfirmed => "unconfirmed",
            RefuelStatus::Deferred => "deferred",
            RefuelStatus::Confirmed => "confirmed",
            RefuelStatus::Rejected => "rejected",
        }
    }

    /// The status with the given stored spelling, if any.
    pub open spec fn named(v: Seq<char>) -> Option<RefuelStatus> {
        if v == "unconfirmed"@ {
            Some(RefuelStatus::Unconfirmed)
        } else if v == "deferred"@ {
            Some(RefuelStatus::Deferred)
        } else if v == "confirmed"@ {
            Some(RefuelStatus::Confirmed)
        } else if v == "rejected"@ {
            Some(RefuelStatus::Rejected)
        } else {
            None
        }
    }

    /// Reads a stored status; `None` for an unknown spelling.
    pub fn parse(value: &str) -> (r: Option<RefuelStatus>)
        ensures
            r == RefuelStatus::named(value@),
    {
        if str_eq(value, "unconfirmed") {
            Some(RefuelStatus::Unconfirmed)
        } else if str_eq(value, "deferred") {
            Some(RefuelStatus::Deferred)
        } else if str_eq(value, "confirmed") {
            Some(RefuelStatus::Confirmed)
        } else if str_eq(value, "rejected") {
            Some(RefuelStatus::Rejected)
        } else {
            None
        }
    }
}

impl RefuelStatus {
    /// Still awaiting the owner's decision.
    pub open spec fn is_open(self) -> bool {
        self == RefuelStatus::Unconfirmed || self == RefuelStatus::Deferred
    }

    pub fn open(self) -> (b: bool)
        ensures
            b == self.is_open(),
    {
        match self {
            RefuelStatus::Unconfirmed | RefuelStatus::Deferred => true,
            _ => false,
        }
    }

    /// The status of a candidate after the owner sets `requested`: an open
    /// candidate takes it, a decided one keeps its own.  Confirming goes
    /// through the refuel amounts instead and is refused here.
    pub open spec fn requested(self, requested: RefuelStatus) -> Result<RefuelStatus, RefuelRequestError> {
        if requested == RefuelStatus::Confirmed {
            Err(RefuelRequestError::ConfirmNeedsAmounts)
        } else if self.is_open() {
            Ok(requested)
        } else {
            Ok(self)
        }
    }

    pub fn after_request(self, requested: RefuelStatus) -> (r: Result<RefuelStatus, RefuelRequestError>)
        ensures
            r == self.requested(requested),
    {
        if requested == RefuelStatus::Confirmed {
            return Err(RefuelRequestError::ConfirmNeedsAmounts);
        }
        if self.open() {
            Ok(requested)
        } else {
            Ok(self)
        }
    }
}

#[derive(Debug, Clone, Copy, PartialEq, Eq, Structural)]
pub enum RefuelRequestError {
    /// A candidate is confirmed together with the refuelled amounts.
    ConfirmNeedsAmounts,
}

impl RefuelRequestError {
    pub open spec fn message_text(self) -> Seq<char> {
        "確定にはconfirm_candidateを使用してください"@
    }

    pub fn message(&self) -> (m: String)
        ensures
            m@ == self.message_text(),
    {
        "確定にはconfirm_candidateを使用してください".to_owned()
    }
}

/// A decided candidate stays decided: no status request changes a
/// confirmed or rejected candidate.
pub proof fn law_decided_candidates_stay(current: RefuelStatus, requested: RefuelStatus)
    requires
        !current.is_open(),
    ensures
        current.requested(requested) matches Ok(s) ==> s == current,
        current.requested(requested) is Err <==> requested == RefuelStatus::Confirmed,
{
}

/// Reading back a stored status gives the same status.
pub proof fn law_refuel_status_round_trip(x: RefuelStatus)
    ensures
        RefuelStatus::named(x.name()) == Some(x),
{
    reveal_strlit("unconfirmed");
    reveal_strlit("deferred");
    reveal_strlit("confirmed");
    reveal_strlit("rejected");
    assert("unconfirmed"@.len() != "deferred"@.len());
    assert("unconfirmed"@.len() != "confirmed"@.len());
    assert("unconfirmed"@.len() != "rejected"@.len());
    assert("deferred"@.len() != "confirmed"@.len());
    assert("deferred"@[0] != "rejected"@[0]);
    assert("confirmed"@.len() != "rejected"@.len());
}

/// An attribute of a vehicle as observed automatically and as confirmed by
/// the owner; the confirmed value wins.
#[derive(Debug, Clone, PartialEq)]
pub struct VehicleAttribute {
    pub key: String,
    pub automatic_value: Option<String>,
    pub confirmed_value: Option<String>,
    pub effective_value: Option<String>,
    pub source: String,
}

/// The value an attribute shows: the owner's confirmed value, else the
/// automatically observed one.
pub open spec fn effective_of(automatic: Option<String>, confirmed: Option<String>) -> Option<String> {
    match confirmed {
        Some(c) => Some(c),
        None => automatic,
    }
}

fn copy_text(v: &Option<String>) -> (c: Option<String>)
    ensures
        c == *v,
{
    match v {
        Some(s) => Some(s.clone()),
        None => None,
    }
}

impl VehicleAttribute {
    pub open spec fn consistent(self) -> bool {
        self.effective_value == effective_of(self.automatic_value, self.confirmed_value)
    }

    /// An attribute first seen automatically.
    pub fn observed(key: String, value: Option<String>, source: String) -> (a: VehicleAttribute)
        ensures
            a.key == key,
            a.automatic_value == value,
            a.confirmed_value is None,
            a.source == source,
            a.consistent(),
    {
        let effective = copy_text(&value);
        VehicleAttribute { key, automatic_value: value, confirmed_value: None, effective_value: effective, source }
    }

    /// A later automatic observation replaces the observed value and its
    /// source; a value the owner confirmed stays in effect.
    pub fn observe(&mut self, value: Option<String>, source: String)
        ensures
            final(self).key == old(self).key,
            final(self).automatic_value == value,
            final(self).confirmed_value == old(self).confirmed_value,
            final(self).source == source,
            final(self).consistent(),
    {
        self.effective_value = match &self.confirmed_value {
            Some(c) => Some(c.clone()),
            None => copy_text(&value),
        };
        self.automatic_value = value;
        self.source = source;
    }

    /// The owner confirms a value, which takes effect over observations.
    pub fn confirm(&mut self, value: String)
        ensures
            final(self).key == old(self).key,
            final(self).automatic_value == old(self).automatic_value,
            final(self).confirmed_value == Some(value),
            final(self).effective_value == Some(value),
            final(self).source == old(self).source,
            final(self).consistent(),
    {
        self.effective_value = Some(value.clone());
        self.confirmed_value = Some(value);
    }
}

/// A finished PID scan as stored.
#[derive(Debug, Clone, PartialEq, Eq)]
pub struct PidScanRecord {
    pub id: i64,
    pub vehicle_id: VehicleId,
    pub service: u8,
    pub range_start: u8,
    pub range_end: u8,
    pub interval_ms: u64,
    pub scanned_count: u16,
    pub response_count: u16,
    pub error_count: u16,
    pub status: String,
}

/// A model generation as listed on the AI screen.
#[derive(Debug, Clone)]
pub struct ModelUiRecord {
    pub generation: String,
    pub status: String,
    pub schema: String,
    pub framework_version: String,
    pub hash: String,
    pub created_at: String,
    pub reason: Option<String>,
}

/// Outcome of recomputing stored PID values with a new formula.
#[derive(Debug, Clone, PartialEq, Eq, Structural)]
pub struct RecalculationReport {
    pub run_id: i64,
    pub target_count: u64,
    pub success_count: u64,
    pub failure_count: u64,
}

} // verus!
