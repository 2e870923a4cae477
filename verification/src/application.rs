//! Codes shared between the application layer and storage: diagnostic
//! quality, user feedback, score periods and statuses, and their spellings
//! in the database.

use vstd::prelude::*;
use crate::health::ScoreDomain;
use crate::text::str_eq;
use crate::time::{Duration, NANOS_PER_SEC};

verus! {

#[derive(Debug, Clone, PartialEq, Eq)]
pub struct DtcReading {
    pub code: String,
    pub ecu: Option<String>,
}

#[derive(Debug, Clone, Copy, PartialEq, Eq, Structural)]
pub enum DiagnosticQuality {
    Complete,
    Partial,
    Unsupported,
    Failed,
}

impl DiagnosticQuality {
    pub open spec fn name(self) -> Seq<char> {
        match self {
            DiagnosticQuality::Complete => "complete"@,
            DiagnosticQuality::Partial => "partial"@,
            DiagnosticQuality::Unsupported => "unsupported"@,
            DiagnosticQuality::Failed => "failed"@,
        }
    }

    pub fn as_str(self) -> (s: &'static str)
        ensures
            s@ == self.name(),
    {
        match self {
            DiagnosticQuality::Complete => "complete",
            DiagnosticQuality::Partial => "partial",
            DiagnosticQuality::Unsupported => "unsupported",
            DiagnosticQuality::Failed => "failed",
        }
    }
}

#[derive(Debug, Clone, Copy, PartialEq, Eq, Structural)]
pub enum FeedbackKind {
    NoProblem,
    Watch,
    Inspected,
    FaultConfirmed,
    MaintenancePerformed,
    FalsePositive,
}

impl FeedbackKind {
    pub open spec fn name(self) -> Seq<char> {
        match self {
            FeedbackKind::NoProblem => "no_problem"@,
            FeedbackKind::Watch => "watch"@,
            FeedbackKind::Inspected => "inspected"@,
            FeedbackKind::FaultConfirmed => "fault_confirmed"@,
            FeedbackKind::MaintenancePerformed => "maintenance_performed"@,
            FeedbackKind::FalsePositive => "false_positive"@,
        }
    }

    pub fn as_str(self) -> (s: &'static str)
        ensures
            s@ == self.name(),
    {
        match self {
            FeedbackKind::NoProblem => "no_problem",
            FeedbackKind::Watch => "watch",
            FeedbackKind::Inspected => "inspected",
            FeedbackKind::FaultConfirmed => "fault_confirmed",
            FeedbackKind::MaintenancePerformed => "maintenance_performed",
            FeedbackKind::FalsePositive => "false_positive",
        }
    }
}

#[derive(Debug, Clone, Copy, PartialEq, Eq, Hash, Structural)]
pub enum ScoreGranularity {
    Session,
    Hour,
    Day,
    Week,
    Month,
    Year,
}

impl ScoreGranularity {
    /// Days of history the health chart shows at this granularity; a day
    /// at the hourly granularity.
    pub open spec fn window_days(self) -> nat {
        match self {
            ScoreGranularity::Hour => 1,
            ScoreGranularity::Day => 30,
            ScoreGranularity::Week => 26 * 7,
            ScoreGranularity::Month => 365 * 2,
            ScoreGranularity::Year => 365 * 10,
            ScoreGranularity::Session => 30,
        }
    }

    /// How far back the health chart reaches at this granularity.
    pub fn window_span(self) -> (d: Duration)
        ensures
            d@ == self.window_days() * 86_400 * NANOS_PER_SEC,
    {
        let days: u64 = match self {
            ScoreGranularity::Hour => 1,
            ScoreGranularity::Day => 30,
            ScoreGranularity::Week => 26 * 7,
            ScoreGranularity::Month => 365 * 2,
            ScoreGranularity::Year => 365 * 10,
            ScoreGranularity::Session => 30,
        };
        Duration::from_secs(days * 86_400)
    }

    pub const ALL: [ScoreGranularity; 6] = [
        ScoreGranularity::Session,
        ScoreGranularity::Hour,
        ScoreGranularity::Day,
        ScoreGranularity::Week,
        ScoreGranularity::Month,
        ScoreGranularity::Year,
    ];

    pub open spec fn name(self) -> Seq<char> {
        match self {
            ScoreGranularity::Session => "session"@,
            ScoreGranularity::Hour => "hour"@,
            ScoreGranularity::Day => "day"@,
            ScoreGranularity::Week => "week"@,
            ScoreGranularity::Month => "month"@,
            ScoreGranularity::Year => "year"@,
        }
    }

    pub fn as_str(self) -> (s: &'static str)
        ensures
            s@ == self.name(),
    {
        match self {
            ScoreGranularity::Session => "session",
            ScoreGranularity::Hour => "hour",
            ScoreGranularity::Day => "day",
            ScoreGranularity::Week => "week",
            ScoreGranularity::Month => "month",
            ScoreGranularity::Year => "year",
        }
    }
}

#[derive(Debug, Clone, Copy, PartialEq, Eq, Structural)]
pub enum ScoreStatus {
    Scored,
    Learning,
    InsufficientData,
    NoData,
    CalculationFailed,
}

impl ScoreStatus {
    pub open spec fn name(self) -> Seq<char> {
        match self {
            ScoreStatus::Scored => "scored"@,
            ScoreStatus::Learning => "learning"@,
            ScoreStatus::InsufficientData => "insufficient_data"@,
            ScoreStatus::NoData => "no_data"@,
            ScoreStatus::CalculationFailed => "calculation_failed"@,
        }
    }

    pub fn as_str(self) -> (s: &'static str)
        ensures
            s@ == self.name(),
    {
        match self {
            ScoreStatus::Scored => "scored",
            ScoreStatus::Learning => "learning",
            ScoreStatus::InsufficientData => "insufficient_data",
            ScoreStatus::NoData => "no_data",
            ScoreStatus::CalculationFailed => "calculation_failed",
        }
    }
}

pub open spec fn granularity_named(v: Seq<char>) -> ScoreGranularity {
    if v == "session"@ {
        ScoreGranularity::Session
    } else if v == "hour"@ {
        ScoreGranularity::Hour
    } else if v == "day"@ {
        ScoreGranularity::Day
    } else if v == "week"@ {
        ScoreGranularity::Week
    } else if v == "month"@ {
        ScoreGranularity::Month
    } else {
        ScoreGranularity::Year
    }
}

/// Reads a stored granularity; anything unknown reads as `Year`.
pub fn parse_granularity(v: &str) -> (g: ScoreGranularity)
    ensures
        g == granularity_named(v@),
{
    if str_eq(v, "session") {
        ScoreGranularity::Session
    } else if str_eq(v, "hour") {
        ScoreGranularity::Hour
    } else if str_eq(v, "day") {
        ScoreGranularity::Day
    } else if str_eq(v, "week") {
        ScoreGranularity::Week
    } else if str_eq(v, "month") {
        ScoreGranularity::Month
    } else {
        ScoreGranularity::Year
    }
}

pub open spec fn status_named(v: Seq<char>) -> ScoreStatus {
    if v == "scored"@ {
        ScoreStatus::Scored
    } else if v == "learning"@ {
        ScoreStatus::Learning
    } else if v == "insufficient_data"@ {
        ScoreStatus::InsufficientData
    } else if v == "no_data"@ {
        ScoreStatus::NoData
    } else {
        ScoreStatus::CalculationFailed
    }
}

/// Reads a stored status; anything unknown reads as a failed calculation.
pub fn parse_status(v: &str) -> (s: ScoreStatus)
    ensures
        s == status_named(v@),
{
    if str_eq(v, "scored") {
        ScoreStatus::Scored
    } else if str_eq(v, "learning") {
        ScoreStatus::Learning
    } else if str_eq(v, "insufficient_data") {
        ScoreStatus::InsufficientData
    } else if str_eq(v, "no_data") {
        ScoreStatus::NoData
    } else {
        ScoreStatus::CalculationFailed
    }
}

pub open spec fn domain_named(v: Seq<char>) -> ScoreDomain {
    if v == "thermal"@ {
        ScoreDomain::Thermal
    } else if v == "electrical"@ {
        ScoreDomain::Electrical
    } else if v == "air_fuel"@ {
        ScoreDomain::AirFuel
    } else {
        ScoreDomain::RunningStability
    }
}

/// Reads a stored score domain; anything unknown reads as running stability.
pub fn parse_domain(v: &str) -> (d: ScoreDomain)
    ensures
        d == domain_named(v@),
{
    if str_eq(v, "thermal") {
        ScoreDomain::Thermal
    } else if str_eq(v, "electrical") {
        ScoreDomain::Electrical
    } else if str_eq(v, "air_fuel") {
        ScoreDomain::AirFuel
    } else {
        ScoreDomain::RunningStability
    }
}

pub open spec fn feedback_named(v: Seq<char>) -> FeedbackKind {
    if v == "watch"@ {
        FeedbackKind::Watch
    } else if v == "inspected"@ {
        FeedbackKind::Inspected
    } else if v == "fault_confirmed"@ {
        FeedbackKind::FaultConfirmed
    } else if v == "maintenance_performed"@ {
        FeedbackKind::MaintenancePerformed
    } else if v == "false_positive"@ {
        FeedbackKind::FalsePositive
    } else {
        FeedbackKind::NoProblem
    }
}

/// Reads stored feedback; anything unknown reads as "no problem".
pub fn feedback_kind(v: &str) -> (k: FeedbackKind)
    ensures
        k == feedback_named(v@),
{
    if str_eq(v, "watch") {
        FeedbackKind::Watch
    } else if str_eq(v, "inspected") {
        FeedbackKind::Inspected
    } else if str_eq(v, "fault_confirmed") {
        FeedbackKind::FaultConfirmed
    } else if str_eq(v, "maintenance_performed") {
        FeedbackKind::MaintenancePerformed
    } else if str_eq(v, "false_positive") {
        FeedbackKind::FalsePositive
    } else {
        FeedbackKind::NoProblem
    }
}

/// Reading back what `as_str` wrote gives the same ScoreGranularity.
pub proof fn law_granularity_round_trip(x: ScoreGranularity)
    ensures
        granularity_named(x.name()) == x,
{
    reveal_strlit("session");
    reveal_strlit("hour");
    reveal_strlit("day");
    reveal_strlit("week");
    reveal_strlit("month");
    reveal_strlit("year");
    assert("session"@.len() != "hour"@.len());
    assert("session"@.len() != "day"@.len());
    assert("session"@.len() != "week"@.len());
    assert("session"@.len() != "month"@.len());
    assert("session"@.len() != "year"@.len());
    assert("hour"@.len() != "day"@.len());
    assert("hour"@[0] != "week"@[0]);
    assert("hour"@.len() != "month"@.len());
    assert("hour"@[0] != "year"@[0]);
    assert("day"@.len() != "week"@.len());
    assert("day"@.len() != "month"@.len());
    assert("day"@.len() != "year"@.len());
    assert("week"@.len() != "month"@.len());
    assert("week"@[0] != "year"@[0]);
    assert("month"@.len() != "year"@.len());
}

/// Reading back what `as_str` wrote gives the same ScoreStatus.
pub proof fn law_status_round_trip(x: ScoreStatus)
    ensures
        status_named(x.name()) == x,
{
    reveal_strlit("scored");
    reveal_strlit("learning");
    reveal_strlit("insufficient_data");
    reveal_strlit("no_data");
    reveal_strlit("calculation_failed");
    assert("scored"@.len() != "learning"@.len());
    assert("scored"@.len() != "insufficient_data"@.len());
    assert("scored"@.len() != "no_data"@.len());
    assert("scored"@.len() != "calculation_failed"@.len());
    assert("learning"@.len() != "insufficient_data"@.len());
    assert("learning"@.len() != "no_data"@.len());
    assert("learning"@.len() != "calculation_failed"@.len());
    assert("insufficient_data"@.len() != "no_data"@.len());
    assert("insufficient_data"@.len() != "calculation_failed"@.len());
    assert("no_data"@.len() != "calculation_failed"@.len());
}

/// Reading back what `as_str` wrote gives the same ScoreDomain.
pub proof fn law_domain_round_trip(x: ScoreDomain)
    ensures
        domain_named(x.name()) == x,
{
    reveal_strlit("thermal");
    reveal_strlit("electrical");
    reveal_strlit("air_fuel");
    reveal_strlit("running_stability");
    assert("thermal"@.len() != "electrical"@.len());
    assert("thermal"@.len() != "air_fuel"@.len());
    assert("thermal"@.len() != "running_stability"@.len());
    assert("electrical"@.len() != "air_fuel"@.len());
    assert("electrical"@.len() != "running_stability"@.len());
    assert("air_fuel"@.len() != "running_stability"@.len());
}

/// Reading back what `as_str` wrote gives the same FeedbackKind.
pub proof fn law_feedback_round_trip(x: FeedbackKind)
    ensures
        feedback_named(x.name()) == x,
{
    reveal_strlit("no_problem");
    reveal_strlit("watch");
    reveal_strlit("inspected");
    reveal_strlit("fault_confirmed");
    reveal_strlit("maintenance_performed");
    reveal_strlit("false_positive");
    assert("no_problem"@.len() != "watch"@.len());
    assert("no_problem"@.len() != "inspected"@.len());
    assert("no_problem"@.len() != "fault_confirmed"@.len());
    assert("no_problem"@.len() != "maintenance_performed"@.len());
    assert("no_problem"@.len() != "false_positive"@.len());
    assert("watch"@.len() != "inspected"@.len());
    assert("watch"@.len() != "fault_confirmed"@.len());
    assert("watch"@.len() != "maintenance_performed"@.len());
    assert("watch"@.len() != "false_positive"@.len());
    assert("inspected"@.len() != "fault_confirmed"@.len());
    assert("inspected"@.len() != "maintenance_performed"@.len());
    assert("inspected"@.len() != "false_positive"@.len());
    assert("fault_confirmed"@.len() != "maintenance_performed"@.len());
    assert("fault_confirmed"@.len() != "false_positive"@.len());
    assert("maintenance_performed"@.len() != "false_positive"@.len());
}

/// Where the dashboard series starts: at most the newest `max_points`
/// scores are shown.
pub fn dashboard_window_start(series_len: usize, max_points: usize) -> (start: usize)
    ensures
        start == if series_len > max_points {
            series_len - max_points
        } else {
            0
        },
{
    if series_len > max_points {
        series_len - max_points
    } else {
        0
    }
}

/// The newest score in the series that is not the latest one: the last
/// position whose id differs from `latest_id`.
pub fn previous_score_index(series_ids: &[i64], latest_id: i64) -> (r: Option<usize>)
    ensures
        match r {
            Some(i) => i < series_ids@.len() && series_ids@[i as int] != latest_id && forall|j: int|
                i < j < series_ids@.len() ==> series_ids@[j] == latest_id,
            None => forall|j: int| 0 <= j < series_ids@.len() ==> series_ids@[j] == latest_id,
        },
{
    let mut i = series_ids.len();
    while i > 0
        invariant
            i <= series_ids@.len(),
            forall|j: int| i <= j < series_ids@.len() ==> series_ids@[j] == latest_id,
        decreases i,
    {
        if series_ids[i - 1] != latest_id {
            return Some(i - 1);
        }
        i = i - 1;
    }
    None
}

/// Owns the repository behind the health screens.
pub struct HealthService<R> {
    repository: R,
}

impl<R> HealthService<R> {
    pub fn new(repository: R) -> (s: Self)
        ensures
            s.held() == repository,
    {
        HealthService { repository }
    }

    pub closed spec fn held(&self) -> R {
        self.repository
    }

    pub fn repository(&self) -> (r: &R)
        ensures
            *r == self.held(),
    {
        &self.repository
    }

    pub fn repository_mut(&mut self) -> (r: &mut R)
        ensures
            *r == old(self).held(),
            final(self).held() == *final(r),
    {
        &mut self.repository
    }

    pub fn into_inner(self) -> (r: R)
        ensures
            r == self.held(),
    {
        self.repository
    }
}

/// Which engine scores a session when an optional engine is preferred over
/// the built-in statistical one.
#[derive(Debug, Clone, Copy, PartialEq, Eq, Structural)]
pub enum EngineChoice {
    /// The preferred engine's result is used.
    Preferred,
    /// The preferred engine failed; its error is the reason for falling back.
    FallbackAfterError,
    /// The preferred engine needs another feature schema and is not asked.
    FallbackIncompatible,
}

/// The preferred engine is asked only when it reads the input's feature
/// schema.
pub fn schema_compatible(required: &str, input: &str) -> (b: bool)
    ensures
        b == (required@ == input@),
{
    str_eq(required, input)
}

pub open spec fn engine_choice(compatible: bool, preferred_ok: bool) -> EngineChoice {
    if !compatible {
        EngineChoice::FallbackIncompatible
    } else if preferred_ok {
        EngineChoice::Preferred
    } else {
        EngineChoice::FallbackAfterError
    }
}

/// An incompatible or failing optional engine never keeps the statistical
/// engine from scoring: the preferred engine's result is used only when its
/// schema is compatible and it succeeded.
pub fn choose_engine(compatible: bool, preferred_ok: bool) -> (c: EngineChoice)
    ensures
        c == engine_choice(compatible, preferred_ok),
{
    if !compatible {
        EngineChoice::FallbackIncompatible
    } else if preferred_ok {
        EngineChoice::Preferred
    } else {
        EngineChoice::FallbackAfterError
    }
}

/// Scoring never depends on the optional engine: the statistical engine
/// scores whenever the preferred one is incompatible or fails.
pub proof fn law_statistical_scoring_without_optional_engine(compatible: bool, preferred_ok: bool)
    ensures
        engine_choice(compatible, preferred_ok) == EngineChoice::Preferred <==> compatible
            && preferred_ok,
        !compatible ==> engine_choice(compatible, preferred_ok) == EngineChoice::FallbackIncompatible,
{
}

impl EngineChoice {
    /// The reason recorded for falling back without asking the preferred
    /// engine; a failed engine's own error is recorded instead.
    pub fn incompatible_reason() -> (s: &'static str)
        ensures
            s@ == "feature schema is incompatible"@,
    {
        "feature schema is incompatible"
    }
}

} // verus!
