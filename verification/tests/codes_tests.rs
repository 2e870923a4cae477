use car_logger::application::{
    choose_engine, feedback_kind, parse_domain, parse_granularity, parse_status,
    schema_compatible, DiagnosticQuality, EngineChoice, FeedbackKind, ScoreGranularity,
    ScoreStatus,
};
use car_logger::domain::{parse_fuel, FuelType, SignalKind};
use car_logger::health::ScoreDomain;
use car_logger::vehicle_data::{
    combined_quality, quality_str, shift_month, source_str, DataQuality, DistanceSource,
    RefuelStatus,
};

#[test]
fn stored_codes_round_trip() {
    for g in ScoreGranularity::ALL {
        assert_eq!(parse_granularity(g.as_str()), g);
    }
    for s in [
        ScoreStatus::Scored,
        ScoreStatus::Learning,
        ScoreStatus::InsufficientData,
        ScoreStatus::NoData,
        ScoreStatus::CalculationFailed,
    ] {
        assert_eq!(parse_status(s.as_str()), s);
    }
    for d in [
        ScoreDomain::Thermal,
        ScoreDomain::Electrical,
        ScoreDomain::AirFuel,
        ScoreDomain::RunningStability,
    ] {
        assert_eq!(parse_domain(d.as_str()), d);
    }
    for k in [
        FeedbackKind::NoProblem,
        FeedbackKind::Watch,
        FeedbackKind::Inspected,
        FeedbackKind::FaultConfirmed,
        FeedbackKind::MaintenancePerformed,
        FeedbackKind::FalsePositive,
    ] {
        assert_eq!(feedback_kind(k.as_str()), k);
    }
    for f in [
        FuelType::Gasoline,
        FuelType::Diesel,
        FuelType::Hybrid,
        FuelType::PlugInHybrid,
        FuelType::Electric,
        FuelType::Lpg,
        FuelType::Other,
    ] {
        assert_eq!(parse_fuel(f.as_str()), Some(f));
    }
    for r in [
        RefuelStatus::Unconfirmed,
        RefuelStatus::Deferred,
        RefuelStatus::Confirmed,
        RefuelStatus::Rejected,
    ] {
        assert_eq!(RefuelStatus::parse(r.as_str()), Some(r));
    }
}

#[test]
fn unknown_codes_fall_back() {
    assert_eq!(parse_granularity("decade"), ScoreGranularity::Year);
    assert_eq!(parse_status("?"), ScoreStatus::CalculationFailed);
    assert_eq!(parse_domain(""), ScoreDomain::RunningStability);
    assert_eq!(feedback_kind("other"), FeedbackKind::NoProblem);
    assert_eq!(parse_fuel("hydrogen"), None);
    assert_eq!(RefuelStatus::parse("maybe"), None);
}

#[test]
fn spellings_match_the_database() {
    assert_eq!(DiagnosticQuality::Unsupported.as_str(), "unsupported");
    assert_eq!(SignalKind::CanId.as_str(), "CAN_ID");
    assert_eq!(SignalKind::Pid.as_str(), "PID");
    assert_eq!(FuelType::PlugInHybrid.as_str(), "plug_in_hybrid");
    assert_eq!(source_str(DistanceSource::SpeedIntegrated), "speed_integrated");
    assert_eq!(quality_str(DataQuality::Mixed), "mixed");
}

#[test]
fn totals_report_the_weakest_quality() {
    assert_eq!(combined_quality(&[]), DataQuality::Missing);
    assert_eq!(combined_quality(&[DataQuality::Measured, DataQuality::Measured]), DataQuality::Measured);
    assert_eq!(combined_quality(&[DataQuality::Measured, DataQuality::Estimated]), DataQuality::Mixed);
    assert_eq!(combined_quality(&[DataQuality::Missing, DataQuality::Mixed]), DataQuality::Mixed);
    assert_eq!(combined_quality(&[DataQuality::Missing]), DataQuality::Measured);
}

#[test]
fn months_shift_across_year_boundaries() {
    assert_eq!(shift_month(2026, 3, -5), (2025, 10));
    assert_eq!(shift_month(2026, 12, 1), (2027, 1));
    assert_eq!(shift_month(2026, 1, -11), (2025, 2));
    assert_eq!(shift_month(-1, 1, -1), (-2, 12));
}

#[test]
fn health_charts_reach_back_by_granularity() {
    assert_eq!(ScoreGranularity::Hour.window_span().as_secs(), 24 * 3_600);
    assert_eq!(ScoreGranularity::Day.window_span().as_secs(), 30 * 86_400);
    assert_eq!(ScoreGranularity::Week.window_span().as_secs(), 26 * 7 * 86_400);
    assert_eq!(ScoreGranularity::Month.window_span().as_secs(), 730 * 86_400);
    assert_eq!(ScoreGranularity::Year.window_span().as_secs(), 3_650 * 86_400);
    assert_eq!(ScoreGranularity::Session.window_span().as_secs(), 30 * 86_400);
}

#[test]
fn statistical_engine_scores_when_the_optional_one_cannot() {
    assert!(schema_compatible("ai-window-v1", "ai-window-v1"));
    assert!(!schema_compatible("ai-window-v1", "ai-window-v2"));
    assert_eq!(choose_engine(true, true), EngineChoice::Preferred);
    assert_eq!(choose_engine(true, false), EngineChoice::FallbackAfterError);
    assert_eq!(choose_engine(false, true), EngineChoice::FallbackIncompatible);
    assert_eq!(choose_engine(false, false), EngineChoice::FallbackIncompatible);
    assert_eq!(EngineChoice::incompatible_reason(), "feature schema is incompatible");
}
