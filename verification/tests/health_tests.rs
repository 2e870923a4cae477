use car_logger::health::{
    BackfillState, infer_sessions, ScoreDomain, SessionConfig, SignalKey,
};
use car_logger::time::{Duration, Timestamp};

fn t(s: i64) -> Timestamp {
    Timestamp::from_timestamp(s, 0).unwrap()
}

#[test]
fn session_reconnect_rules_and_repair() {
    let c = SessionConfig::default();
    assert_eq!(infer_sessions(&[t(0), t(31), t(300)], c, Some(t(400))).len(), 1);
    assert_eq!(infer_sessions(&[t(0), t(301)], c, None).len(), 2);
    assert!(infer_sessions(&[t(0)], c, Some(t(31)))[0].complete);
}

#[test]
fn sessions_are_built_from_unsorted_samples() {
    let c = SessionConfig::default();
    let sessions = infer_sessions(&[t(1000), t(0), t(10), t(1200)], c, Some(t(1220)));
    assert_eq!(sessions.len(), 2);
    assert_eq!((sessions[0].started_at, sessions[0].ended_at), (t(0), t(10)));
    assert_eq!((sessions[0].sample_count, sessions[0].complete), (2, true));
    assert_eq!((sessions[1].started_at, sessions[1].ended_at), (t(1000), t(1200)));
    assert_eq!((sessions[1].sample_count, sessions[1].complete), (2, false));
    assert!(infer_sessions(&[], c, None).is_empty());
}

#[test]
fn gap_equal_to_the_limit_keeps_the_session() {
    let c = SessionConfig {
        disconnect_after: Duration::from_secs(30),
        reconnect_within: Duration::from_secs(300),
    };
    assert_eq!(infer_sessions(&[t(0), t(300)], c, None).len(), 1);
    assert!(!infer_sessions(&[t(0)], c, Some(t(30)))[0].complete);
}

#[test]
fn names_match_the_stored_spellings() {
    assert_eq!(SignalKey::CoolantTemperature.as_str(), "coolant_temperature");
    assert_eq!(SignalKey::EngineRunTime.as_str(), "engine_run_time");
    assert_eq!(ScoreDomain::AirFuel.as_str(), "air_fuel");
    assert_eq!(ScoreDomain::RunningStability.as_str(), "running_stability");
}

#[test]
fn backfill_counts_only_at_the_start_of_a_pass() {
    let start = BackfillState::initial();
    assert!(start.needs_count());
    let first = start.after_chunk(5, Some(3), 3, 3);
    assert_eq!(first, BackfillState { last_sequence_id: 3, total_rows: 5, processed_rows: 3, completed: false });
    assert!(!first.needs_count());
    let second = first.after_chunk(0, Some(5), 2, 3);
    assert_eq!(second, BackfillState { last_sequence_id: 5, total_rows: 5, processed_rows: 5, completed: true });
    let idle = second.after_chunk(0, None, 0, 3);
    assert_eq!(idle, BackfillState { last_sequence_id: 5, total_rows: 5, processed_rows: 5, completed: true });
    let resumed = idle.after_chunk(2, Some(7), 2, 3);
    assert_eq!(resumed, BackfillState { last_sequence_id: 7, total_rows: 7, processed_rows: 7, completed: true });
}
