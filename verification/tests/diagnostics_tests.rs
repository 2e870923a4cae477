use car_logger::application::{DiagnosticQuality, DtcReading};
use car_logger::diagnostics::{DiagnosticObservation, DiagnosticState, DtcLedger, StoredDtc};
use car_logger::time::Timestamp;

const MINUTE: i128 = 60_000_000_000;

fn at(minutes: i128) -> Timestamp {
    Timestamp::from_nanos(1_767_225_600_000_000_000 + minutes * MINUTE).unwrap()
}

fn observation(when: Timestamp, codes: &[&str]) -> DiagnosticObservation {
    DiagnosticObservation {
        observed_at: when,
        mil_on: Some(!codes.is_empty()),
        reported_dtc_count: Some(codes.len() as u8),
        dtcs: codes
            .iter()
            .map(|code| DtcReading { code: (*code).into(), ecu: Some("7E8".into()) })
            .collect(),
        source_service: "test".into(),
        quality: DiagnosticQuality::Complete,
        error: None,
        session_id: Some(1),
    }
}

#[test]
fn duplicate_continuation_clear_and_recurrence_are_distinct() {
    let mut ledger = DtcLedger::empty();
    ledger.record(&observation(at(0), &["P0133"]));
    ledger.record(&observation(at(5), &["P0133"]));
    let data = ledger.dashboard(10);
    assert_eq!(data.active.len(), 1);
    assert_eq!(data.history.len(), 1);
    ledger.record(&observation(at(10), &[]));
    assert!(ledger.dashboard(10).active.is_empty());
    ledger.record(&observation(at(15), &["P0133"]));
    let data = ledger.dashboard(10);
    assert_eq!(data.active[0].occurrence, 2);
    assert_eq!(data.history.len(), 2);
}

#[test]
fn continued_events_keep_their_first_detection() {
    let mut ledger = DtcLedger::empty();
    let first = ledger.record(&observation(at(0), &["P0133", "P0420"]));
    let second = ledger.record(&observation(at(5), &["P0420"]));
    assert_eq!(first, vec![1, 2]);
    assert_eq!(second, vec![2]);
    let events = ledger.events();
    assert_eq!(events[1].first_detected_at, at(0));
    assert_eq!(events[1].last_detected_at, at(5));
    assert!(events[1].active);
    assert!(!events[0].active);
    assert_eq!(events[0].cleared_at, Some(at(5)));
    let data = ledger.dashboard(1);
    assert_eq!(data.history.len(), 1);
    assert_eq!(data.history[0].code, "P0420");
    assert_eq!(data.mil_on, Some(true));
    assert_eq!(data.supported, Some(true));
    assert_eq!(data.last_observed_at, Some(at(5)));
}

#[test]
fn partial_and_failed_readings_close_nothing() {
    let mut ledger = DtcLedger::empty();
    ledger.record(&observation(at(0), &["P0133"]));
    let mut partial = observation(at(1), &[]);
    partial.quality = DiagnosticQuality::Partial;
    partial.mil_on = None;
    ledger.record(&partial);
    assert_eq!(ledger.dashboard(10).active.len(), 1);
    assert_eq!(ledger.state().mil_on, Some(true));
    let mut failed = observation(at(2), &[]);
    failed.quality = DiagnosticQuality::Failed;
    failed.error = Some("timeout".into());
    ledger.record(&failed);
    assert_eq!(ledger.dashboard(10).active.len(), 1);
    assert_eq!(ledger.state().supported, Some(true));
    assert_eq!(ledger.state().last_error, Some("timeout".to_string()));
    let mut unsupported = observation(at(3), &[]);
    unsupported.quality = DiagnosticQuality::Unsupported;
    ledger.record(&unsupported);
    assert_eq!(ledger.state().supported, Some(false));
}

#[test]
fn a_missing_control_unit_matches_an_empty_one() {
    let mut ledger = DtcLedger::empty();
    let mut first = observation(at(0), &["U0100"]);
    first.dtcs[0].ecu = None;
    ledger.record(&first);
    let mut second = observation(at(1), &["U0100"]);
    second.dtcs[0].ecu = Some(String::new());
    assert_eq!(ledger.record(&second), vec![1]);
    assert_eq!(ledger.events().len(), 1);
}

#[test]
fn stored_histories_must_be_in_id_order() {
    let event = |id: i64| StoredDtc {
        id,
        code: "P0001".into(),
        ecu: Some("7E8".into()),
        first_detected_at: at(0),
        last_detected_at: at(0),
        active: false,
        cleared_at: None,
        occurrence: 1,
    };
    let state =
        || DiagnosticState { supported: None, mil_on: None, last_observed_at: None, last_error: None };
    assert!(DtcLedger::from_parts(vec![event(1), event(4)], 5, state()).is_some());
    assert!(DtcLedger::from_parts(vec![event(4), event(1)], 5, state()).is_none());
    assert!(DtcLedger::from_parts(vec![event(1), event(5)], 5, state()).is_none());
    let mut ledger = DtcLedger::from_parts(vec![event(1), event(4)], 5, state()).unwrap();
    assert_eq!(ledger.record(&observation(at(1), &["P0001"])), vec![5]);
    assert_eq!(ledger.events()[2].occurrence, 2);
}
