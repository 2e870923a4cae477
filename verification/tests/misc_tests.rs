use car_logger::application::{dashboard_window_start, previous_score_index, HealthService};
use car_logger::realtime::{find_metric, CanFrame, RealtimeSignalState, RealtimeStore};
use car_logger::logging_buffer::{
    flush_due, receive_error_due, record_flush, trim_overflow, CaptureLoop, MAX_BUFFERED_FRAMES,
    SAVE_BATCH_SIZE,
};
use car_logger::retention::{aggregate, RawFrame};
use car_logger::time::{Duration, Timestamp};
use car_logger::worker_protocol::{check_response, ProtocolMismatch, PROTOCOL_VERSION};

#[test]
fn worker_answers_must_match_request_and_version() {
    assert_eq!(check_response("a-1", "a-1", PROTOCOL_VERSION), Ok(()));
    assert_eq!(check_response("a-1", "a-2", PROTOCOL_VERSION), Err(ProtocolMismatch::RequestId));
    assert_eq!(check_response("a-1", "a-2", 7), Err(ProtocolMismatch::RequestId));
    assert_eq!(check_response("a-1", "a-1", 2), Err(ProtocolMismatch::Version));
    assert_eq!(ProtocolMismatch::Version.message(), "protocol version mismatch");
}

#[test]
fn dashboard_keeps_the_newest_points_and_finds_the_previous_score() {
    assert_eq!(dashboard_window_start(10, 4), 6);
    assert_eq!(dashboard_window_start(3, 4), 0);
    assert_eq!(previous_score_index(&[1, 2, 3, 3], 3), Some(1));
    assert_eq!(previous_score_index(&[5, 5], 5), None);
    assert_eq!(previous_score_index(&[], 5), None);
    let service = HealthService::new(vec![1, 2]);
    assert_eq!(service.repository(), &vec![1, 2]);
    assert_eq!(service.into_inner(), vec![1, 2]);
}

#[test]
fn live_logging_flushes_full_batches_or_after_half_a_second() {
    assert!(flush_due(128, Duration::zero()));
    assert!(!flush_due(127, Duration::from_millis(499)));
    assert!(flush_due(1, Duration::from_millis(500)));
    assert!(!receive_error_due(Duration::from_millis(1999)));
    assert!(receive_error_due(Duration::from_secs(2)));
    assert_eq!(record_flush(10, 5), 15);
}

#[test]
fn overflow_drops_the_oldest_frames() {
    let mut buffer: Vec<u32> = (0..10_005).collect();
    assert_eq!(trim_overflow(&mut buffer), 5);
    assert_eq!(buffer.len(), 10_000);
    assert_eq!(buffer[0], 5);
    let mut small = vec![1, 2, 3];
    assert_eq!(trim_overflow(&mut small), 0);
    assert_eq!(small, vec![1, 2, 3]);
}

#[test]
fn compaction_counts_every_frame_once() {
    let frames: Vec<RawFrame> = (0..25)
        .map(|i| RawFrame {
            sequence_id: i,
            signal_type: if i % 3 == 0 { "PID".to_owned() } else { "CAN_ID".to_owned() },
            can_id: (i % 4) as u32,
            is_extended: i % 5 == 0,
            is_remote: false,
            data: vec![i as u8],
            received_at: Timestamp::from_timestamp(100 + i / 10, 0).unwrap(),
        })
        .collect();
    let buckets = aggregate(&frames);
    assert_eq!(buckets.iter().map(|(_, b)| b.frame_count).sum::<u64>(), 25);
    for pair in buckets.windows(2) {
        let a = &pair[0].0;
        let b = &pair[1].0;
        assert!(
            (a.signal_type.as_str(), a.can_id, a.is_extended, a.is_remote, a.epoch)
                < (b.signal_type.as_str(), b.can_id, b.is_extended, b.is_remote, b.epoch)
        );
    }
}

fn frame_at(id: u32, nanos: i128, data: Vec<u8>) -> CanFrame {
    CanFrame {
        id,
        is_extended: false,
        is_remote: false,
        data,
        received_at: Timestamp::from_nanos(nanos).unwrap(),
    }
}

#[test]
fn live_state_keeps_the_latest_frame_and_counts_sightings() {
    let first = frame_at(0x7E8, 1_000, vec![0x41, 0x0C]);
    let mut state = RealtimeSignalState::new(first.clone(), vec![1u8], true);
    assert_eq!(state.count, 1);
    assert_eq!(state.last_seen, first.received_at);

    let second = frame_at(0x7E8, 2_000, vec![0x41, 0x0D]);
    state.update(second.clone(), vec![], false);
    assert_eq!(state.count, 2);
    assert_eq!(state.latest_frame, second);
    assert_eq!(state.last_seen.nanos(), 2_000);
    assert!(!state.is_known);
    assert!(state.decoded_values.is_empty());

    state.count = u64::MAX;
    state.update(frame_at(0x7E8, 3_000, vec![]), vec![], true);
    assert_eq!(state.count, u64::MAX);
}

#[test]
fn metrics_prefer_exact_names_over_partial_ones() {
    let names: Vec<String> =
        ["Engine RPM", "Vehicle Speed", "speed", "Coolant"].iter().map(|s| s.to_string()).collect();
    assert_eq!(find_metric(&names, &["SPEED"]), Some(2));
    assert_eq!(find_metric(&names, &["rpm"]), Some(0));
    assert_eq!(find_metric(&names, &["coolant", "speed"]), Some(2));
    assert_eq!(find_metric(&names, &["Speed"]), Some(2));
    assert_eq!(find_metric(&names, &["RPM"]), None);
    assert_eq!(find_metric(&names, &["fuel"]), None);
    assert_eq!(find_metric(&[], &["speed"]), None);
}

#[test]
fn capture_writes_full_batches_and_keeps_frames_after_failed_writes() {
    let start = Duration::from_secs(0);
    let mut capture = CaptureLoop::new(start);
    let mut flushes = 0;
    for i in 0..SAVE_BATCH_SIZE {
        if capture.frame_received(frame_at(1, i as i128, vec![]), Duration::from_millis(1)) {
            flushes += 1;
        }
    }
    assert_eq!(flushes, 1);
    assert_eq!(capture.pending().len(), SAVE_BATCH_SIZE);
    assert_eq!(capture.flush_finished(false, Duration::from_millis(2)), None);
    assert_eq!(capture.pending().len(), SAVE_BATCH_SIZE);
    assert_eq!(capture.flush_finished(true, Duration::from_millis(3)), Some(SAVE_BATCH_SIZE as u64));
    assert!(capture.pending().is_empty());
    assert!(!capture.frame_received(frame_at(1, 0, vec![]), Duration::from_millis(400)));
    assert!(capture.frame_received(frame_at(1, 0, vec![]), Duration::from_millis(503)));
}

#[test]
fn capture_reports_errors_sparingly_and_stops_at_fifty() {
    let mut capture = CaptureLoop::new(Duration::from_secs(0));
    let first = capture.receive_failed(Duration::from_millis(10));
    assert!(first.report && !first.connection_lost);
    assert!(!capture.receive_failed(Duration::from_millis(1_000)).report);
    assert!(capture.receive_failed(Duration::from_millis(2_010)).report);
    for i in 0..46 {
        assert!(!capture.receive_failed(Duration::from_millis(2_100 + i)).connection_lost);
    }
    assert!(capture.receive_failed(Duration::from_millis(3_000)).connection_lost);

    let mut capture = CaptureLoop::new(Duration::from_secs(0));
    for _ in 0..49 {
        capture.receive_failed(Duration::from_millis(1));
    }
    capture.frame_received(frame_at(1, 0, vec![]), Duration::from_millis(2));
    assert!(!capture.receive_failed(Duration::from_millis(3)).connection_lost);
}

#[test]
fn capture_drops_only_the_oldest_frames_beyond_the_limit() {
    let mut capture = CaptureLoop::new(Duration::from_secs(0));
    for i in 0..(MAX_BUFFERED_FRAMES + 3) {
        capture.frame_received(frame_at(1, i as i128, vec![]), Duration::from_millis(1));
    }
    assert_eq!(capture.trim_overflow(), 3);
    assert_eq!(capture.pending().len(), MAX_BUFFERED_FRAMES);
    assert_eq!(capture.pending()[0].received_at.nanos(), 3);
    assert_eq!(capture.trim_overflow(), 0);
}

#[test]
fn capture_stops_when_another_vehicle_answers() {
    let mut capture = CaptureLoop::new(Duration::from_secs(0));
    assert!(!capture.identity_check_due(Duration::from_secs(29)));
    assert!(capture.identity_check_due(Duration::from_secs(30)));
    let expected = Some("1HGCM82633A004352");
    assert!(!capture.identity_checked(Duration::from_secs(30), expected, Some(" 1hgcm82633a004352 ")));
    assert!(!capture.identity_check_due(Duration::from_secs(59)));
    assert!(!capture.identity_checked(Duration::from_secs(60), expected, None));
    assert!(capture.identity_checked(Duration::from_secs(90), expected, Some("JH4KA8260MC000000")));
    assert!(capture.identity_checked(Duration::from_secs(90), expected, Some("not a vin")));
    assert!(!capture.identity_checked(Duration::from_secs(90), None, Some("JH4KA8260MC000000")));
}

#[test]
fn realtime_store_keeps_the_latest_frame_per_id_in_id_order() {
    let frame = |id: u32, byte: u8, second: i64| CanFrame {
        id,
        is_extended: false,
        is_remote: false,
        data: vec![byte],
        received_at: Timestamp::from_timestamp(second, 0).unwrap(),
    };
    let mut store: RealtimeStore<Vec<u8>> = RealtimeStore::new();
    assert!(store.is_empty());
    store.upsert(frame(0x300, 1, 1), vec![], false);
    store.upsert(frame(0x100, 2, 2), vec![7], true);
    store.upsert(frame(0x200, 3, 3), vec![], false);
    store.upsert(frame(0x100, 4, 4), vec![8], true);
    assert_eq!(store.len(), 3);
    let entries = store.entries();
    let ids: Vec<u32> = entries.iter().map(|s| s.latest_frame.id).collect();
    assert_eq!(ids, vec![0x100, 0x200, 0x300]);
    assert_eq!(entries[0].latest_frame.data, vec![4]);
    assert_eq!(entries[0].count, 2);
    assert_eq!(entries[0].decoded_values, vec![8]);
    assert_eq!(entries[0].last_seen, Timestamp::from_timestamp(4, 0).unwrap());
    assert_eq!(entries[1].count, 1);
    store.clear();
    assert!(store.is_empty());
}
