use car_logger::retention::{aggregate, LogRetentionPolicy, RawFrame, RetentionError};
use car_logger::time::Timestamp;

fn frame(id: u32, data: &[u8], second: i64, nanos: u32) -> RawFrame {
    RawFrame {
        sequence_id: 0,
        signal_type: "CAN_ID".to_owned(),
        can_id: id,
        is_extended: false,
        is_remote: false,
        data: data.to_vec(),
        received_at: Timestamp::from_timestamp(second, nanos).unwrap(),
    }
}

#[test]
fn one_second_buckets_keep_observation_semantics() {
    let frames = vec![
        frame(0x123, &[20], 100, 100),
        frame(0x123, &[10], 100, 200),
        frame(0x123, &[30], 100, 300),
        frame(0x123, &[30], 101, 0),
    ];
    let buckets = aggregate(&frames);
    assert_eq!(buckets.len(), 2);
    let (key, bucket) = &buckets[0];
    assert_eq!(key.epoch, 100);
    assert_eq!(
        (bucket.min_data.clone(), bucket.max_data.clone(), bucket.frame_count, bucket.change_count),
        (vec![10], vec![30], 3, 2)
    );
    assert_eq!(bucket.first_data, vec![20]);
    assert_eq!(bucket.last_data, vec![30]);
    assert_eq!(buckets[1].0.epoch, 101);
    assert_eq!(buckets[1].1.frame_count, 1);
}

#[test]
fn buckets_are_ordered_by_signal_then_id_then_second() {
    let mut pid = frame(5, &[1], 50, 0);
    pid.signal_type = "PID".to_owned();
    let frames = vec![frame(9, &[1], 60, 0), pid, frame(2, &[1], 70, 0), frame(9, &[2], 50, 0)];
    let buckets = aggregate(&frames);
    let keys: Vec<(String, u32, i64)> =
        buckets.iter().map(|(k, _)| (k.signal_type.clone(), k.can_id, k.epoch)).collect();
    assert_eq!(
        keys,
        vec![
            ("CAN_ID".to_owned(), 2, 70),
            ("CAN_ID".to_owned(), 9, 50),
            ("CAN_ID".to_owned(), 9, 60),
            ("PID".to_owned(), 5, 50),
        ]
    );
}

#[test]
fn negative_times_fall_into_the_earlier_second() {
    let buckets = aggregate(&[frame(1, &[1], -1, 500_000_000)]);
    assert_eq!(buckets[0].0.epoch, -1);
    assert!(aggregate(&[]).is_empty());
}

#[test]
fn retention_policy_bounds_are_checked() {
    let now = Timestamp::from_timestamp(2_000_000_000, 0).unwrap();
    let policy = LogRetentionPolicy::default();
    assert_eq!(
        policy.cutoff(now).unwrap().nanos(),
        (2_000_000_000i128 - 14 * 86_400) * 1_000_000_000
    );
    let policy = LogRetentionPolicy { max_frames_per_run: 0, ..LogRetentionPolicy::default() };
    assert_eq!(policy.cutoff(now), Err(RetentionError::EmptyBatch));
    let policy = LogRetentionPolicy { raw_retention_nanos: 0, max_frames_per_run: 1 };
    assert_eq!(policy.cutoff(now), Err(RetentionError::NonPositiveRetention));
    let policy = LogRetentionPolicy { raw_retention_nanos: i128::MAX, max_frames_per_run: 1 };
    assert_eq!(policy.cutoff(now), Err(RetentionError::CutoffOutOfRange));
}

#[test]
fn cutoff_fails_before_the_earliest_utc_date_time() {
    let epoch = Timestamp::from_nanos(0).unwrap();
    let day: i128 = 86_400_000_000_000;
    let long = LogRetentionPolicy { raw_retention_nanos: 100_000_000 * day, max_frames_per_run: 1 };
    assert_eq!(long.cutoff(epoch), Err(RetentionError::CutoffOutOfRange));
    // The first day of the year -262143 is 96,465,292 days before the epoch.
    let exact = LogRetentionPolicy { raw_retention_nanos: 96_465_292 * day, max_frames_per_run: 1 };
    assert_eq!(exact.cutoff(epoch).unwrap().nanos(), -96_465_292 * day);
    let beyond =
        LogRetentionPolicy { raw_retention_nanos: 96_465_292 * day + 1, max_frames_per_run: 1 };
    assert_eq!(beyond.cutoff(epoch), Err(RetentionError::CutoffOutOfRange));
    assert!(Timestamp::from_nanos(8_210_266_876_799_999_999_999).is_some());
    assert!(Timestamp::from_nanos(8_210_266_876_800_000_000_000).is_none());
}
