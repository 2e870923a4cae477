use car_logger::ai_condition::{
    AiAvailability, InferenceSchedule, NotificationKind, NotificationTracker, ScoreBand,
};
use car_logger::time::Timestamp;

fn t(n: i64) -> Timestamp {
    Timestamp::from_timestamp(n, 0).unwrap()
}

fn band(score: f64) -> Option<ScoreBand> {
    Some(if score < 40.0 {
        ScoreBand::Low
    } else if score < 60.0 {
        ScoreBand::Reduced
    } else if score >= 60.0 {
        ScoreBand::Normal
    } else {
        ScoreBand::Unusable
    })
}

#[test]
fn preparation_and_five_second_period() {
    let mut s = InferenceSchedule::default();
    s.start(t(0));
    assert_eq!(s.availability(t(59)), AiAvailability::Preparing);
    assert!(s.take_due(t(60)));
    assert!(!s.take_due(t(64)));
    assert!(s.take_due(t(65)));
}

#[test]
fn unstarted_schedule_has_no_data() {
    let mut s = InferenceSchedule::default();
    assert_eq!(s.availability(t(1000)), AiAvailability::NoData);
    assert!(!s.take_due(t(1000)));
}

#[test]
fn notification_suppression_and_recovery() {
    let mut n = NotificationTracker::default();
    assert!(n.observe(band(30.), t(0)).is_none());
    assert!(n.observe(band(30.), t(5)).is_none());
    assert_eq!(n.observe(band(30.), t(10)).unwrap().kind, NotificationKind::LargeChange);
    assert!(n.observe(band(30.), t(20)).is_none());
    assert_eq!(n.observe(band(80.), t(30)).unwrap().kind, NotificationKind::Recovery);
}

#[test]
fn light_change_and_unusable_scores() {
    let mut n = NotificationTracker::default();
    assert!(n.observe(band(50.), t(0)).is_none());
    assert!(n.observe(None, t(1)).is_none());
    assert!(n.observe(band(50.), t(2)).is_none());
    let light = n.observe(band(50.), t(3)).unwrap();
    assert_eq!(light.kind, NotificationKind::LightChange);
    assert_eq!(light.at, t(3));
    assert_eq!(
        light.message,
        "通常との差がある状態が続いています。故障や安全性を断定するものではありません"
    );
    assert!(n.observe(band(50.), t(603)).is_some());
}

#[test]
fn unusable_score_resets_runs_and_notifies_nothing() {
    let mut n = NotificationTracker::default();
    assert!(n.observe(band(30.), t(0)).is_none());
    assert!(n.observe(band(30.), t(1)).is_none());
    assert!(n.observe(band(f64::NAN), t(2)).is_none());
    assert!(n.observe(band(30.), t(3)).is_none());
    assert!(n.observe(band(30.), t(4)).is_none());
    let large = n.observe(band(30.), t(5)).unwrap();
    assert_eq!(large.kind, NotificationKind::LargeChange);
    // Not a recovery: the tracker stays abnormal until a score of 60 or more.
    assert!(n.observe(band(f64::NAN), t(6)).is_none());
    assert_eq!(n.observe(band(70.), t(7)).unwrap().kind, NotificationKind::Recovery);
}
