use car_logger::time::Timestamp;
use car_logger::training::{
    evaluate_training_readiness, retraining_due, TrainingReadiness, TrainingSessionCandidate,
};

const MINUTE: i128 = 60_000_000_000;
const DAY: i128 = 86_400_000_000_000;

fn at(nanos: i128) -> Timestamp {
    Timestamp::from_nanos(nanos).unwrap()
}

fn candidates(now: i128, count: usize) -> Vec<TrainingSessionCandidate> {
    (0..count)
        .map(|index| {
            let start = now - 8 * DAY - (count - index) as i128 * 30 * MINUTE;
            TrainingSessionCandidate {
                session_id: index as i64,
                started_at: at(start),
                ended_at: at(start + 20 * MINUTE),
                health_score_below_90: false,
                coverage_below_80_percent: false,
                has_dtc_or_mil: false,
                has_fault_feedback: false,
                ai_score_below_70: false,
                sessions_since_maintenance: Some(3),
                driving_state: if index % 2 == 0 { "cruise" } else { "idle" }.into(),
            }
        })
        .collect()
}

const NOW: i128 = 1_800_000_000 * 1_000_000_000;

#[test]
fn training_boundaries_and_leak_free_chronological_split() {
    let values = candidates(NOW, 10);
    let (readiness, decisions) = evaluate_training_readiness(&values, at(NOW));
    assert!(decisions.values().all(Vec::is_empty));
    let TrainingReadiness::Ready(split) = readiness else { panic!("expected ready") };
    assert!(split.evaluation.len() >= 3);
    let mut all: Vec<i64> = split
        .training
        .iter()
        .chain(&split.validation)
        .chain(&split.calibration)
        .chain(&split.evaluation)
        .copied()
        .collect();
    all.sort();
    all.dedup();
    assert_eq!(all.len(), 10);
    assert!(split.training.last() < split.validation.first());
    assert!(split.validation.last() < split.calibration.first());
    assert!(split.calibration.last() < split.evaluation.first());
    assert!(split.validation.last() < split.evaluation.first());
}

#[test]
fn hold_dtc_and_maintenance_are_persisted_as_reasons() {
    let mut values = candidates(NOW, 10);
    values[0].ended_at = at(NOW - 6 * DAY);
    values[1].has_dtc_or_mil = true;
    values[2].sessions_since_maintenance = Some(2);
    let (_, decisions) = evaluate_training_readiness(&values, at(NOW));
    assert_eq!(decisions[&0], ["seven_day_hold"]);
    assert_eq!(decisions[&1], ["dtc_or_mil"]);
    assert_eq!(decisions[&2], ["maintenance_cooldown"]);
}

#[test]
fn retraining_requires_five_sessions_and_seven_days() {
    let now = at(NOW);
    assert!(!retraining_due(4, None, now));
    assert!(!retraining_due(5, Some(at(NOW - 6 * DAY)), now));
    assert!(retraining_due(5, Some(at(NOW - 7 * DAY)), now));
}

#[test]
fn short_history_waits_with_every_reason() {
    let values = candidates(NOW, 3);
    let (readiness, _) = evaluate_training_readiness(&values, at(NOW));
    assert_eq!(
        readiness,
        TrainingReadiness::Waiting(vec![
            "fewer_than_10_valid_sessions".to_owned(),
            "less_than_3_hours".to_owned(),
        ])
    );
    let mut uniform = candidates(NOW, 12);
    for v in uniform.iter_mut() {
        v.driving_state = "cruise".into();
    }
    let (readiness, _) = evaluate_training_readiness(&uniform, at(NOW));
    assert_eq!(
        readiness,
        TrainingReadiness::Waiting(vec!["driving_state_extremely_skewed".to_owned()])
    );
}

#[test]
fn every_rejection_reason_is_listed_in_order() {
    let mut values = candidates(NOW, 1);
    let c = &mut values[0];
    c.ended_at = at(NOW);
    c.health_score_below_90 = true;
    c.coverage_below_80_percent = true;
    c.has_dtc_or_mil = true;
    c.has_fault_feedback = true;
    c.sessions_since_maintenance = Some(0);
    c.ai_score_below_70 = true;
    let (_, decisions) = evaluate_training_readiness(&values, at(NOW));
    assert_eq!(
        decisions[&0],
        [
            "seven_day_hold",
            "health_score_below_90",
            "coverage_below_80_percent",
            "dtc_or_mil",
            "fault_feedback",
            "maintenance_cooldown",
            "ai_score_below_70"
        ]
    );
}

#[test]
fn split_sizes_follow_fifteen_percent_shares() {
    let values = candidates(NOW, 20);
    let (readiness, _) = evaluate_training_readiness(&values, at(NOW));
    let TrainingReadiness::Ready(split) = readiness else { panic!("expected ready") };
    assert_eq!(split.training, (0..11).collect::<Vec<i64>>());
    assert_eq!(split.validation, vec![11, 12, 13]);
    assert_eq!(split.calibration, vec![14, 15, 16]);
    assert_eq!(split.evaluation, vec![17, 18, 19]);
}
