use car_logger::domain::{unknown_observations, CanIdObservation, SignalDefinition, SignalKind};
use car_logger::time::Timestamp;

fn observation(id: u32) -> CanIdObservation {
    CanIdObservation { id, raw_payload: vec![1, 2], last_seen: Timestamp::from_nanos(0).unwrap(), count: 3 }
}

fn definition(id: u32) -> SignalDefinition {
    SignalDefinition { kind: SignalKind::CanId, id, name: "x".into(), unit: None, formula: "A".into() }
}

#[test]
fn only_undefined_ids_are_listed_as_unknown() {
    let observed = vec![observation(0x100), observation(0x200), observation(0x300)];
    let unknown = unknown_observations(observed, &[definition(0x200)]);
    assert_eq!(unknown.iter().map(|o| o.id).collect::<Vec<_>>(), vec![0x100, 0x300]);
    assert_eq!(unknown_observations(vec![observation(1)], &[]).len(), 1);
    assert!(unknown_observations(vec![observation(1)], &[definition(1)]).is_empty());
}
