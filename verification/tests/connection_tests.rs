use car_logger::connection::{
    identify_vehicle, normalize_vin, ConnectionState, IdentificationOutcome, ReconnectController,
    ReconnectPolicy, VehicleIdentity, VehicleSelectionState,
};
use car_logger::time::Duration;

fn vehicle(id: i64, vin: Option<&str>) -> VehicleIdentity {
    VehicleIdentity { id, normalized_vin: vin.map(str::to_owned), deleted: false }
}

#[test]
fn vin_is_normalized_and_existing_vehicle_is_selected() {
    let vehicles = vec![vehicle(7, Some("JF1ZD8A11R1234567"))];
    assert_eq!(
        identify_vehicle(Some(" jf1zd8a11r1234567 "), &vehicles),
        IdentificationOutcome::ExistingVehicle { vehicle_id: 7 }
    );
}

#[test]
fn missing_vin_never_guesses_a_vehicle() {
    assert_eq!(
        identify_vehicle(None, &[vehicle(1, None)]),
        IdentificationOutcome::SelectionRequired
    );
}

#[test]
fn connected_and_viewed_vehicle_are_independent() {
    let mut state = VehicleSelectionState::default();
    state.set_viewed(Some(1));
    state.set_connected(Some(2));
    assert_eq!(state.viewed_vehicle_id, Some(1));
    assert_eq!(state.connected_vehicle_id, Some(2));
}

#[test]
fn reconnect_waits_five_seconds_and_stops_after_three_attempts() {
    let mut reconnect = ReconnectController::new(ReconnectPolicy::default());
    reconnect.on_disconnected(Duration::zero());
    assert_eq!(reconnect.poll(Duration::from_secs(4)), None);
    assert_eq!(reconnect.poll(Duration::from_secs(5)), Some(1));
    assert_eq!(reconnect.poll(Duration::from_secs(10)), Some(2));
    assert_eq!(reconnect.poll(Duration::from_secs(15)), Some(3));
    assert!(reconnect.exhausted());
    assert_eq!(reconnect.poll(Duration::from_secs(20)), None);
    assert_eq!(reconnect.timeout(), Duration::from_secs(10));
}

#[test]
fn automatic_connection_can_be_cancelled_without_waiting() {
    let mut reconnect = ReconnectController::new(ReconnectPolicy::default());
    reconnect.on_disconnected(Duration::zero());
    reconnect.cancel();
    assert_eq!(reconnect.poll(Duration::from_secs(60)), None);
    assert!(!reconnect.exhausted());
}

#[test]
fn retries_are_paced_from_the_previous_attempt() {
    let mut reconnect = ReconnectController::new(ReconnectPolicy::default());
    reconnect.on_disconnected(Duration::from_secs(100));
    assert_eq!(reconnect.poll(Duration::from_secs(107)), Some(1));
    assert_eq!(reconnect.poll(Duration::from_secs(111)), None);
    assert_eq!(reconnect.poll(Duration::from_secs(112)), Some(2));
}

#[test]
fn a_new_disconnect_restarts_the_count_after_cancel() {
    let mut reconnect = ReconnectController::new(ReconnectPolicy::default());
    reconnect.on_disconnected(Duration::zero());
    assert_eq!(reconnect.poll(Duration::from_secs(5)), Some(1));
    reconnect.cancel();
    reconnect.on_disconnected(Duration::from_secs(30));
    assert_eq!(reconnect.poll(Duration::from_secs(35)), Some(1));
}

#[test]
fn zero_attempt_policy_is_exhausted_at_once() {
    let policy = ReconnectPolicy { max_attempts: 0, ..ReconnectPolicy::default() };
    let mut reconnect = ReconnectController::new(policy);
    reconnect.on_disconnected(Duration::zero());
    assert!(reconnect.exhausted());
    assert_eq!(reconnect.poll(Duration::from_secs(100)), None);
}

#[test]
fn only_ready_state_permits_persistence() {
    assert!(ConnectionState::Ready { vehicle_id: 3 }.permits_persistence());
    assert!(ConnectionState::Ready { vehicle_id: 3 }.permits_health_or_realtime());
    assert!(!ConnectionState::Identified { vehicle_id: 3 }.permits_persistence());
    assert!(!ConnectionState::Disconnected.permits_health_or_realtime());
    assert_eq!(ConnectionState::Identified { vehicle_id: 3 }.connected_vehicle_id(), Some(3));
    assert_eq!(ConnectionState::Ready { vehicle_id: 4 }.connected_vehicle_id(), Some(4));
    assert_eq!(ConnectionState::LinkLost.connected_vehicle_id(), None);
}

#[test]
fn normalize_vin_trims_uppercases_and_validates() {
    assert_eq!(normalize_vin("  "), Ok(None));
    assert_eq!(
        normalize_vin("\tjf1zd8a11r1234567\n"),
        Ok(Some("JF1ZD8A11R1234567".to_owned()))
    );
    let error = "VIN must be 17 ASCII alphanumeric characters excluding I, O and Q".to_owned();
    assert_eq!(normalize_vin("JF1ZD8A11R123456"), Err(error.clone()));
    assert_eq!(normalize_vin("JF1ZD8A11R12345I7"), Err(error.clone()));
    assert_eq!(normalize_vin("JF1ZD8A11R12345-7"), Err(error));
}

#[test]
fn normalized_vin_normalizes_to_itself() {
    let once = normalize_vin(" jf1zd8a11r1234567").unwrap().unwrap();
    assert_eq!(normalize_vin(&once), Ok(Some(once.clone())));
}

#[test]
fn identification_covers_registration_duplicates_and_invalid_vins() {
    let vin = "JF1ZD8A11R1234567";
    assert_eq!(
        identify_vehicle(Some(vin), &[vehicle(1, Some("JF1ZD8A11R7654321"))]),
        IdentificationOutcome::RegistrationRequired { normalized_vin: Some(vin.to_owned()) }
    );
    assert_eq!(
        identify_vehicle(Some(vin), &[vehicle(1, Some(vin)), vehicle(2, Some(vin))]),
        IdentificationOutcome::SelectionRequired
    );
    let deleted = VehicleIdentity { id: 1, normalized_vin: Some(vin.to_owned()), deleted: true };
    assert_eq!(
        identify_vehicle(Some(vin), &[deleted, vehicle(2, Some(vin))]),
        IdentificationOutcome::ExistingVehicle { vehicle_id: 2 }
    );
    assert_eq!(
        identify_vehicle(Some("bad"), &[vehicle(1, Some(vin))]),
        IdentificationOutcome::InvalidVin(
            "VIN must be 17 ASCII alphanumeric characters excluding I, O and Q".to_owned()
        )
    );
    assert_eq!(identify_vehicle(Some("   "), &[]), IdentificationOutcome::SelectionRequired);
}
