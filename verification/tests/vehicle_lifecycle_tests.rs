use car_logger::time::{Timestamp, NANOS_PER_DAY};
use car_logger::vehicle_data::{RefuelRequestError, RefuelStatus, VehicleAttribute};
use car_logger::vehicle_lifecycle::{
    confirm_permanent_delete, purge_due, registered_name, restore, soft_delete, DeletionState,
    VehicleError,
};

fn day(n: i128) -> Timestamp {
    Timestamp::from_nanos(1_767_225_600_000_000_000 + n * NANOS_PER_DAY).unwrap()
}

fn in_use() -> DeletionState {
    DeletionState { deleted_at: None, purge_after: None }
}

#[test]
fn deleted_vehicles_restore_within_thirty_days_and_purge_after() {
    let deleted = soft_delete(in_use(), day(0)).unwrap();
    assert_eq!(deleted.deleted_at, Some(day(0)));
    assert_eq!(deleted.purge_after, Some(day(30)));
    assert_eq!(restore(deleted, day(29)), Ok(in_use()));
    assert!(!purge_due(deleted, day(29)));
    assert_eq!(restore(deleted, day(30)), Err(VehicleError::NotRestorable));
    assert!(purge_due(deleted, day(30)));
    assert_eq!(soft_delete(deleted, day(1)), Err(VehicleError::AlreadyDeleted));
    assert_eq!(restore(in_use(), day(1)), Err(VehicleError::NotRestorable));
    assert!(!purge_due(in_use(), day(100)));
}

#[test]
fn permanent_deletion_needs_the_exact_name() {
    assert_eq!(confirm_permanent_delete("Exact Name", "wrong"), Err(VehicleError::NameMismatch));
    assert_eq!(confirm_permanent_delete("Exact Name", "exact name"), Err(VehicleError::NameMismatch));
    assert_eq!(confirm_permanent_delete("Exact Name", "Exact Name"), Ok(()));
    assert_eq!(
        VehicleError::NameMismatch.message(),
        "完全削除には車両名の正確な再入力が必要です"
    );
}

#[test]
fn display_names_are_trimmed_and_required() {
    assert_eq!(registered_name("  My BRZ "), Ok("My BRZ".to_string()));
    assert_eq!(registered_name(" "), Err(VehicleError::NameRequired));
    assert_eq!(VehicleError::NameRequired.message(), "表示名は必須です");
}

#[test]
fn confirmed_attribute_survives_later_automatic_observations() {
    let mut value = VehicleAttribute::observed("engine".into(), Some("ECU value 1".into()), "obd".into());
    value.confirm("Owner value".into());
    value.observe(Some("ECU value 2".into()), "obd".into());
    assert_eq!(value.automatic_value.as_deref(), Some("ECU value 2"));
    assert_eq!(value.effective_value.as_deref(), Some("Owner value"));
}

#[test]
fn observed_values_take_effect_until_the_owner_confirms() {
    let mut b = VehicleAttribute::observed("engine".into(), None, "vin".into());
    assert_eq!(b.effective_value, None);
    b.observe(Some("FA20".into()), "obd".into());
    assert_eq!(b.effective_value, Some("FA20".to_string()));
    assert_eq!(b.source, "obd");
}

#[test]
fn refuel_candidates_change_status_only_while_open() {
    assert_eq!(RefuelStatus::Unconfirmed.after_request(RefuelStatus::Deferred), Ok(RefuelStatus::Deferred));
    assert_eq!(RefuelStatus::Deferred.after_request(RefuelStatus::Rejected), Ok(RefuelStatus::Rejected));
    assert_eq!(RefuelStatus::Rejected.after_request(RefuelStatus::Deferred), Ok(RefuelStatus::Rejected));
    assert_eq!(RefuelStatus::Confirmed.after_request(RefuelStatus::Unconfirmed), Ok(RefuelStatus::Confirmed));
    assert_eq!(
        RefuelStatus::Unconfirmed.after_request(RefuelStatus::Confirmed),
        Err(RefuelRequestError::ConfirmNeedsAmounts)
    );
    assert!(RefuelStatus::Deferred.open());
    assert!(!RefuelStatus::Confirmed.open());
    assert_eq!(
        RefuelRequestError::ConfirmNeedsAmounts.message(),
        "確定にはconfirm_candidateを使用してください"
    );
}
