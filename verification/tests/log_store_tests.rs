use car_logger::domain::{SignalDefinition, SignalKind};
use car_logger::log_store::{definition_map, signal_key, DuckdbCanFrameRepository, ScopeError};

#[test]
fn capture_context_selects_the_vehicle_and_clearing_keeps_the_scope() {
    let mut store = DuckdbCanFrameRepository::from_connection((), false);
    assert_eq!(store.vehicle_scope(), Err(ScopeError::NoVehicleSelected));
    store.set_capture_context(10, 3);
    assert_eq!(store.capture_context(), Some((10, 3)));
    assert_eq!(store.vehicle_scope(), Ok(10));
    store.select_vehicle(20);
    assert_eq!(store.capture_context(), Some((10, 3)));
    assert_eq!(store.vehicle_scope(), Ok(20));
    store.clear_capture_context();
    assert_eq!(store.capture_context(), None);
    assert_eq!(store.vehicle_scope(), Ok(20));
    assert_eq!(store.writable(), Ok(()));
}

#[test]
fn read_only_store_refuses_writes() {
    let store = DuckdbCanFrameRepository::from_connection((), true);
    assert!(store.is_read_only());
    assert_eq!(store.writable(), Err(ScopeError::ReadOnly));
}

#[test]
fn definitions_are_indexed_by_kind_and_id() {
    let def = |kind, id, name: &str| SignalDefinition {
        kind,
        id,
        name: name.to_owned(),
        unit: None,
        formula: "raw".to_owned(),
    };
    let map = definition_map(vec![
        def(SignalKind::CanId, 12, "first"),
        def(SignalKind::Pid, 12, "pid"),
        def(SignalKind::CanId, 12, "second"),
    ]);
    assert_eq!(map.len(), 2);
    assert_eq!(map[&signal_key(SignalKind::CanId, 12)].name, "second");
    assert_eq!(map[&signal_key(SignalKind::Pid, 12)].name, "pid");
    assert_ne!(signal_key(SignalKind::CanId, 1), signal_key(SignalKind::Pid, 1));
}
