use car_logger::builtin_signals::{builtin_pid_definitions, seed_builtin_definitions};
use car_logger::domain::{SignalDefinition, SignalKind};

#[test]
fn final_schema_includes_brz_86_builtin_pid_definitions() {
    let definitions = seed_builtin_definitions(Vec::new());
    let rpm = definitions
        .iter()
        .find(|definition| definition.kind == SignalKind::Pid && definition.id == 0x0C)
        .expect("Should seed engine RPM PID");
    assert_eq!(rpm.name, "Engine RPM");
    assert_eq!(rpm.unit.as_deref(), Some("rpm"));
    assert_eq!(rpm.formula, "((A*256)+B)/4");

    let oil_temperature = definitions
        .iter()
        .find(|definition| definition.kind == SignalKind::Pid && definition.id == 0x5C)
        .expect("Should seed engine oil temperature PID");
    assert_eq!(oil_temperature.name, "Engine oil temperature");
    assert_eq!(oil_temperature.unit.as_deref(), Some("degC"));
    assert_eq!(oil_temperature.formula, "A-40");
    assert_eq!(definitions.len(), builtin_pid_definitions().len());
}

#[test]
fn initialization_does_not_overwrite_existing_builtin_pid_definition() {
    let custom = SignalDefinition {
        kind: SignalKind::Pid,
        id: 0x0C,
        name: "Custom RPM".to_string(),
        unit: Some("rpm".to_string()),
        formula: "A".to_string(),
    };
    let definitions = seed_builtin_definitions(vec![custom.clone()]);
    let rpm: Vec<_> = definitions
        .iter()
        .filter(|definition| definition.kind == SignalKind::Pid && definition.id == 0x0C)
        .collect();
    assert_eq!(rpm.len(), 1);
    assert_eq!(rpm[0].name, "Custom RPM");
    assert_eq!(rpm[0].formula, "A");
    assert_eq!(definitions[0], custom);
    assert_eq!(definitions.len(), builtin_pid_definitions().len());
    // A CAN signal with the same number is a different signal.
    let can = SignalDefinition { kind: SignalKind::CanId, ..custom };
    assert_eq!(seed_builtin_definitions(vec![can]).len(), builtin_pid_definitions().len() + 1);
}

#[test]
fn builtin_table_has_the_odometer_last() {
    let all = builtin_pid_definitions();
    assert_eq!(all.len(), 27);
    let last = all.last().unwrap();
    assert_eq!(last.id, 0xA6);
    assert_eq!(last.formula, "((A*16777216)+(B*65536)+(C*256)+D)/10");
}
