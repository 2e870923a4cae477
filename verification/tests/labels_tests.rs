use car_logger::domain::SignalKind;
use car_logger::health::ScoreDomain;
use car_logger::labels::{format_can_id, format_payload, format_signal_id, vehicle_header};

#[test]
fn can_ids_are_padded_to_three_hex_digits() {
    assert_eq!(format_can_id(0x7E8), "0x7E8");
    assert_eq!(format_can_id(0x1), "0x001");
    assert_eq!(format_can_id(0x1FFF_FFFF), "0x1FFFFFFF");
    assert_eq!(format_can_id(0), "0x000");
}

#[test]
fn signal_ids_depend_on_their_kind() {
    assert_eq!(format_signal_id(SignalKind::Pid, 0x0C), "0x0C");
    assert_eq!(format_signal_id(SignalKind::Pid, 0x1A6), "0x1A6");
    assert_eq!(format_signal_id(SignalKind::CanId, 0x0C), "0x00C");
}

#[test]
fn payloads_are_spaced_hex_bytes() {
    assert_eq!(format_payload(&[0x41, 0x0C, 0x1A, 0xF8]), "41 0C 1A F8");
    assert_eq!(format_payload(&[0]), "00");
    assert_eq!(format_payload(&[]), "");
}

#[test]
fn score_domains_have_headings() {
    assert_eq!(ScoreDomain::Thermal.label(), "Thermal");
    assert_eq!(ScoreDomain::AirFuel.label(), "Air / fuel");
    assert_eq!(ScoreDomain::RunningStability.label(), "Running stability");
    assert_eq!(ScoreDomain::Electrical.label(), "Electrical");
}

#[test]
fn the_header_names_the_first_vehicle() {
    let (name, detail) = vehicle_header(
        Some(("My BRZ", Some("Subaru"), Some("BRZ"), Some(2013), Some("JF1ZCAC13D1234567"))),
        1,
    );
    assert_eq!(name, "My BRZ");
    assert_eq!(detail, "Subaru BRZ · 2013 · VIN …234567");
    let (_, detail) = vehicle_header(Some(("86", None, Some("86"), None, None)), 3);
    assert_eq!(detail, "— 86 · — · VIN未登録 · 登録車両 3台");
    assert_eq!(
        vehicle_header(None, 0),
        ("車両未設定".to_string(), "クリックして車両情報を設定".to_string())
    );
}
