//! Metadata extraction and serialization.

use alice_view::{AliceError, AliceMetadata};

#[test]
fn unit_only_parses_and_reserializes() {
    let m = AliceMetadata::parse(b"{\"unit\":\"m/s\"}").unwrap();
    assert_eq!(m.unit.as_deref(), Some("m/s"));
    assert_eq!(m.sensor_id, None);
    assert_eq!(m.timestamp, None);
    assert_eq!(m.location, None);
    assert_eq!(m.description, None);

    let out = m.to_json();
    let text = String::from_utf8(out).unwrap();
    assert!(text.contains("\"unit\":\"m/s\""));
    assert!(!text.contains("sensor_id"));
    assert!(!text.contains("timestamp"));
    assert!(!text.contains("location"));
    assert!(!text.contains("description"));
}

#[test]
fn empty_input_gives_all_absent() {
    let m = AliceMetadata::parse(b"").unwrap();
    assert_eq!(m.sensor_id, None);
    assert_eq!(m.unit, None);
    assert_eq!(m.custom, None);
    assert_eq!(String::from_utf8(m.to_json()).unwrap(), "{}");
}

#[test]
fn invalid_utf8_fails_with_invalid_encoding() {
    assert!(matches!(
        AliceMetadata::parse(&[0xFF, 0xFE, b'{']),
        Err(AliceError::InvalidEncoding)
    ));
}

#[test]
fn unmatched_keys_are_absent_not_errors() {
    let m = AliceMetadata::parse(b"{\"flavor\":\"sweet\",\"size\":3}").unwrap();
    assert_eq!(m.sensor_id, None);
    assert_eq!(m.unit, None);
    assert_eq!(m.custom.as_deref(), Some("{\"flavor\":\"sweet\",\"size\":3}"));
}

#[test]
fn all_five_fields_roundtrip() {
    let mut m = AliceMetadata::default();
    m.sensor_id = Some("S-1".to_string());
    m.timestamp = Some("2025-01-30T12:00:00Z".to_string());
    m.location = Some("lab".to_string());
    m.unit = Some("K".to_string());
    m.description = Some("bench rig".to_string());
    let bytes = m.to_json();
    let text = String::from_utf8(bytes.clone()).unwrap();
    assert_eq!(
        text,
        "{\"sensor_id\":\"S-1\",\"timestamp\":\"2025-01-30T12:00:00Z\",\"location\":\"lab\",\"unit\":\"K\",\"description\":\"bench rig\"}"
    );
    let back = AliceMetadata::parse(&bytes).unwrap();
    assert_eq!(back.sensor_id.as_deref(), Some("S-1"));
    assert_eq!(back.timestamp.as_deref(), Some("2025-01-30T12:00:00Z"));
    assert_eq!(back.location.as_deref(), Some("lab"));
    assert_eq!(back.unit.as_deref(), Some("K"));
    assert_eq!(back.description.as_deref(), Some("bench rig"));
}

#[test]
fn key_without_closing_quote_is_absent() {
    let m = AliceMetadata::parse(b"{\"unit\":\"m/s").unwrap();
    assert_eq!(m.unit, None);
    assert_eq!(m.custom.as_deref(), Some("{\"unit\":\"m/s"));
}

#[test]
fn non_ascii_values_survive() {
    let m = AliceMetadata::parse("{\"unit\":\"°C\"}".as_bytes()).unwrap();
    assert_eq!(m.unit.as_deref(), Some("°C"));
}
