use deimos::binary64::Real;
use deimos::dispatcher::wire::{ReportingMessage, WireError};

fn num(x: f64) -> Real {
    Real::from_bits(x.to_bits())
}

#[test]
fn schema_round_trip() {
    let msg = ReportingMessage::Schema {
        channel_names: vec!["daq7_tc_K".to_string(), "daq7_rtd_ohm".to_string()],
        channel_units: vec![Some("K".to_string()), Some("ohm".to_string())],
        monotonic_epoch_ns: 1_713_530_000_000_000_000_u64,
        is_session_end: false,
    };

    let mut buf = Vec::new();
    msg.encode_into(&mut buf).expect("encode Schema");
    let decoded = ReportingMessage::decode(&buf).expect("decode Schema");
    assert_eq!(msg, decoded);
}

#[test]
fn row_round_trip() {
    let msg = ReportingMessage::Row {
        seq: 42,
        timestamp: num(std::f64::consts::PI),
        system_time: "2026-04-19T14:32:01.123456789Z".to_string(),
        values: vec![num(300.15), num(99.87), num(-1.0)],
    };

    let mut buf = Vec::new();
    msg.encode_into(&mut buf).expect("encode Row");
    let decoded = ReportingMessage::decode(&buf).expect("decode Row");
    assert_eq!(msg, decoded);
}

#[test]
fn schema_tag_is_zero() {
    // postcard encodes enum variant 0 (Schema) as a leading 0x00 byte.
    let msg = ReportingMessage::Schema {
        channel_names: vec![],
        channel_units: vec![],
        monotonic_epoch_ns: 0,
        is_session_end: false,
    };
    let mut buf = Vec::new();
    msg.encode_into(&mut buf).expect("encode");
    assert_eq!(buf[0], 0x00, "Schema variant tag must be 0");
}

#[test]
fn row_tag_is_one() {
    // postcard encodes enum variant 1 (Row) as a leading 0x01 byte.
    let msg = ReportingMessage::Row {
        seq: 0,
        timestamp: num(0.0),
        system_time: String::new(),
        values: vec![],
    };
    let mut buf = Vec::new();
    msg.encode_into(&mut buf).expect("encode");
    assert_eq!(buf[0], 0x01, "Row variant tag must be 1");
}

#[test]
fn session_end_schema_round_trip() {
    // A Schema with is_session_end=true must round-trip correctly.
    let msg = ReportingMessage::Schema {
        channel_names: vec!["ch0".to_string()],
        channel_units: vec![None],
        monotonic_epoch_ns: 42,
        is_session_end: true,
    };
    let mut buf = Vec::new();
    msg.encode_into(&mut buf)
        .expect("encode session-end Schema");
    let decoded = ReportingMessage::decode(&buf).expect("decode session-end Schema");
    assert_eq!(msg, decoded);
}

#[test]
fn encode_into_appends_without_clearing() {
    // Verify that encode_into appends rather than overwrites.
    let mut buf = vec![0xFFu8; 4];
    let msg = ReportingMessage::Row {
        seq: 1,
        timestamp: num(0.0),
        system_time: String::new(),
        values: vec![],
    };
    let written_len = msg.encode_into(&mut buf).expect("encode");
    assert_eq!(&buf[..4], &[0xFF; 4], "prefix must be preserved");
    assert!(written_len > 0);
}

#[test]
fn rows_have_the_documented_layout() {
    let msg = ReportingMessage::Row {
        seq: 300,
        timestamp: num(1.0),
        system_time: "ab".to_string(),
        values: vec![num(2.0)],
    };
    let mut buf = Vec::new();
    let written = msg.encode_into(&mut buf).expect("encode");
    let mut expected = vec![0x01, 0xac, 0x02];
    expected.extend(1.0_f64.to_le_bytes());
    expected.extend([2, b'a', b'b', 1]);
    expected.extend(2.0_f64.to_le_bytes());
    assert_eq!(buf, expected);
    assert_eq!(written, expected.len());
}

#[test]
fn schemas_have_the_documented_layout() {
    let msg = ReportingMessage::Schema {
        channel_names: vec!["x".to_string()],
        channel_units: vec![Some("K".to_string())],
        monotonic_epoch_ns: 5,
        is_session_end: true,
    };
    let mut buf = Vec::new();
    msg.encode_into(&mut buf).expect("encode");
    assert_eq!(buf, [0, 1, 1, b'x', 1, 1, 1, b'K', 5, 1]);
}

#[test]
fn unknown_variants_and_truncated_messages_are_rejected() {
    assert!(matches!(
        ReportingMessage::decode(&[2, 0, 0]),
        Err(WireError::UnknownVariant(2))
    ));
    assert!(matches!(ReportingMessage::decode(&[]), Err(WireError::Codec(_))));
    assert!(matches!(ReportingMessage::decode(&[0, 1]), Err(WireError::Codec(_))));
    assert!(matches!(ReportingMessage::decode(&[1, 1]), Err(WireError::Codec(_))));
}
