use espnow_mesh_temp_monitoring_rs::codec::{
    encode_record, parse_record, MacAddr, RecordKind, TelemetryRecord,
};
use espnow_mesh_temp_monitoring_rs::payload::{build_payload, payload_to_vec};

fn node_mac() -> MacAddr {
    MacAddr { octets: [0xAA, 0xBB, 0xCC, 0xDD, 0xEE, 0xFF] }
}

fn sensor_mac() -> MacAddr {
    MacAddr { octets: [0x40, 0x91, 0x51, 0xCB, 0xA4, 0x64] }
}

fn assert_round_trips(rec: TelemetryRecord) {
    let encoded = encode_record(&rec);
    let parsed = parse_record(&encoded).expect("the encoding must parse back");
    assert_eq!(parsed.kind, rec.kind);
    assert_eq!(parsed.node_id.octets, rec.node_id.octets);
    assert_eq!(parsed.timestamp_ms, rec.timestamp_ms);
    assert_eq!(parsed.value_milli, rec.value_milli);
}

#[test]
fn link_quality_record_encodes_exactly() {
    let rec = TelemetryRecord {
        kind: RecordKind::LinkQuality,
        node_id: node_mac(),
        timestamp_ms: 12345,
        value_milli: 87000,
    };
    let encoded = encode_record(&rec);
    assert_eq!(
        String::from_utf8(encoded).unwrap(),
        "{\"macAddress\":\"AA:BB:CC:DD:EE:FF\", \"timestamp\":12345, \"rssi\":87.000}"
    );
}

#[test]
fn measurement_record_encodes_exactly() {
    let rec = TelemetryRecord {
        kind: RecordKind::Temperature,
        node_id: sensor_mac(),
        timestamp_ms: 98765,
        value_milli: -5,
    };
    let encoded = encode_record(&rec);
    assert_eq!(
        String::from_utf8(encoded).unwrap(),
        "{\"macAddress\":\"40:91:51:CB:A4:64\", \"timestamp\":98765, \"temperature\":-0.005}"
    );
}

#[test]
fn encoding_then_parsing_recovers_the_record() {
    assert_round_trips(TelemetryRecord {
        kind: RecordKind::LinkQuality,
        node_id: node_mac(),
        timestamp_ms: 12345,
        value_milli: 87000,
    });
    assert_round_trips(TelemetryRecord {
        kind: RecordKind::Temperature,
        node_id: sensor_mac(),
        timestamp_ms: 0,
        value_milli: 0,
    });
    assert_round_trips(TelemetryRecord {
        kind: RecordKind::Temperature,
        node_id: MacAddr { octets: [0, 0, 0, 0, 0, 0] },
        timestamp_ms: u64::MAX,
        value_milli: i64::MIN,
    });
    assert_round_trips(TelemetryRecord {
        kind: RecordKind::LinkQuality,
        node_id: MacAddr { octets: [0x0F, 0xF0, 0x10, 0x01, 0x99, 0x55] },
        timestamp_ms: 1,
        value_milli: i64::MAX,
    });
    assert_round_trips(TelemetryRecord {
        kind: RecordKind::Temperature,
        node_id: sensor_mac(),
        timestamp_ms: 1700000000123,
        value_milli: -327685,
    });
}

#[test]
fn malformed_payloads_are_rejected() {
    assert!(parse_record(&Vec::new()).is_none());
    assert!(parse_record(&b"{}".to_vec()).is_none());
    assert!(parse_record(
        &b"{\"macaddress\":\"AA:BB:CC:DD:EE:FF\", \"timestamp\":1, \"rssi\":1.000}".to_vec()
    )
    .is_none());
    // lower-case hex in the address
    assert!(parse_record(
        &b"{\"macAddress\":\"aa:bb:cc:dd:ee:ff\", \"timestamp\":1, \"rssi\":1.000}".to_vec()
    )
    .is_none());
    // missing fraction digits
    assert!(parse_record(
        &b"{\"macAddress\":\"AA:BB:CC:DD:EE:FF\", \"timestamp\":1, \"rssi\":1.0}".to_vec()
    )
    .is_none());
    // unknown field name
    assert!(parse_record(
        &b"{\"macAddress\":\"AA:BB:CC:DD:EE:FF\", \"timestamp\":1, \"humidity\":1.000}".to_vec()
    )
    .is_none());
    // trailing bytes after the closing brace
    assert!(parse_record(
        &b"{\"macAddress\":\"AA:BB:CC:DD:EE:FF\", \"timestamp\":1, \"rssi\":1.000} ".to_vec()
    )
    .is_none());
    // missing closing brace
    assert!(parse_record(
        &b"{\"macAddress\":\"AA:BB:CC:DD:EE:FF\", \"timestamp\":1, \"rssi\":1.000".to_vec()
    )
    .is_none());
    // timestamp too large for the record
    assert!(parse_record(
        &b"{\"macAddress\":\"AA:BB:CC:DD:EE:FF\", \"timestamp\":18446744073709551616, \"rssi\":1.000}"
            .to_vec()
    )
    .is_none());
    // value magnitude beyond the representable range
    assert!(parse_record(
        &b"{\"macAddress\":\"AA:BB:CC:DD:EE:FF\", \"timestamp\":1, \"rssi\":9223372036854775.808}"
            .to_vec()
    )
    .is_none());
}

#[test]
fn the_boundary_magnitudes_parse() {
    let min = parse_record(
        &b"{\"macAddress\":\"AA:BB:CC:DD:EE:FF\", \"timestamp\":1, \"rssi\":-9223372036854775.808}"
            .to_vec(),
    )
    .expect("the most negative value is representable");
    assert_eq!(min.value_milli, i64::MIN);
    let max = parse_record(
        &b"{\"macAddress\":\"AA:BB:CC:DD:EE:FF\", \"timestamp\":1, \"rssi\":9223372036854775.807}"
            .to_vec(),
    )
    .expect("the most positive value is representable");
    assert_eq!(max.value_milli, i64::MAX);
}

#[test]
fn the_bounded_buffer_holds_the_exact_encoding() {
    let rec = TelemetryRecord {
        kind: RecordKind::Temperature,
        node_id: sensor_mac(),
        timestamp_ms: 98765,
        value_milli: 23450,
    };
    let buf = build_payload(&rec).expect("every record's payload fits the buffer");
    let bytes = payload_to_vec(&buf);
    assert_eq!(bytes, encode_record(&rec));
    assert_eq!(
        String::from_utf8(bytes).unwrap(),
        "{\"macAddress\":\"40:91:51:CB:A4:64\", \"timestamp\":98765, \"temperature\":23.450}"
    );
    assert!(buf.len() <= 128);
}

#[test]
fn the_widest_record_still_fits_the_buffer() {
    let rec = TelemetryRecord {
        kind: RecordKind::Temperature,
        node_id: node_mac(),
        timestamp_ms: u64::MAX,
        value_milli: i64::MIN,
    };
    let buf = build_payload(&rec).expect("every record's payload fits the buffer");
    assert!(buf.len() <= 128);
    assert_round_trips(rec);
}
