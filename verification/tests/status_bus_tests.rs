use espnow_mesh_temp_monitoring_rs::status_bus::{
    StatusBus, STATUS_CONNECTED, STATUS_DISCONNECTED, STATUS_ERR_NETWORK, STATUS_ERR_OTHER,
    STATUS_OFFLINE, STATUS_PUBLISHED,
};

#[test]
fn every_cell_has_a_defined_default() {
    let bus = StatusBus::new();
    assert_eq!(bus.get_signal_quality(), 0);
    assert_eq!(bus.get_broker_status(), STATUS_OFFLINE);
    assert_eq!(bus.get_measurement(), 0);
}

#[test]
fn get_after_set_signal_quality_at_domain_edges() {
    let mut bus = StatusBus::new();
    bus.set_signal_quality(0);
    assert_eq!(bus.get_signal_quality(), 0);
    bus.set_signal_quality(100);
    assert_eq!(bus.get_signal_quality(), 100);
    bus.set_signal_quality(50);
    assert_eq!(bus.get_signal_quality(), 50);
}

#[test]
fn get_after_set_broker_status_for_every_code() {
    let mut bus = StatusBus::new();
    for code in [
        STATUS_OFFLINE,
        STATUS_CONNECTED,
        STATUS_DISCONNECTED,
        STATUS_PUBLISHED,
        STATUS_ERR_NETWORK,
        STATUS_ERR_OTHER,
    ] {
        bus.set_broker_status(code);
        assert_eq!(bus.get_broker_status(), code);
    }
}

#[test]
fn get_after_set_measurement_at_domain_edges() {
    let mut bus = StatusBus::new();
    bus.set_measurement(i64::MIN);
    assert_eq!(bus.get_measurement(), i64::MIN);
    bus.set_measurement(i64::MAX);
    assert_eq!(bus.get_measurement(), i64::MAX);
    bus.set_measurement(0);
    assert_eq!(bus.get_measurement(), 0);
}

#[test]
fn a_write_disturbs_no_other_cell() {
    let mut bus = StatusBus::new();
    bus.set_signal_quality(87);
    bus.set_broker_status(STATUS_CONNECTED);
    bus.set_measurement(23450);
    bus.set_signal_quality(12);
    assert_eq!(bus.get_broker_status(), STATUS_CONNECTED);
    assert_eq!(bus.get_measurement(), 23450);
    bus.set_broker_status(STATUS_ERR_NETWORK);
    assert_eq!(bus.get_signal_quality(), 12);
    assert_eq!(bus.get_measurement(), 23450);
    bus.set_measurement(-5);
    assert_eq!(bus.get_signal_quality(), 12);
    assert_eq!(bus.get_broker_status(), STATUS_ERR_NETWORK);
}

#[test]
fn snapshot_copies_every_cell() {
    let mut bus = StatusBus::new();
    bus.set_signal_quality(87);
    bus.set_broker_status(STATUS_CONNECTED);
    bus.set_measurement(23450);
    let snap = bus.snapshot();
    assert_eq!(snap.signal_quality, 87);
    assert_eq!(snap.broker_status, STATUS_CONNECTED);
    assert_eq!(snap.measurement_milli, 23450);
}
