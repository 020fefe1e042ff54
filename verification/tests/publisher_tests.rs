use espnow_mesh_temp_monitoring_rs::codec::{MacAddr, RecordKind};
use espnow_mesh_temp_monitoring_rs::publisher::{
    apply_status_action, build_cycle_records, cycle_step, mac_to_string, topic_for, PublishAction,
    PublishEvent, PublishState,
};
use espnow_mesh_temp_monitoring_rs::status_bus::{
    StatusBus, STATUS_CONNECTED, STATUS_ERR_NETWORK, STATUS_ERR_OTHER, STATUS_OFFLINE,
};

fn node_mac() -> MacAddr {
    MacAddr { octets: [0xAA, 0xBB, 0xCC, 0xDD, 0xEE, 0xFF] }
}

fn sensor_mac() -> MacAddr {
    MacAddr { octets: [0x40, 0x91, 0x51, 0xCB, 0xA4, 0x64] }
}

#[test]
fn transport_failure_aborts_with_network_error_and_publishes_nothing() {
    let mut bus = StatusBus::new();
    assert_eq!(bus.get_broker_status(), STATUS_OFFLINE);
    let (state, action) = cycle_step(2, PublishState::AwaitTransport, PublishEvent::TransportFailed);
    assert_eq!(state, PublishState::CycleDone);
    assert_eq!(action, PublishAction::SetStatusAndAbort { code: STATUS_ERR_NETWORK });
    apply_status_action(&mut bus, action);
    assert_eq!(bus.get_broker_status(), STATUS_ERR_NETWORK);
    // whatever the broker reports afterwards, the finished cycle does nothing
    for event in [
        PublishEvent::TransportOpened,
        PublishEvent::HandshakeOk,
        PublishEvent::PublishOk,
        PublishEvent::PublishFailed { network: false },
    ] {
        let (next, action) = cycle_step(2, state, event);
        assert_eq!(next, PublishState::CycleDone);
        assert_eq!(action, PublishAction::Ignore);
    }
}

#[test]
fn handshake_failures_are_classified_into_status_codes() {
    let (state, action) = cycle_step(
        2,
        PublishState::AwaitHandshake,
        PublishEvent::HandshakeFailed { network: true },
    );
    assert_eq!(state, PublishState::CycleDone);
    assert_eq!(action, PublishAction::SetStatusAndAbort { code: STATUS_ERR_NETWORK });
    let (state, action) = cycle_step(
        2,
        PublishState::AwaitHandshake,
        PublishEvent::HandshakeFailed { network: false },
    );
    assert_eq!(state, PublishState::CycleDone);
    assert_eq!(action, PublishAction::SetStatusAndAbort { code: STATUS_ERR_OTHER });
}

#[test]
fn successful_cycle_goes_offline_connected_and_stays_connected() {
    let mut bus = StatusBus::new();
    assert_eq!(bus.get_broker_status(), STATUS_OFFLINE);

    let (state, action) = cycle_step(2, PublishState::AwaitTransport, PublishEvent::TransportOpened);
    assert_eq!(state, PublishState::AwaitHandshake);
    assert_eq!(action, PublishAction::Handshake);
    apply_status_action(&mut bus, action);
    assert_eq!(bus.get_broker_status(), STATUS_OFFLINE);

    let (state, action) = cycle_step(2, state, PublishEvent::HandshakeOk);
    assert_eq!(state, PublishState::Publishing { index: 0 });
    assert_eq!(action, PublishAction::SetStatusThenPublish { code: STATUS_CONNECTED, index: 0 });
    apply_status_action(&mut bus, action);
    assert_eq!(bus.get_broker_status(), STATUS_CONNECTED);

    let (state, action) = cycle_step(2, state, PublishEvent::PublishOk);
    assert_eq!(state, PublishState::Publishing { index: 1 });
    assert_eq!(action, PublishAction::PublishRecord { index: 1 });
    apply_status_action(&mut bus, action);
    assert_eq!(bus.get_broker_status(), STATUS_CONNECTED);

    let (state, action) = cycle_step(2, state, PublishEvent::PublishOk);
    assert_eq!(state, PublishState::CycleDone);
    assert_eq!(action, PublishAction::Finished);
    apply_status_action(&mut bus, action);
    assert_eq!(bus.get_broker_status(), STATUS_CONNECTED);
}

#[test]
fn session_level_publish_failure_abandons_the_cycle() {
    let mut bus = StatusBus::new();
    let (state, action) = cycle_step(
        2,
        PublishState::Publishing { index: 0 },
        PublishEvent::PublishFailed { network: true },
    );
    assert_eq!(state, PublishState::CycleDone);
    assert_eq!(action, PublishAction::SetStatusAndAbort { code: STATUS_ERR_NETWORK });
    apply_status_action(&mut bus, action);
    assert_eq!(bus.get_broker_status(), STATUS_ERR_NETWORK);
}

#[test]
fn record_level_publish_failure_moves_to_the_next_record() {
    let (state, action) = cycle_step(
        2,
        PublishState::Publishing { index: 0 },
        PublishEvent::PublishFailed { network: false },
    );
    assert_eq!(state, PublishState::Publishing { index: 1 });
    assert_eq!(action, PublishAction::SetStatusThenPublish { code: STATUS_ERR_OTHER, index: 1 });
    // on the last record there is nothing left to try
    let (state, action) = cycle_step(
        2,
        PublishState::Publishing { index: 1 },
        PublishEvent::PublishFailed { network: false },
    );
    assert_eq!(state, PublishState::CycleDone);
    assert_eq!(action, PublishAction::SetStatusAndAbort { code: STATUS_ERR_OTHER });
}

#[test]
fn handshake_with_no_records_just_latches_connected() {
    let (state, action) = cycle_step(0, PublishState::AwaitHandshake, PublishEvent::HandshakeOk);
    assert_eq!(state, PublishState::CycleDone);
    assert_eq!(action, PublishAction::SetStatusAndFinish { code: STATUS_CONNECTED });
}

#[test]
fn the_node_identity_renders_as_colon_separated_hex() {
    assert_eq!(mac_to_string(&node_mac()), "AA:BB:CC:DD:EE:FF");
    assert_eq!(mac_to_string(&sensor_mac()), "40:91:51:CB:A4:64");
    assert_eq!(mac_to_string(&MacAddr { octets: [0, 1, 2, 3, 4, 5] }), "00:01:02:03:04:05");
}

#[test]
fn topics_are_scoped_by_kind_and_node_identity() {
    assert_eq!(
        topic_for(RecordKind::LinkQuality, &node_mac()),
        "/readings/gateway/AA:BB:CC:DD:EE:FF"
    );
    assert_eq!(
        topic_for(RecordKind::Temperature, &sensor_mac()),
        "/readings/temperature/40:91:51:CB:A4:64"
    );
}

#[test]
fn one_cycle_builds_a_quality_and_a_measurement_record() {
    let records = build_cycle_records(&node_mac(), &sensor_mac(), 12345, 87, 23450);
    assert_eq!(records.len(), 2);
    assert_eq!(records[0].kind, RecordKind::LinkQuality);
    assert_eq!(records[0].node_id.octets, node_mac().octets);
    assert_eq!(records[0].timestamp_ms, 12345);
    assert_eq!(records[0].value_milli, 87000);
    assert_eq!(records[1].kind, RecordKind::Temperature);
    assert_eq!(records[1].node_id.octets, sensor_mac().octets);
    assert_eq!(records[1].timestamp_ms, 12345);
    assert_eq!(records[1].value_milli, 23450);
}
