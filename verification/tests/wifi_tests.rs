use espnow_mesh_temp_monitoring_rs::status_bus::StatusBus;
use espnow_mesh_temp_monitoring_rs::wifi::{
    connection_step, find_network_rssi, get_ssid_password, record_scan_quality, startup_step,
    ConnAction, ConnEvent, ConnectionState, ScanEntry, StartupWait,
};

#[test]
fn ssid_password_comes_from_the_configuration() {
    assert_eq!(get_ssid_password(Some(String::from("SECRET-REDACTED"))), "SECRET-REDACTED");
    assert_eq!(get_ssid_password(None), "NOT_FOUND");
}

#[test]
fn startup_applies_credentials_when_radio_is_down() {
    let (state, action) = connection_step(
        ConnectionState::Idle,
        ConnEvent::TaskStarted { radio_started: false },
    );
    assert_eq!(state, ConnectionState::Starting);
    assert_eq!(action, ConnAction::StartRadio);
    let (state, action) = connection_step(state, ConnEvent::RadioStarted);
    assert_eq!(state, ConnectionState::Connecting);
    assert_eq!(action, ConnAction::Associate);
}

#[test]
fn startup_skips_the_radio_start_when_already_started() {
    let (state, action) = connection_step(
        ConnectionState::Idle,
        ConnEvent::TaskStarted { radio_started: true },
    );
    assert_eq!(state, ConnectionState::Connecting);
    assert_eq!(action, ConnAction::Associate);
}

#[test]
fn always_failing_association_retries_forever_at_fixed_backoff() {
    let mut state = ConnectionState::Connecting;
    for _ in 0..100 {
        let (next, action) = connection_step(state, ConnEvent::AssociationFailed);
        assert_eq!(next, ConnectionState::Connecting);
        assert_eq!(action, ConnAction::AssociateAfterBackoff);
        state = next;
    }
}

#[test]
fn connected_scan_updates_quality_and_keeps_polling() {
    let (state, action) = connection_step(ConnectionState::Connecting, ConnEvent::AssociationSucceeded);
    assert_eq!(state, ConnectionState::Connected);
    assert_eq!(action, ConnAction::PollLater);
    let (state, action) = connection_step(state, ConnEvent::ScanMatched { raw_signal: -60 });
    assert_eq!(state, ConnectionState::Connected);
    assert_eq!(action, ConnAction::UpdateQualityThenPoll { quality: 50 });
    let (state, action) = connection_step(state, ConnEvent::ScanFailed);
    assert_eq!(state, ConnectionState::Connected);
    assert_eq!(action, ConnAction::PollLater);
}

#[test]
fn lost_link_settles_then_restarts() {
    let (state, action) = connection_step(ConnectionState::Connected, ConnEvent::DisconnectObserved);
    assert_eq!(state, ConnectionState::Retrying);
    assert_eq!(action, ConnAction::SettleThenRestart);
    let (state, action) = connection_step(state, ConnEvent::SettleElapsed);
    assert_eq!(state, ConnectionState::Starting);
    assert_eq!(action, ConnAction::StartRadio);
}

#[test]
fn a_scan_without_the_network_triggers_a_restart() {
    let (state, action) = connection_step(ConnectionState::Connected, ConnEvent::ScanNoMatch);
    assert_eq!(state, ConnectionState::Retrying);
    assert_eq!(action, ConnAction::SettleThenRestart);
}

#[test]
fn scan_results_yield_the_last_matching_network() {
    // a scan may list the same network more than once; each match
    // overwrites the previous one, so the last seen wins
    let entries = vec![
        ScanEntry { ssid: String::from("neighbour"), signal_strength: -40, channel: 1 },
        ScanEntry { ssid: String::from("home"), signal_strength: -60, channel: 6 },
        ScanEntry { ssid: String::from("home"), signal_strength: -80, channel: 11 },
    ];
    let target = String::from("home");
    assert_eq!(find_network_rssi(&entries, &target), Some(-80));
    let missing = String::from("office");
    assert_eq!(find_network_rssi(&entries, &missing), None);
}

#[test]
fn a_matching_scan_latches_the_normalized_quality() {
    let mut bus = StatusBus::new();
    let entries = vec![ScanEntry { ssid: String::from("home"), signal_strength: -60, channel: 6 }];
    let target = String::from("home");
    assert!(record_scan_quality(&mut bus, &entries, &target));
    assert_eq!(bus.get_signal_quality(), 50);
}

#[test]
fn a_twice_seen_network_latches_the_last_match() {
    let mut bus = StatusBus::new();
    let entries = vec![
        ScanEntry { ssid: String::from("home"), signal_strength: -45, channel: 6 },
        ScanEntry { ssid: String::from("home"), signal_strength: -80, channel: 11 },
    ];
    let target = String::from("home");
    assert!(record_scan_quality(&mut bus, &entries, &target));
    assert_eq!(bus.get_signal_quality(), 17);
}

#[test]
fn a_missed_scan_changes_nothing() {
    let mut bus = StatusBus::new();
    bus.set_signal_quality(73);
    let entries = vec![ScanEntry { ssid: String::from("other"), signal_strength: -40, channel: 1 }];
    let target = String::from("home");
    assert!(!record_scan_quality(&mut bus, &entries, &target));
    assert_eq!(bus.get_signal_quality(), 73);
}

#[test]
fn startup_wait_needs_the_link_and_then_an_address() {
    let mut s = StartupWait::WaitingLink;
    s = startup_step(s, false, false);
    assert_eq!(s, StartupWait::WaitingLink);
    s = startup_step(s, true, false);
    assert_eq!(s, StartupWait::WaitingAddress);
    s = startup_step(s, true, false);
    assert_eq!(s, StartupWait::WaitingAddress);
    s = startup_step(s, true, true);
    assert_eq!(s, StartupWait::Ready);
    s = startup_step(s, false, false);
    assert_eq!(s, StartupWait::Ready);
}
