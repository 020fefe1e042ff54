use espnow_mesh_temp_monitoring_rs::display::{
    render_cycle, to_string_ms, DisplayData, MqttLevelUnit, MqttStatus, TemperatureLevelUnit,
    WifiLevelUnit,
};
use espnow_mesh_temp_monitoring_rs::status_bus::{StatusBus, STATUS_CONNECTED};

#[test]
fn elapsed_time_line_has_millisecond_precision() {
    assert_eq!(to_string_ms(5025), "5.025 s");
    assert_eq!(to_string_ms(0), "0.000 s");
    assert_eq!(to_string_ms(5000), "5.000 s");
    assert_eq!(to_string_ms(61007), "61.007 s");
}

#[test]
fn measurement_line_is_fixed_width_with_the_value_right_aligned() {
    let mut item = TemperatureLevelUnit::new("Temp", 23450, "C");
    assert_eq!(item.to_string(), "Temp            23.4 C   ");
    item.set_level(-5);
    assert_eq!(item.to_string(), "Temp            -0.0 C   ");
    item.set_level(0);
    assert_eq!(item.to_string(), "Temp             0.0 C   ");
    item.set_level(-123456);
    assert_eq!(item.to_string(), "Temp          -123.4 C   ");
}

#[test]
fn measurement_layout_never_shifts_with_the_magnitude() {
    let levels: [i64; 6] = [0, -5, 23450, -123456, 9999999, i64::MIN];
    for level in levels {
        let item = TemperatureLevelUnit::new("Temp", level, "C");
        let line = item.to_string();
        assert_eq!(line.chars().count(), 25);
        assert_eq!(&line[0..12], "Temp        ");
        assert_eq!(&line[12..13], " ");
        assert_eq!(&line[20..21], " ");
        assert_eq!(&line[21..], "C   ");
    }
}

#[test]
fn long_labels_and_units_are_truncated_to_their_widths() {
    let item = TemperatureLevelUnit::new("Temperature gateway", 23450, "Celsius");
    assert_eq!(item.to_string(), "Temperature     23.4 Cels");
}

#[test]
fn link_quality_line_is_fixed_width() {
    let mut item = WifiLevelUnit::new("Wifi", 87, "%");
    assert_eq!(item.to_string(), "Wifi             87 %   ");
    item.set_level(5);
    assert_eq!(item.to_string(), "Wifi              5 %   ");
    item.set_level(100);
    assert_eq!(item.to_string(), "Wifi            100 %   ");
}

#[test]
fn broker_status_line_truncates_the_word_to_the_unit_field() {
    let mut item = MqttLevelUnit::new("MQTT client", 1);
    assert_eq!(item.to_string(), "MQTT client       1 Conn");
    item.update_status(90);
    assert_eq!(item.to_string(), "MQTT client      90 Erro");
    item.update_status(0);
    assert_eq!(item.to_string(), "MQTT client       0 Offl");
    item.update_status(2);
    assert_eq!(item.to_string(), "MQTT client       2 Disc");
    item.update_status(3);
    assert_eq!(item.to_string(), "MQTT client       3 Publ");
}

#[test]
fn status_codes_map_to_their_words() {
    assert_eq!(MqttStatus::from_u8(0), MqttStatus::Offline);
    assert_eq!(MqttStatus::from_u8(1), MqttStatus::Connected);
    assert_eq!(MqttStatus::from_u8(2), MqttStatus::Disconnected);
    assert_eq!(MqttStatus::from_u8(3), MqttStatus::Published);
    assert_eq!(MqttStatus::from_u8(90), MqttStatus::Failure);
    assert_eq!(MqttStatus::from_u8(91), MqttStatus::Failure);
    assert_eq!(MqttStatus::Offline.to_str(), "Offline");
    assert_eq!(MqttStatus::Connected.to_str(), "Connected");
    assert_eq!(MqttStatus::Disconnected.to_str(), "Disconnected");
    assert_eq!(MqttStatus::Published.to_str(), "Published");
    assert_eq!(MqttStatus::Failure.to_str(), "Error");
}

#[test]
fn the_redraw_clock_latches_the_elapsed_interval() {
    let mut data = DisplayData::new(
        TemperatureLevelUnit::new("Temp", 0, "C"),
        WifiLevelUnit::new("Wifi", 0, "%"),
        MqttLevelUnit::new("MQTT client", 0),
        1000,
    );
    data.perform_time_update(6000);
    assert_eq!(data.last_update_time, 6000);
    assert_eq!(data.last_update_duration, 5000);
    // a clock that moved backwards counts as no elapsed time
    data.perform_time_update(4000);
    assert_eq!(data.last_update_time, 4000);
    assert_eq!(data.last_update_duration, 0);
}

#[test]
fn a_render_cycle_produces_the_four_lines_in_fixed_order() {
    let mut bus = StatusBus::new();
    bus.set_measurement(23450);
    bus.set_signal_quality(87);
    bus.set_broker_status(STATUS_CONNECTED);
    let mut data = DisplayData::new(
        TemperatureLevelUnit::new("Temp", 0, "C"),
        WifiLevelUnit::new("Wifi", 0, "%"),
        MqttLevelUnit::new("MQTT client", 0),
        1000,
    );
    let snap = bus.snapshot();
    let lines = render_cycle(&mut data, &snap, 6000);
    assert_eq!(lines.len(), 4);
    assert_eq!(lines[0], "5.000 s");
    assert_eq!(lines[1], "Temp            23.4 C   ");
    assert_eq!(lines[2], "Wifi             87 %   ");
    assert_eq!(lines[3], "MQTT client       1 Conn");
}

#[test]
fn the_rendered_layout_is_identical_for_any_measurement_sign() {
    let mut bus = StatusBus::new();
    bus.set_signal_quality(87);
    bus.set_broker_status(STATUS_CONNECTED);
    let mut widths: Vec<usize> = Vec::new();
    for measurement in [23450i64, -23450, 0, 7] {
        bus.set_measurement(measurement);
        let mut data = DisplayData::new(
            TemperatureLevelUnit::new("Temp", 0, "C"),
            WifiLevelUnit::new("Wifi", 0, "%"),
            MqttLevelUnit::new("MQTT client", 0),
            0,
        );
        let snap = bus.snapshot();
        let lines = render_cycle(&mut data, &snap, 5000);
        widths.push(lines[1].chars().count());
        assert_eq!(&lines[1][0..13], "Temp         ");
        assert_eq!(&lines[1][21..], "C   ");
    }
    assert!(widths.iter().all(|w| *w == 25));
}
