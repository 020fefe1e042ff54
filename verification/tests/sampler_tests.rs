use espnow_mesh_temp_monitoring_rs::sampler::normalize;
use espnow_mesh_temp_monitoring_rs::temperature::raw_voltage_to_temp;
use espnow_mesh_temp_monitoring_rs::wifi::approx_rssi_to_percent;

#[test]
fn normalize_below_minimum_is_zero() {
    assert_eq!(normalize(-120, -90, -30), 0);
    assert_eq!(normalize(-91, -90, -30), 0);
    assert_eq!(normalize(-90, -90, -30), 0);
    assert_eq!(normalize(i32::MIN, -90, -30), 0);
}

#[test]
fn normalize_above_maximum_is_hundred() {
    assert_eq!(normalize(-30, -90, -30), 100);
    assert_eq!(normalize(-29, -90, -30), 100);
    assert_eq!(normalize(0, -90, -30), 100);
    assert_eq!(normalize(i32::MAX, -90, -30), 100);
}

#[test]
fn normalize_midpoint_is_fifty() {
    assert_eq!(normalize(-60, -90, -30), 50);
    assert_eq!(normalize(5, 0, 10), 50);
    assert_eq!(normalize(0, -100, 100), 50);
}

#[test]
fn normalize_rounds_the_linear_map() {
    // 1/3 of the domain: 33.5 rounds to 33; 2/3: 66.(6) + half rounds to 67
    assert_eq!(normalize(1, 0, 3), 33);
    assert_eq!(normalize(2, 0, 3), 67);
    assert_eq!(normalize(25, 0, 100), 25);
}

#[test]
fn rssi_percent_matches_the_configured_domain() {
    assert_eq!(approx_rssi_to_percent(-90), 0);
    assert_eq!(approx_rssi_to_percent(-100), 0);
    assert_eq!(approx_rssi_to_percent(-128), 0);
    assert_eq!(approx_rssi_to_percent(-30), 100);
    assert_eq!(approx_rssi_to_percent(0), 100);
    assert_eq!(approx_rssi_to_percent(-60), 50);
    assert_eq!(approx_rssi_to_percent(-75), 25);
}

#[test]
fn voltage_conversion_is_exact_in_thousandths() {
    // (raw - 0.5) / 100 units == 10 * raw - 5 thousandths
    assert_eq!(raw_voltage_to_temp(0), -5);
    assert_eq!(raw_voltage_to_temp(995), 9945);
    assert_eq!(raw_voltage_to_temp(1000), 9995);
    assert_eq!(raw_voltage_to_temp(-100), -1005);
    assert_eq!(raw_voltage_to_temp(i16::MAX), 327665);
    assert_eq!(raw_voltage_to_temp(i16::MIN), -327685);
}
