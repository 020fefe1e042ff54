//! Measurement conversion: the raw analog reading (millivolts) mapped to the
//! engineering unit. The library keeps measurements as integers in
//! thousandths of the unit, so the placeholder linear calibration
//! `(raw - 0.5) / 100` is represented exactly: `10 * raw - 5` thousandths.

use vstd::prelude::*;

verus! {

/// The placeholder linear calibration, in thousandths of the engineering
/// unit: `(raw - 0.5) / 100` units, exactly `10 * raw - 5` thousandths.
pub open spec fn spec_temp_milli(voltage_mv: int) -> int {
    10 * voltage_mv - 5
}

/// Convert a raw voltage reading (millivolts) to the measurement value in
/// thousandths of the engineering unit.
pub fn raw_voltage_to_temp(voltage_mv: i16) -> (t: i64)
    ensures
        t == spec_temp_milli(voltage_mv as int),
{
    10 * (voltage_mv as i64) - 5
}

} // verus!
