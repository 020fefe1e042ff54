//! Status renderer: snapshots of the status bus formatted as fixed-width
//! text lines. Labels are truncated or padded to their configured widths and
//! values are right-aligned, so the layout never shifts with the magnitude of
//! a value. Drawing the lines onto the panel is the runtime shell's job.

use vstd::prelude::*;
use vstd::string::StrSliceExecFns;
use vstd::string::StringExecFns;

use crate::sampler::clamp_int;
use crate::text::{
    append_dec_u64, append_digit, append_spaces, dec_chars, dec_digit_char,
    lemma_dec_chars_len_le, pad_or_trunc, right_align_dec_u64, spec_pad_trunc, spec_pow10,
    spec_right_align,
};

verus! {

/// Width of the label field on the measurement line.
pub const MEAS_LABEL_WIDTH: usize = 12;

/// Width of the value field on the measurement line.
pub const MEAS_VALUE_WIDTH: usize = 7;

/// Width of the label field on the integer-level lines.
pub const LEVEL_LABEL_WIDTH: usize = 15;

/// Width of the value field on the integer-level lines.
pub const LEVEL_VALUE_WIDTH: usize = 3;

/// Width of the unit field; the broker-status word is truncated to it too.
pub const UNIT_WIDTH: usize = 4;

/// Largest measurement magnitude, in thousandths, that the value field can
/// show; larger values are clamped for display only.
pub const MEAS_DISPLAY_LIMIT: i64 = 9999999;

/// Broker-session status as the renderer names it.
#[derive(Clone, Copy, Debug, PartialEq, Eq, Structural)]
pub enum MqttStatus {
    /// No session yet.
    Offline,
    /// Handshake succeeded.
    Connected,
    /// Session lost.
    Disconnected,
    /// A record was delivered.
    Published,
    /// Any failure code.
    Failure,
}

/// The status named by a broker-status code from the status bus.
pub open spec fn spec_status_from_u8(value: u8) -> MqttStatus {
    if value == 0 {
        MqttStatus::Offline
    } else if value == 1 {
        MqttStatus::Connected
    } else if value == 2 {
        MqttStatus::Disconnected
    } else if value == 3 {
        MqttStatus::Published
    } else {
        MqttStatus::Failure
    }
}

impl MqttStatus {
    /// The word the renderer shows for this status.
    pub open spec fn spec_word(self) -> Seq<char> {
        match self {
            MqttStatus::Offline => "Offline"@,
            MqttStatus::Connected => "Connected"@,
            MqttStatus::Disconnected => "Disconnected"@,
            MqttStatus::Published => "Published"@,
            MqttStatus::Failure => "Error"@,
        }
    }

    /// The word the renderer shows for this status.
    pub fn to_str(&self) -> (r: &'static str)
        ensures
            r@ == self.spec_word(),
    {
        match self {
            MqttStatus::Offline => "Offline",
            MqttStatus::Connected => "Connected",
            MqttStatus::Disconnected => "Disconnected",
            MqttStatus::Published => "Published",
            MqttStatus::Failure => "Error",
        }
    }

    /// The status named by a broker-status code from the status bus.
    pub fn from_u8(value: u8) -> (r: MqttStatus)
        ensures
            r == spec_status_from_u8(value),
    {
        match value {
            0 => MqttStatus::Offline,
            1 => MqttStatus::Connected,
            2 => MqttStatus::Disconnected,
            3 => MqttStatus::Published,
            _ => MqttStatus::Failure,
        }
    }
}

/// A fixed-point value in thousandths shown with one decimal digit: an
/// optional sign, the integer part, a dot, and the tenths digit.
pub open spec fn spec_signed_tenths(v: int) -> Seq<char> {
    let mag = if v < 0 {
        -v
    } else {
        v
    };
    let sign: Seq<char> = if v < 0 {
        seq!['-']
    } else {
        Seq::empty()
    };
    sign + dec_chars(mag / 1000) + seq!['.'] + seq![dec_digit_char((mag % 1000) / 100)]
}

/// The measurement line: label to 12 places, one space, the value
/// right-aligned to 7 places with one decimal digit, one space, the unit to
/// 4 places. Values beyond the displayable range are clamped for display.
pub open spec fn spec_measurement_line(label: Seq<char>, v: int, unit: Seq<char>) -> Seq<char> {
    spec_pad_trunc(label, MEAS_LABEL_WIDTH as int) + seq![' '] + spec_right_align(
        spec_signed_tenths(clamp_int(v, -(MEAS_DISPLAY_LIMIT as int), MEAS_DISPLAY_LIMIT as int)),
        MEAS_VALUE_WIDTH as int,
    ) + seq![' '] + spec_pad_trunc(unit, UNIT_WIDTH as int)
}

/// An integer-level line: label to 15 places, one space, the level
/// right-aligned to 3 places, one space, the unit to 4 places.
pub open spec fn spec_level_line(label: Seq<char>, level: int, unit: Seq<char>) -> Seq<char> {
    spec_pad_trunc(label, LEVEL_LABEL_WIDTH as int) + seq![' '] + spec_right_align(
        dec_chars(level),
        LEVEL_VALUE_WIDTH as int,
    ) + seq![' '] + spec_pad_trunc(unit, UNIT_WIDTH as int)
}

/// The elapsed-time line: whole seconds, a dot, the milliseconds to three
/// digits, and the unit `s`.
pub open spec fn spec_elapsed_line(ms: int) -> Seq<char> {
    let r = ms % 1000;
    dec_chars(ms / 1000) + seq!['.'] + seq![
        dec_digit_char(r / 100),
        dec_digit_char((r / 10) % 10),
        dec_digit_char(r % 10),
    ] + seq![' ', 's']
}

/// The value shown with one decimal digit is at most 7 characters wide once
/// its magnitude is within the displayable range.
proof fn lemma_signed_tenths_len(v: int)
    requires
        -(MEAS_DISPLAY_LIMIT as int) <= v <= MEAS_DISPLAY_LIMIT as int,
    ensures
        spec_signed_tenths(v).len() <= MEAS_VALUE_WIDTH as int,
{
    let mag = if v < 0 {
        -v
    } else {
        v
    };
    reveal_with_fuel(spec_pow10, 5);
    assert(spec_pow10(4nat) == 10000);
    assert(mag / 1000 < 10000);
    lemma_dec_chars_len_le(mag / 1000, 4nat);
}

/// Law: the measurement line's layout never shifts with the value, whether
/// it is negative, zero, or many digits wide — for any two values the lines
/// have the same length, the same label field, and the same unit field; only
/// the right-aligned value field between them differs.
pub proof fn lemma_measurement_layout_fixed(label: Seq<char>, v1: int, v2: int, unit: Seq<char>)
    ensures
        spec_measurement_line(label, v1, unit).len() == 25,
        spec_measurement_line(label, v1, unit).subrange(0, 13) == spec_measurement_line(
            label,
            v2,
            unit,
        ).subrange(0, 13),
        spec_measurement_line(label, v1, unit).subrange(20, 25) == spec_measurement_line(
            label,
            v2,
            unit,
        ).subrange(20, 25),
{
    let lo = -(MEAS_DISPLAY_LIMIT as int);
    let hi = MEAS_DISPLAY_LIMIT as int;
    lemma_signed_tenths_len(clamp_int(v1, lo, hi));
    lemma_signed_tenths_len(clamp_int(v2, lo, hi));
    let l1 = spec_measurement_line(label, v1, unit);
    let l2 = spec_measurement_line(label, v2, unit);
    assert(l1.len() == 25);
    assert(l2.len() == 25);
    assert(l1.subrange(0, 13) =~= spec_pad_trunc(label, 12) + seq![' ']);
    assert(l2.subrange(0, 13) =~= spec_pad_trunc(label, 12) + seq![' ']);
    assert(l1.subrange(20, 25) =~= seq![' '] + spec_pad_trunc(unit, 4));
    assert(l2.subrange(20, 25) =~= seq![' '] + spec_pad_trunc(unit, 4));
}

/// Append the one-decimal rendering of `v` (in thousandths) to `s`.
fn append_signed_tenths(s: &mut String, v: i64)
    requires
        -(MEAS_DISPLAY_LIMIT as int) <= v <= MEAS_DISPLAY_LIMIT as int,
    ensures
        final(s)@ == old(s)@ + spec_signed_tenths(v as int),
{
    let mag: u64 = if v < 0 {
        proof {
            reveal_strlit("-");
        }
        s.append("-");
        assert(s@ =~= old(s)@ + seq!['-']);
        (-v) as u64
    } else {
        v as u64
    };
    append_dec_u64(s, mag / 1000);
    proof {
        reveal_strlit(".");
    }
    s.append(".");
    append_digit(s, ((mag % 1000) / 100) as u8);
    assert(s@ =~= old(s)@ + spec_signed_tenths(v as int));
}

/// The measurement value field: the one-decimal rendering of `v` clamped to
/// the displayable range, right-aligned to 7 places.
fn measurement_value_field(v: i64) -> (r: String)
    ensures
        r@ == spec_right_align(
            spec_signed_tenths(
                clamp_int(v as int, -(MEAS_DISPLAY_LIMIT as int), MEAS_DISPLAY_LIMIT as int),
            ),
            MEAS_VALUE_WIDTH as int,
        ),
        r@.len() == MEAS_VALUE_WIDTH,
{
    let cv: i64 = if v < -MEAS_DISPLAY_LIMIT {
        -MEAS_DISPLAY_LIMIT
    } else if v > MEAS_DISPLAY_LIMIT {
        MEAS_DISPLAY_LIMIT
    } else {
        v
    };
    let mut val = String::new();
    append_signed_tenths(&mut val, cv);
    proof {
        lemma_signed_tenths_len(cv as int);
    }
    let len = val.as_str().unicode_len();
    let mut r = String::new();
    if len < MEAS_VALUE_WIDTH {
        append_spaces(&mut r, MEAS_VALUE_WIDTH - len);
    }
    r.append(val.as_str());
    assert(r@ =~= spec_right_align(spec_signed_tenths(cv as int), MEAS_VALUE_WIDTH as int));
    r
}

/// Measurement shown on the panel: a label, a fixed-point level in
/// thousandths of the unit, and a unit suffix.
pub struct TemperatureLevelUnit {
    /// Line label.
    pub msg: &'static str,
    /// Measurement value, in thousandths of the unit.
    pub level: i64,
    /// Unit suffix.
    pub unit: &'static str,
}

impl TemperatureLevelUnit {
    /// A measurement line item with the given label, level and unit.
    pub fn new(msg: &'static str, level: i64, unit: &'static str) -> (r: TemperatureLevelUnit)
        ensures
            r.msg == msg,
            r.level == level,
            r.unit == unit,
    {
        TemperatureLevelUnit { msg, level, unit }
    }

    /// Replace the level; label and unit stay.
    pub fn set_level(&mut self, level: i64)
        ensures
            final(self).level == level,
            final(self).msg == old(self).msg,
            final(self).unit == old(self).unit,
    {
        self.level = level;
    }

    /// This item's fixed-width line.
    pub fn to_string(&self) -> (r: String)
        ensures
            r@ == spec_measurement_line(self.msg@, self.level as int, self.unit@),
            r@.len() == MEAS_LABEL_WIDTH + MEAS_VALUE_WIDTH + UNIT_WIDTH + 2,
    {
        let mut r = pad_or_trunc(self.msg, MEAS_LABEL_WIDTH);
        proof {
            reveal_strlit(" ");
        }
        r.append(" ");
        let value = measurement_value_field(self.level);
        r.append(value.as_str());
        r.append(" ");
        let unit = pad_or_trunc(self.unit, UNIT_WIDTH);
        r.append(unit.as_str());
        assert(r@ =~= spec_measurement_line(self.msg@, self.level as int, self.unit@));
        r
    }
}

/// Link quality shown on the panel: a label, an integer level, and a unit
/// suffix.
pub struct WifiLevelUnit {
    /// Line label.
    pub msg: &'static str,
    /// Level value.
    pub level: u8,
    /// Unit suffix.
    pub unit: &'static str,
}

impl WifiLevelUnit {
    /// A level line item with the given label, level and unit.
    pub fn new(msg: &'static str, level: u8, unit: &'static str) -> (r: WifiLevelUnit)
        ensures
            r.msg == msg,
            r.level == level,
            r.unit == unit,
    {
        WifiLevelUnit { msg, level, unit }
    }

    /// Replace the level; label and unit stay.
    pub fn set_level(&mut self, level: u8)
        ensures
            final(self).level == level,
            final(self).msg == old(self).msg,
            final(self).unit == old(self).unit,
    {
        self.level = level;
    }

    /// This item's fixed-width line.
    pub fn to_string(&self) -> (r: String)
        ensures
            r@ == spec_level_line(self.msg@, self.level as int, self.unit@),
            r@.len() == LEVEL_LABEL_WIDTH + LEVEL_VALUE_WIDTH + UNIT_WIDTH + 2,
    {
        level_line(self.msg, self.level, self.unit)
    }
}

/// A fixed-width integer-level line.
fn level_line(msg: &'static str, level: u8, unit: &'static str) -> (r: String)
    ensures
        r@ == spec_level_line(msg@, level as int, unit@),
        r@.len() == LEVEL_LABEL_WIDTH + LEVEL_VALUE_WIDTH + UNIT_WIDTH + 2,
{
    let mut r = pad_or_trunc(msg, LEVEL_LABEL_WIDTH);
    proof {
        reveal_strlit(" ");
        reveal_with_fuel(spec_pow10, 4);
        assert(spec_pow10(3nat) == 1000);
        lemma_dec_chars_len_le(level as int, 3nat);
    }
    r.append(" ");
    let value = right_align_dec_u64(level as u64, LEVEL_VALUE_WIDTH);
    r.append(value.as_str());
    r.append(" ");
    let unit_field = pad_or_trunc(unit, UNIT_WIDTH);
    r.append(unit_field.as_str());
    assert(r@ =~= spec_level_line(msg@, level as int, unit@));
    r
}

/// Broker-session status shown on the panel: a label, the raw status code,
/// and the status word.
pub struct MqttLevelUnit {
    /// Line label.
    pub msg: &'static str,
    /// Raw broker-status code.
    pub level: u8,
    /// The status the code names.
    pub unit: MqttStatus,
}

impl MqttLevelUnit {
    /// A status line item for the given label and broker-status code.
    pub fn new(msg: &'static str, level: u8) -> (r: MqttLevelUnit)
        ensures
            r.msg == msg,
            r.level == level,
            r.unit == spec_status_from_u8(level),
    {
        MqttLevelUnit { msg, level, unit: MqttStatus::from_u8(level) }
    }

    /// Latch a new broker-status code and the status it names.
    pub fn update_status(&mut self, level: u8)
        ensures
            final(self).level == level,
            final(self).unit == spec_status_from_u8(level),
            final(self).msg == old(self).msg,
    {
        self.level = level;
        self.unit = MqttStatus::from_u8(level);
    }

    /// This item's fixed-width line; the status word is truncated to the
    /// unit field like any other unit suffix.
    pub fn to_string(&self) -> (r: String)
        ensures
            r@ == spec_level_line(self.msg@, self.level as int, self.unit.spec_word()),
            r@.len() == LEVEL_LABEL_WIDTH + LEVEL_VALUE_WIDTH + UNIT_WIDTH + 2,
    {
        level_line(self.msg, self.level, self.unit.to_str())
    }
}

/// The elapsed-time line, from a duration in milliseconds.
pub fn to_string_ms(elapsed_ms: u64) -> (r: String)
    ensures
        r@ == spec_elapsed_line(elapsed_ms as int),
{
    let mut r = String::new();
    append_dec_u64(&mut r, elapsed_ms / 1000);
    proof {
        reveal_strlit(".");
    }
    r.append(".");
    let frac = elapsed_ms % 1000;
    append_digit(&mut r, (frac / 100) as u8);
    append_digit(&mut r, ((frac / 10) % 10) as u8);
    append_digit(&mut r, (frac % 10) as u8);
    proof {
        reveal_strlit(" s");
    }
    r.append(" s");
    assert(r@ =~= spec_elapsed_line(elapsed_ms as int));
    r
}

/// Everything the renderer latches between cycles: the three line items and
/// the time bookkeeping for the elapsed-time line.
pub struct DisplayData {
    /// The measurement line item.
    pub temperature: TemperatureLevelUnit,
    /// The link-quality line item.
    pub wifi: WifiLevelUnit,
    /// The broker-status line item.
    pub mqtt_client: MqttLevelUnit,
    /// When the last redraw happened, in milliseconds of uptime.
    pub last_update_time: u64,
    /// How long the last redraw interval was, in milliseconds.
    pub last_update_duration: u64,
}

impl DisplayData {
    /// Fresh renderer state holding the given line items, with the clock
    /// started at `now_ms`.
    pub fn new(
        temperature: TemperatureLevelUnit,
        wifi: WifiLevelUnit,
        mqtt_client: MqttLevelUnit,
        now_ms: u64,
    ) -> (r: DisplayData)
        ensures
            r.temperature == temperature,
            r.wifi == wifi,
            r.mqtt_client == mqtt_client,
            r.last_update_time == now_ms,
            r.last_update_duration == 0,
    {
        DisplayData { temperature, wifi, mqtt_client, last_update_time: now_ms, last_update_duration: 0 }
    }

    /// Advance the redraw clock to `now_ms`, latching the elapsed interval;
    /// a clock that moved backwards counts as no elapsed time.
    pub fn perform_time_update(&mut self, now_ms: u64)
        ensures
            final(self).last_update_time == now_ms,
            final(self).last_update_duration == if now_ms >= old(self).last_update_time {
                now_ms - old(self).last_update_time
            } else {
                0
            },
            final(self).temperature == old(self).temperature,
            final(self).wifi == old(self).wifi,
            final(self).mqtt_client == old(self).mqtt_client,
    {
        self.last_update_duration = if now_ms >= self.last_update_time {
            now_ms - self.last_update_time
        } else {
            0
        };
        self.last_update_time = now_ms;
    }
}

/// One render cycle: advance the redraw clock, latch the bus snapshot into
/// the line items, and produce the frame's lines in their fixed vertical
/// order: elapsed time, measurement, link quality, broker status.
pub fn render_cycle(
    data: &mut DisplayData,
    snap: &crate::status_bus::StatusSnapshot,
    now_ms: u64,
) -> (lines: Vec<String>)
    ensures
        final(data).last_update_time == now_ms,
        final(data).temperature.level == snap.measurement_milli,
        final(data).wifi.level == snap.signal_quality,
        final(data).mqtt_client.level == snap.broker_status,
        final(data).mqtt_client.unit == spec_status_from_u8(snap.broker_status),
        lines@.len() == 4,
        lines@[0]@ == spec_elapsed_line(
            if now_ms >= old(data).last_update_time {
                now_ms - old(data).last_update_time
            } else {
                0
            },
        ),
        lines@[1]@ == spec_measurement_line(
            old(data).temperature.msg@,
            snap.measurement_milli as int,
            old(data).temperature.unit@,
        ),
        lines@[2]@ == spec_level_line(
            old(data).wifi.msg@,
            snap.signal_quality as int,
            old(data).wifi.unit@,
        ),
        lines@[3]@ == spec_level_line(
            old(data).mqtt_client.msg@,
            snap.broker_status as int,
            spec_status_from_u8(snap.broker_status).spec_word(),
        ),
{
    data.perform_time_update(now_ms);
    let time_line = to_string_ms(data.last_update_duration);

    data.temperature.set_level(snap.measurement_milli);
    let measurement_line = data.temperature.to_string();

    data.wifi.set_level(snap.signal_quality);
    let wifi_line = data.wifi.to_string();

    data.mqtt_client.update_status(snap.broker_status);
    let mqtt_line = data.mqtt_client.to_string();

    let mut lines: Vec<String> = Vec::new();
    lines.push(time_line);
    lines.push(measurement_line);
    lines.push(wifi_line);
    lines.push(mqtt_line);
    lines
}

} // verus!
