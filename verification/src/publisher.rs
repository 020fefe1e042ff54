//! Telemetry publisher: the per-cycle decision machine around the broker
//! session, the topic naming, and the records built from the status bus.
//! The transport and the broker wire protocol are external collaborators;
//! the runtime shell opens the connection, performs the handshake and the
//! publish operations, and reports each outcome back as the next event.

use vstd::prelude::*;
use vstd::string::StringExecFns;

use crate::codec::{MacAddr, RecordKind, TelemetryRecord};
use crate::status_bus::{
    is_status_code, StatusBus, STATUS_CONNECTED, STATUS_ERR_NETWORK, STATUS_ERR_OTHER,
};

verus! {

/// Fixed cadence of publish cycles, in time units.
pub const PUBLISH_PERIOD_UNITS: u64 = 30;

/// Bound, in time units, on the transport connection attempt.
pub const CONNECT_TIMEOUT_UNITS: u64 = 10;

/// Where one publish cycle stands. Each cycle is independent: a failed cycle
/// is simply a gap in the telemetry stream, retried by the next tick.
#[derive(Clone, Copy, Debug, PartialEq, Eq, Structural)]
pub enum PublishState {
    /// Waiting for the transport connection to the broker endpoint.
    AwaitTransport,
    /// Transport open; waiting for the session handshake.
    AwaitHandshake,
    /// Session up; publishing the cycle's records in order.
    Publishing {
        /// The record currently being published.
        index: usize,
    },
    /// This cycle is over, for good or ill.
    CycleDone,
}

/// What the transport or the broker reported since the last step.
#[derive(Clone, Copy, Debug, PartialEq, Eq, Structural)]
pub enum PublishEvent {
    /// The transport connection was established within its timeout.
    TransportOpened,
    /// The transport connection failed or timed out.
    TransportFailed,
    /// The session handshake succeeded.
    HandshakeOk,
    /// The session handshake was rejected.
    HandshakeFailed {
        /// Whether the failure was a network-level one.
        network: bool,
    },
    /// The current record was delivered.
    PublishOk,
    /// Publishing the current record failed.
    PublishFailed {
        /// Whether the failure was session-level (network), which makes the
        /// rest of the cycle pointless.
        network: bool,
    },
}

/// What the runtime shell must do next.
#[derive(Clone, Copy, Debug, PartialEq, Eq, Structural)]
pub enum PublishAction {
    /// Perform the session handshake.
    Handshake,
    /// Latch this broker-status code into the bus; the cycle is over.
    SetStatusAndAbort {
        /// The code to latch.
        code: u8,
    },
    /// Latch this broker-status code, then publish the record at `index`.
    SetStatusThenPublish {
        /// The code to latch.
        code: u8,
        /// The record to publish next.
        index: usize,
    },
    /// Publish the record at `index`.
    PublishRecord {
        /// The record to publish next.
        index: usize,
    },
    /// Latch this broker-status code; there is nothing to publish.
    SetStatusAndFinish {
        /// The code to latch.
        code: u8,
    },
    /// The cycle completed with every record delivered.
    Finished,
    /// The event does not apply in this state; nothing to do.
    Ignore,
}

/// The publisher's per-cycle transition function over a cycle of `count`
/// records. A transport or handshake failure abandons the cycle with the
/// corresponding error code; a session-level publish failure abandons the
/// rest of the cycle, while a record-level one latches the error and moves
/// on to the next record.
pub open spec fn spec_cycle_step(count: usize, s: PublishState, e: PublishEvent) -> (
    PublishState,
    PublishAction,
) {
    match (s, e) {
        (PublishState::AwaitTransport, PublishEvent::TransportOpened) => (
            PublishState::AwaitHandshake,
            PublishAction::Handshake,
        ),
        (PublishState::AwaitTransport, PublishEvent::TransportFailed) => (
            PublishState::CycleDone,
            PublishAction::SetStatusAndAbort { code: STATUS_ERR_NETWORK },
        ),
        (PublishState::AwaitHandshake, PublishEvent::HandshakeOk) => if count == 0 {
            (
                PublishState::CycleDone,
                PublishAction::SetStatusAndFinish { code: STATUS_CONNECTED },
            )
        } else {
            (
                PublishState::Publishing { index: 0 },
                PublishAction::SetStatusThenPublish { code: STATUS_CONNECTED, index: 0 },
            )
        },
        (PublishState::AwaitHandshake, PublishEvent::HandshakeFailed { network }) => (
            PublishState::CycleDone,
            PublishAction::SetStatusAndAbort {
                code: if network {
                    STATUS_ERR_NETWORK
                } else {
                    STATUS_ERR_OTHER
                },
            },
        ),
        (PublishState::Publishing { index }, PublishEvent::PublishOk) => if index + 1 < count {
            (
                PublishState::Publishing { index: (index + 1) as usize },
                PublishAction::PublishRecord { index: (index + 1) as usize },
            )
        } else {
            (PublishState::CycleDone, PublishAction::Finished)
        },
        (PublishState::Publishing { index }, PublishEvent::PublishFailed { network }) => if network {
            (
                PublishState::CycleDone,
                PublishAction::SetStatusAndAbort { code: STATUS_ERR_NETWORK },
            )
        } else if index + 1 < count {
            (
                PublishState::Publishing { index: (index + 1) as usize },
                PublishAction::SetStatusThenPublish {
                    code: STATUS_ERR_OTHER,
                    index: (index + 1) as usize,
                },
            )
        } else {
            (
                PublishState::CycleDone,
                PublishAction::SetStatusAndAbort { code: STATUS_ERR_OTHER },
            )
        },
        _ => (s, PublishAction::Ignore),
    }
}

/// One step of the publish cycle: the next state and the action the runtime
/// shell must perform.
pub fn cycle_step(count: usize, state: PublishState, event: PublishEvent) -> (r: (
    PublishState,
    PublishAction,
))
    ensures
        r == spec_cycle_step(count, state, event),
{
    match (state, event) {
        (PublishState::AwaitTransport, PublishEvent::TransportOpened) => (
            PublishState::AwaitHandshake,
            PublishAction::Handshake,
        ),
        (PublishState::AwaitTransport, PublishEvent::TransportFailed) => (
            PublishState::CycleDone,
            PublishAction::SetStatusAndAbort { code: STATUS_ERR_NETWORK },
        ),
        (PublishState::AwaitHandshake, PublishEvent::HandshakeOk) => if count == 0 {
            (
                PublishState::CycleDone,
                PublishAction::SetStatusAndFinish { code: STATUS_CONNECTED },
            )
        } else {
            (
                PublishState::Publishing { index: 0 },
                PublishAction::SetStatusThenPublish { code: STATUS_CONNECTED, index: 0 },
            )
        },
        (PublishState::AwaitHandshake, PublishEvent::HandshakeFailed { network }) => (
            PublishState::CycleDone,
            PublishAction::SetStatusAndAbort {
                code: if network {
                    STATUS_ERR_NETWORK
                } else {
                    STATUS_ERR_OTHER
                },
            },
        ),
        (PublishState::Publishing { index }, PublishEvent::PublishOk) => {
            if count > 0 && index < count - 1 {
                (
                    PublishState::Publishing { index: index + 1 },
                    PublishAction::PublishRecord { index: index + 1 },
                )
            } else {
                (PublishState::CycleDone, PublishAction::Finished)
            }
        },
        (PublishState::Publishing { index }, PublishEvent::PublishFailed { network }) => {
            if network {
                (
                    PublishState::CycleDone,
                    PublishAction::SetStatusAndAbort { code: STATUS_ERR_NETWORK },
                )
            } else if count > 0 && index < count - 1 {
                (
                    PublishState::Publishing { index: index + 1 },
                    PublishAction::SetStatusThenPublish { code: STATUS_ERR_OTHER, index: index + 1 },
                )
            } else {
                (
                    PublishState::CycleDone,
                    PublishAction::SetStatusAndAbort { code: STATUS_ERR_OTHER },
                )
            }
        },
        (s, _) => (s, PublishAction::Ignore),
    }
}

/// The broker-status code an action latches, if it latches one.
pub open spec fn cycle_action_code(a: PublishAction) -> Option<u8> {
    match a {
        PublishAction::SetStatusAndAbort { code } => Option::Some(code),
        PublishAction::SetStatusThenPublish { code, index } => Option::Some(code),
        PublishAction::SetStatusAndFinish { code } => Option::Some(code),
        _ => Option::None,
    }
}

/// Whether an action asks the runtime shell to publish a record.
pub open spec fn is_publish_action(a: PublishAction) -> bool {
    a matches PublishAction::SetStatusThenPublish { .. } || a matches PublishAction::PublishRecord {
        ..
    }
}

/// Latch an action's broker-status code into the bus; an action without a
/// code leaves the bus untouched.
pub fn apply_status_action(bus: &mut StatusBus, action: PublishAction)
    requires
        match cycle_action_code(action) {
            Option::Some(c) => is_status_code(c),
            Option::None => true,
        },
    ensures
        final(bus)@ == match cycle_action_code(action) {
            Option::Some(c) => old(bus)@.with_broker_status(c),
            Option::None => old(bus)@,
        },
{
    match action {
        PublishAction::SetStatusAndAbort { code } => bus.set_broker_status(code),
        PublishAction::SetStatusThenPublish { code, index } => bus.set_broker_status(code),
        PublishAction::SetStatusAndFinish { code } => bus.set_broker_status(code),
        _ => {},
    }
}

/// Law: every broker-status code the cycle machine ever emits is one of the
/// documented codes, so latching it into the bus keeps the bus well-formed.
pub proof fn lemma_cycle_codes_valid(count: usize, s: PublishState, e: PublishEvent)
    ensures
        match cycle_action_code(spec_cycle_step(count, s, e).1) {
            Option::Some(c) => is_status_code(c),
            Option::None => true,
        },
{
}

/// The cycle state after feeding a sequence of events through the machine.
pub open spec fn spec_cycle_run(count: usize, s: PublishState, events: Seq<PublishEvent>)
    -> PublishState
    decreases events.len(),
{
    if events.len() == 0 {
        s
    } else {
        spec_cycle_run(count, spec_cycle_step(count, s, events[0]).0, events.drop_first())
    }
}

/// A finished cycle stays finished: no event moves it.
pub proof fn lemma_done_stays_done(count: usize, events: Seq<PublishEvent>)
    ensures
        spec_cycle_run(count, PublishState::CycleDone, events) == PublishState::CycleDone,
    decreases events.len(),
{
    if events.len() > 0 {
        lemma_done_stays_done(count, events.drop_first());
    }
}

/// Law: when the transport connection fails, the cycle ends at once with the
/// network-error code latched, and no record of this cycle is ever published,
/// whatever the broker reports afterwards.
pub proof fn lemma_transport_failure_aborts(count: usize, events: Seq<PublishEvent>, i: int)
    requires
        0 <= i < events.len(),
    ensures
        spec_cycle_step(count, PublishState::AwaitTransport, PublishEvent::TransportFailed) == (
            PublishState::CycleDone,
            PublishAction::SetStatusAndAbort { code: STATUS_ERR_NETWORK },
        ),
        !is_publish_action(
            spec_cycle_step(
                count,
                spec_cycle_run(count, PublishState::CycleDone, events.take(i)),
                events[i],
            ).1,
        ),
{
    lemma_done_stays_done(count, events.take(i));
}

/// Law: a handshake failure ends the cycle with the matching error code —
/// the network code for a network-level failure, the other-error code for
/// any other rejection — and publishes nothing.
pub proof fn lemma_handshake_failure_classified(count: usize, network: bool)
    ensures
        spec_cycle_step(
            count,
            PublishState::AwaitHandshake,
            PublishEvent::HandshakeFailed { network },
        ) == (
            PublishState::CycleDone,
            PublishAction::SetStatusAndAbort {
                code: if network {
                    STATUS_ERR_NETWORK
                } else {
                    STATUS_ERR_OTHER
                },
            },
        ),
{
}

/// Law: a failed publish latches the matching failure code: the network code
/// abandons the whole cycle, the other-error code moves on to the next
/// record when one remains.
pub proof fn lemma_publish_failure_classified(count: usize, index: usize, network: bool)
    ensures
        cycle_action_code(
            spec_cycle_step(
                count,
                PublishState::Publishing { index },
                PublishEvent::PublishFailed { network },
            ).1,
        ) == Option::Some(
            if network {
                STATUS_ERR_NETWORK
            } else {
                STATUS_ERR_OTHER
            },
        ),
        network ==> spec_cycle_step(
            count,
            PublishState::Publishing { index },
            PublishEvent::PublishFailed { network },
        ).0 == PublishState::CycleDone,
{
}

/// Law: a successful handshake latches the connected code, and a successful
/// publish latches nothing — the status stays connected through and after
/// successful deliveries.
pub proof fn lemma_success_path_status(count: usize, index: usize)
    ensures
        cycle_action_code(
            spec_cycle_step(count, PublishState::AwaitHandshake, PublishEvent::HandshakeOk).1,
        ) == Option::Some(STATUS_CONNECTED),
        cycle_action_code(
            spec_cycle_step(count, PublishState::Publishing { index }, PublishEvent::PublishOk).1,
        ) is None,
{
}

/// The topic path segment of a record kind.
pub open spec fn kind_segment(kind: RecordKind) -> Seq<char> {
    match kind {
        RecordKind::LinkQuality => "gateway"@,
        RecordKind::Temperature => "temperature"@,
    }
}

/// The hexadecimal digit character for `d` in `0..=15`, upper case.
pub open spec fn hex_digit_char(d: int) -> char {
    if d == 0 {
        '0'
    } else if d == 1 {
        '1'
    } else if d == 2 {
        '2'
    } else if d == 3 {
        '3'
    } else if d == 4 {
        '4'
    } else if d == 5 {
        '5'
    } else if d == 6 {
        '6'
    } else if d == 7 {
        '7'
    } else if d == 8 {
        '8'
    } else if d == 9 {
        '9'
    } else if d == 10 {
        'A'
    } else if d == 11 {
        'B'
    } else if d == 12 {
        'C'
    } else if d == 13 {
        'D'
    } else if d == 14 {
        'E'
    } else {
        'F'
    }
}

/// The canonical 17-character rendering of a hardware address: hexadecimal
/// octet pairs, upper case, separated by colons.
pub open spec fn spec_mac_chars(mac: Seq<u8>) -> Seq<char>
    recommends
        mac.len() == 6,
{
    Seq::new(
        17,
        |j: int|
            if j % 3 == 0 {
                hex_digit_char(mac[j / 3] as int / 16)
            } else if j % 3 == 1 {
                hex_digit_char(mac[j / 3] as int % 16)
            } else {
                ':'
            },
    )
}

/// Append the single hexadecimal digit `d`, upper case.
fn append_hex_char(s: &mut String, d: u8)
    requires
        d < 16,
    ensures
        final(s)@ == old(s)@ + seq![hex_digit_char(d as int)],
{
    match d {
        0 => {
            proof {
                reveal_strlit("0");
            }
            s.append("0");
        },
        1 => {
            proof {
                reveal_strlit("1");
            }
            s.append("1");
        },
        2 => {
            proof {
                reveal_strlit("2");
            }
            s.append("2");
        },
        3 => {
            proof {
                reveal_strlit("3");
            }
            s.append("3");
        },
        4 => {
            proof {
                reveal_strlit("4");
            }
            s.append("4");
        },
        5 => {
            proof {
                reveal_strlit("5");
            }
            s.append("5");
        },
        6 => {
            proof {
                reveal_strlit("6");
            }
            s.append("6");
        },
        7 => {
            proof {
                reveal_strlit("7");
            }
            s.append("7");
        },
        8 => {
            proof {
                reveal_strlit("8");
            }
            s.append("8");
        },
        9 => {
            proof {
                reveal_strlit("9");
            }
            s.append("9");
        },
        10 => {
            proof {
                reveal_strlit("A");
            }
            s.append("A");
        },
        11 => {
            proof {
                reveal_strlit("B");
            }
            s.append("B");
        },
        12 => {
            proof {
                reveal_strlit("C");
            }
            s.append("C");
        },
        13 => {
            proof {
                reveal_strlit("D");
            }
            s.append("D");
        },
        14 => {
            proof {
                reveal_strlit("E");
            }
            s.append("E");
        },
        _ => {
            proof {
                reveal_strlit("F");
            }
            s.append("F");
        },
    }
    assert(s@ =~= old(s)@ + seq![hex_digit_char(d as int)]);
}

/// The canonical rendering of a hardware address, used as the node identity
/// in topics and as the broker client identity.
pub fn mac_to_string(mac: &MacAddr) -> (r: String)
    ensures
        r@ == spec_mac_chars(mac.octets@),
{
    let mut r = String::new();
    let mut k: usize = 0;
    while k < 6
        invariant
            k <= 6,
            r@ == spec_mac_chars(mac.octets@).subrange(
                0,
                if k < 6 {
                    3 * k as int
                } else {
                    17
                },
            ),
        decreases 6 - k,
    {
        let b = mac.octets[k];
        append_hex_char(&mut r, b / 16);
        append_hex_char(&mut r, b % 16);
        if k < 5 {
            proof {
                reveal_strlit(":");
            }
            r.append(":");
        }
        k = k + 1;
        proof {
            let s = spec_mac_chars(mac.octets@);
            let upto = if k < 6 {
                3 * k as int
            } else {
                17
            };
            assert(r@ =~= s.subrange(0, upto));
        }
    }
    assert(spec_mac_chars(mac.octets@).subrange(0, 17) =~= spec_mac_chars(mac.octets@));
    r
}

/// The topic one record kind is published under, scoped by the record kind
/// and the node identity.
pub open spec fn spec_topic(kind: RecordKind, mac: Seq<u8>) -> Seq<char> {
    "/readings/"@ + kind_segment(kind) + "/"@ + spec_mac_chars(mac)
}

/// The topic string for a record kind and a node.
pub fn topic_for(kind: RecordKind, mac: &MacAddr) -> (r: String)
    ensures
        r@ == spec_topic(kind, mac.octets@),
{
    let mut r = String::new();
    r.append("/readings/");
    match kind {
        RecordKind::LinkQuality => r.append("gateway"),
        RecordKind::Temperature => r.append("temperature"),
    }
    r.append("/");
    let mac_str = mac_to_string(mac);
    r.append(mac_str.as_str());
    assert(r@ =~= spec_topic(kind, mac.octets@));
    r
}

/// The records one publish cycle sends: the node's own link-quality record
/// and the sensor's measurement record, stamped with the same uptime.
pub fn build_cycle_records(
    node_mac: &MacAddr,
    sensor_mac: &MacAddr,
    uptime_ms: u64,
    quality: u8,
    measurement_milli: i64,
) -> (records: Vec<TelemetryRecord>)
    ensures
        records@.len() == 2,
        records@[0].kind == RecordKind::LinkQuality,
        records@[0].node_id.octets@ == node_mac.octets@,
        records@[0].timestamp_ms == uptime_ms,
        records@[0].value_milli == quality as int * 1000,
        records@[1].kind == RecordKind::Temperature,
        records@[1].node_id.octets@ == sensor_mac.octets@,
        records@[1].timestamp_ms == uptime_ms,
        records@[1].value_milli == measurement_milli,
{
    let quality_record = TelemetryRecord {
        kind: RecordKind::LinkQuality,
        node_id: *node_mac,
        timestamp_ms: uptime_ms,
        value_milli: (quality as i64) * 1000,
    };
    let measurement_record = TelemetryRecord {
        kind: RecordKind::Temperature,
        node_id: *sensor_mac,
        timestamp_ms: uptime_ms,
        value_milli: measurement_milli,
    };
    let mut records: Vec<TelemetryRecord> = Vec::new();
    records.push(quality_record);
    records.push(measurement_record);
    records
}

} // verus!
