//! Connection manager: the retry state machine that owns the wireless link,
//! and the scan-processing path that re-samples link quality into the status
//! bus. The radio driver itself is an external collaborator; the runtime
//! shell performs each requested action and reports the outcome back as the
//! next event.

use vstd::prelude::*;

use crate::sampler::{normalize, spec_normalize};
use crate::status_bus::StatusBus;

verus! {

/// Lower edge of the raw signal-metric domain.
pub const RSSI_DOMAIN_MIN: i32 = -90;

/// Upper edge of the raw signal-metric domain.
pub const RSSI_DOMAIN_MAX: i32 = -30;

/// Fixed backoff, in time units, between failed association attempts.
pub const RETRY_BACKOFF_UNITS: u64 = 5;

/// Fixed interval, in time units, between link-quality re-scans while
/// connected.
pub const POLL_INTERVAL_UNITS: u64 = 10;

/// Fixed settle delay, in time units, before restarting after a lost link.
pub const SETTLE_UNITS: u64 = 5;

/// Poll period, in milliseconds, while waiting for the link at startup.
pub const STARTUP_POLL_MS: u64 = 500;

/// The network credential, or the placeholder when none was supplied.
pub fn get_ssid_password(configured: Option<String>) -> (r: String)
    ensures
        match configured {
            Option::Some(p) => r@ == p@,
            Option::None => r@ == "NOT_FOUND"@,
        },
{
    match configured {
        Option::Some(p) => p,
        Option::None => {
            let fallback = "NOT_FOUND";
            fallback.to_owned()
        },
    }
}

/// Normalized link quality of a raw signal metric over the configured
/// domain.
pub fn approx_rssi_to_percent(rssi: i8) -> (q: u8)
    ensures
        q == spec_normalize(rssi as int, RSSI_DOMAIN_MIN as int, RSSI_DOMAIN_MAX as int),
        q <= 100,
{
    normalize(rssi as i32, RSSI_DOMAIN_MIN, RSSI_DOMAIN_MAX)
}

/// The connection manager's private state. Initial state `Idle`; there is no
/// terminal state, the manager runs for the process lifetime.
#[derive(Clone, Copy, Debug, PartialEq, Eq, Structural)]
pub enum ConnectionState {
    /// Task not yet started.
    Idle,
    /// Radio start requested, not yet reported started.
    Starting,
    /// Radio started, association not yet achieved.
    Connecting,
    /// Associated; link quality is re-sampled periodically.
    Connected,
    /// Link lost; settling before a restart.
    Retrying,
}

/// What the radio or the network stack reported since the last step.
#[derive(Clone, Copy, Debug, PartialEq, Eq, Structural)]
pub enum ConnEvent {
    /// The manager task began running.
    TaskStarted {
        /// Whether the radio already reports started.
        radio_started: bool,
    },
    /// The radio reports started.
    RadioStarted,
    /// An association attempt succeeded.
    AssociationSucceeded,
    /// An association attempt failed.
    AssociationFailed,
    /// A link-quality scan failed outright.
    ScanFailed,
    /// A scan found the configured network.
    ScanMatched {
        /// Its raw signal metric.
        raw_signal: i8,
    },
    /// A scan completed without finding the configured network.
    ScanNoMatch,
    /// The link was observed down.
    DisconnectObserved,
    /// The settle delay after a lost link elapsed.
    SettleElapsed,
}

/// What the runtime shell must do next.
#[derive(Clone, Copy, Debug, PartialEq, Eq, Structural)]
pub enum ConnAction {
    /// Apply the stored credentials and request a radio start.
    StartRadio,
    /// Attempt association now.
    Associate,
    /// Wait the fixed backoff, then attempt association again.
    AssociateAfterBackoff,
    /// Write this quality to the status bus, wait the poll interval, then
    /// scan again.
    UpdateQualityThenPoll {
        /// The normalized link quality to latch.
        quality: u8,
    },
    /// Wait the poll interval, then scan again (a failed scan is skipped
    /// silently).
    PollLater,
    /// Wait the settle delay, then report it elapsed.
    SettleThenRestart,
    /// The event does not apply in this state; nothing to do.
    Ignore,
}

/// The connection manager's transition function. A failed association is
/// retried indefinitely after the fixed backoff; there is no retry cutoff.
pub open spec fn spec_connection_step(s: ConnectionState, e: ConnEvent) -> (ConnectionState,
    ConnAction) {
    match (s, e) {
        (ConnectionState::Idle, ConnEvent::TaskStarted { radio_started }) => if radio_started {
            (ConnectionState::Connecting, ConnAction::Associate)
        } else {
            (ConnectionState::Starting, ConnAction::StartRadio)
        },
        (ConnectionState::Starting, ConnEvent::RadioStarted) => (
            ConnectionState::Connecting,
            ConnAction::Associate,
        ),
        (ConnectionState::Connecting, ConnEvent::AssociationSucceeded) => (
            ConnectionState::Connected,
            ConnAction::PollLater,
        ),
        (ConnectionState::Connecting, ConnEvent::AssociationFailed) => (
            ConnectionState::Connecting,
            ConnAction::AssociateAfterBackoff,
        ),
        (ConnectionState::Connected, ConnEvent::ScanMatched { raw_signal }) => (
            ConnectionState::Connected,
            ConnAction::UpdateQualityThenPoll {
                quality: spec_normalize(
                    raw_signal as int,
                    RSSI_DOMAIN_MIN as int,
                    RSSI_DOMAIN_MAX as int,
                ) as u8,
            },
        ),
        (ConnectionState::Connected, ConnEvent::ScanFailed) => (
            ConnectionState::Connected,
            ConnAction::PollLater,
        ),
        (ConnectionState::Connected, ConnEvent::ScanNoMatch) => (
            ConnectionState::Retrying,
            ConnAction::SettleThenRestart,
        ),
        (ConnectionState::Connected, ConnEvent::DisconnectObserved) => (
            ConnectionState::Retrying,
            ConnAction::SettleThenRestart,
        ),
        (ConnectionState::Retrying, ConnEvent::SettleElapsed) => (
            ConnectionState::Starting,
            ConnAction::StartRadio,
        ),
        _ => (s, ConnAction::Ignore),
    }
}

/// One step of the connection manager: the next state and the action the
/// runtime shell must perform.
pub fn connection_step(state: ConnectionState, event: ConnEvent) -> (r: (
    ConnectionState,
    ConnAction,
))
    ensures
        r == spec_connection_step(state, event),
{
    match (state, event) {
        (ConnectionState::Idle, ConnEvent::TaskStarted { radio_started }) => if radio_started {
            (ConnectionState::Connecting, ConnAction::Associate)
        } else {
            (ConnectionState::Starting, ConnAction::StartRadio)
        },
        (ConnectionState::Starting, ConnEvent::RadioStarted) => (
            ConnectionState::Connecting,
            ConnAction::Associate,
        ),
        (ConnectionState::Connecting, ConnEvent::AssociationSucceeded) => (
            ConnectionState::Connected,
            ConnAction::PollLater,
        ),
        (ConnectionState::Connecting, ConnEvent::AssociationFailed) => (
            ConnectionState::Connecting,
            ConnAction::AssociateAfterBackoff,
        ),
        (ConnectionState::Connected, ConnEvent::ScanMatched { raw_signal }) => {
            let quality = approx_rssi_to_percent(raw_signal);
            (ConnectionState::Connected, ConnAction::UpdateQualityThenPoll { quality })
        },
        (ConnectionState::Connected, ConnEvent::ScanFailed) => (
            ConnectionState::Connected,
            ConnAction::PollLater,
        ),
        (ConnectionState::Connected, ConnEvent::ScanNoMatch) => (
            ConnectionState::Retrying,
            ConnAction::SettleThenRestart,
        ),
        (ConnectionState::Connected, ConnEvent::DisconnectObserved) => (
            ConnectionState::Retrying,
            ConnAction::SettleThenRestart,
        ),
        (ConnectionState::Retrying, ConnEvent::SettleElapsed) => (
            ConnectionState::Starting,
            ConnAction::StartRadio,
        ),
        (s, _) => (s, ConnAction::Ignore),
    }
}

/// The state after feeding a sequence of events through the machine.
pub open spec fn spec_connection_run(s: ConnectionState, events: Seq<ConnEvent>) -> ConnectionState
    decreases events.len(),
{
    if events.len() == 0 {
        s
    } else {
        spec_connection_run(spec_connection_step(s, events[0]).0, events.drop_first())
    }
}

/// Law: against a radio whose every association attempt fails, the manager
/// stays in `Connecting` forever — it never reaches a terminal or stuck
/// state, however many failures arrive.
pub proof fn lemma_always_failing_radio_retries(events: Seq<ConnEvent>)
    requires
        forall|i: int| 0 <= i < events.len() ==> events[i] == ConnEvent::AssociationFailed,
    ensures
        spec_connection_run(ConnectionState::Connecting, events) == ConnectionState::Connecting,
    decreases events.len(),
{
    if events.len() > 0 {
        assert(spec_connection_step(ConnectionState::Connecting, events[0]) == (
            ConnectionState::Connecting,
            ConnAction::AssociateAfterBackoff,
        ));
        lemma_always_failing_radio_retries(events.drop_first());
    }
}

/// Law: against a radio whose every association attempt fails, every single
/// retry is scheduled after the same fixed backoff — the action at each step
/// is `AssociateAfterBackoff`, never anything else.
pub proof fn lemma_retry_is_fixed_backoff(events: Seq<ConnEvent>, i: int)
    requires
        forall|j: int| 0 <= j < events.len() ==> events[j] == ConnEvent::AssociationFailed,
        0 <= i < events.len(),
    ensures
        spec_connection_step(
            spec_connection_run(ConnectionState::Connecting, events.take(i)),
            events[i],
        ) == (ConnectionState::Connecting, ConnAction::AssociateAfterBackoff),
{
    lemma_always_failing_radio_retries(events.take(i));
}

/// Law: no state of the connection manager is stuck — every state has an
/// event on which the machine prescribes a real action.
pub proof fn lemma_no_stuck_state(s: ConnectionState)
    ensures
        exists|e: ConnEvent| (#[trigger] spec_connection_step(s, e)).1 != ConnAction::Ignore,
{
    match s {
        ConnectionState::Idle => {
            assert(spec_connection_step(s, ConnEvent::TaskStarted { radio_started: false }).1
                != ConnAction::Ignore);
        },
        ConnectionState::Starting => {
            assert(spec_connection_step(s, ConnEvent::RadioStarted).1 != ConnAction::Ignore);
        },
        ConnectionState::Connecting => {
            assert(spec_connection_step(s, ConnEvent::AssociationFailed).1 != ConnAction::Ignore);
        },
        ConnectionState::Connected => {
            assert(spec_connection_step(s, ConnEvent::ScanFailed).1 != ConnAction::Ignore);
        },
        ConnectionState::Retrying => {
            assert(spec_connection_step(s, ConnEvent::SettleElapsed).1 != ConnAction::Ignore);
        },
    }
}

/// One visible network from a scan: its identity, raw signal metric, and
/// channel.
pub struct ScanEntry {
    /// Network identity.
    pub ssid: String,
    /// Raw signal metric.
    pub signal_strength: i8,
    /// Radio channel.
    pub channel: u8,
}

/// The raw signal metric of the last scan entry whose identity matches the
/// target, if any. A scan may list the same network more than once; each
/// match overwrites the previous one, so the last seen wins.
pub open spec fn spec_find_rssi(entries: Seq<ScanEntry>, target: Seq<char>) -> Option<i8>
    decreases entries.len(),
{
    if entries.len() == 0 {
        Option::None
    } else if entries.last().ssid@ == target {
        Option::Some(entries.last().signal_strength)
    } else {
        spec_find_rssi(entries.drop_last(), target)
    }
}

/// The raw signal metric of the last scan entry matching the configured
/// network identity, if the scan saw it.
pub fn find_network_rssi(entries: &Vec<ScanEntry>, target: &String) -> (r: Option<i8>)
    ensures
        r == spec_find_rssi(entries@, target@),
{
    let n = entries.len();
    let mut found: Option<i8> = Option::None;
    let mut i: usize = 0;
    proof {
        assert(entries@.take(0).len() == 0);
    }
    while i < n
        invariant
            i <= n,
            n == entries@.len(),
            found == spec_find_rssi(entries@.take(i as int), target@),
        decreases n - i,
    {
        proof {
            assert(entries@.take(i as int + 1).last() == entries@[i as int]);
            assert(entries@.take(i as int + 1).drop_last() =~= entries@.take(i as int));
        }
        let e = &entries[i];
        if e.ssid == *target {
            found = Option::Some(e.signal_strength);
        }
        i = i + 1;
    }
    proof {
        assert(entries@.take(n as int) =~= entries@);
    }
    found
}

/// Process one scan while connected: find the configured network (the last
/// matching entry when it is listed more than once), normalize its signal
/// metric, and latch the quality into the status bus. A scan that did not
/// see the network changes nothing (best-effort telemetry).
pub fn record_scan_quality(bus: &mut StatusBus, entries: &Vec<ScanEntry>, target: &String) -> (found:
    bool)
    ensures
        match spec_find_rssi(entries@, target@) {
            Option::Some(raw) => found && final(bus)@ == old(bus)@.with_signal_quality(
                spec_normalize(raw as int, RSSI_DOMAIN_MIN as int, RSSI_DOMAIN_MAX as int) as u8,
            ),
            Option::None => !found && final(bus)@ == old(bus)@,
        },
{
    match find_network_rssi(entries, target) {
        Option::Some(raw) => {
            let quality = approx_rssi_to_percent(raw);
            bus.set_signal_quality(quality);
            true
        },
        Option::None => false,
    }
}

/// Startup sequencing: what the node waits for before spawning the
/// publisher and renderer.
#[derive(Clone, Copy, Debug, PartialEq, Eq, Structural)]
pub enum StartupWait {
    /// The link is not up yet.
    WaitingLink,
    /// The link is up; no address configuration yet.
    WaitingAddress,
    /// Link up and address configured.
    Ready,
}

/// The startup-wait transition: first the link must come up, then an address
/// configuration must appear.
pub open spec fn spec_startup_step(s: StartupWait, link_up: bool, has_address: bool) -> StartupWait {
    match s {
        StartupWait::WaitingLink => if link_up {
            StartupWait::WaitingAddress
        } else {
            StartupWait::WaitingLink
        },
        StartupWait::WaitingAddress => if has_address {
            StartupWait::Ready
        } else {
            StartupWait::WaitingAddress
        },
        StartupWait::Ready => StartupWait::Ready,
    }
}

/// One poll of the startup wait, from the stack's "is the link up" and
/// "current address configuration" answers.
pub fn startup_step(s: StartupWait, link_up: bool, has_address: bool) -> (r: StartupWait)
    ensures
        r == spec_startup_step(s, link_up, has_address),
{
    match s {
        StartupWait::WaitingLink => if link_up {
            StartupWait::WaitingAddress
        } else {
            StartupWait::WaitingLink
        },
        StartupWait::WaitingAddress => if has_address {
            StartupWait::Ready
        } else {
            StartupWait::WaitingAddress
        },
        StartupWait::Ready => StartupWait::Ready,
    }
}

} // verus!
