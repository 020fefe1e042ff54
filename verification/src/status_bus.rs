//! Status bus: the process-wide set of latest-value cells that the tasks
//! share. Each cell has one writer task and any number of readers; `set`
//! stores a value, `get` never blocks and never fails. Every cell has a
//! defined default before any writer starts.

use vstd::prelude::*;

verus! {

/// Broker-session code: no session yet.
pub const STATUS_OFFLINE: u8 = 0;

/// Broker-session code: handshake succeeded, session usable.
pub const STATUS_CONNECTED: u8 = 1;

/// Broker-session code: session was lost.
pub const STATUS_DISCONNECTED: u8 = 2;

/// Broker-session code: a record was delivered.
pub const STATUS_PUBLISHED: u8 = 3;

/// Broker-session code: a network-level failure was observed.
pub const STATUS_ERR_NETWORK: u8 = 90;

/// Broker-session code: a protocol-level failure other than a network one.
pub const STATUS_ERR_OTHER: u8 = 91;

/// The codes a broker-status cell may hold.
pub open spec fn is_status_code(c: u8) -> bool {
    c == STATUS_OFFLINE || c == STATUS_CONNECTED || c == STATUS_DISCONNECTED
        || c == STATUS_PUBLISHED || c == STATUS_ERR_NETWORK || c == STATUS_ERR_OTHER
}

/// Mathematical model of the bus: one value per cell.
pub ghost struct StatusBusView {
    /// Normalized link quality, a percentage.
    pub signal_quality: u8,
    /// Broker-session code, one of the `STATUS_*` constants.
    pub broker_status: u8,
    /// Latest sampled measurement, in thousandths of the engineering unit.
    pub measurement_milli: i64,
}

impl StatusBusView {
    /// Every cell holds a value of its field's domain.
    pub open spec fn wf(self) -> bool {
        self.signal_quality <= 100 && is_status_code(self.broker_status)
    }

    /// The view with the signal-quality cell replaced.
    pub open spec fn with_signal_quality(self, v: u8) -> StatusBusView {
        StatusBusView { signal_quality: v, ..self }
    }

    /// The view with the broker-status cell replaced.
    pub open spec fn with_broker_status(self, v: u8) -> StatusBusView {
        StatusBusView { broker_status: v, ..self }
    }

    /// The view with the measurement cell replaced.
    pub open spec fn with_measurement(self, v: i64) -> StatusBusView {
        StatusBusView { measurement_milli: v, ..self }
    }
}

/// The shared latest-value store. Created once at startup, before any writer
/// task runs, so every reader always sees a defined value.
pub struct StatusBus {
    signal_quality: u8,
    broker_status: u8,
    measurement_milli: i64,
}

impl View for StatusBus {
    type V = StatusBusView;

    closed spec fn view(&self) -> StatusBusView {
        StatusBusView {
            signal_quality: self.signal_quality,
            broker_status: self.broker_status,
            measurement_milli: self.measurement_milli,
        }
    }
}

/// One reader's copy of every cell, taken in a single pass. Cells are
/// independently meaningful, so a mix of older and newer values across
/// different cells is acceptable by design.
pub struct StatusSnapshot {
    /// Normalized link quality, a percentage.
    pub signal_quality: u8,
    /// Broker-session code, one of the `STATUS_*` constants.
    pub broker_status: u8,
    /// Latest sampled measurement, in thousandths of the engineering unit.
    pub measurement_milli: i64,
}

impl View for StatusSnapshot {
    type V = StatusBusView;

    open spec fn view(&self) -> StatusBusView {
        StatusBusView {
            signal_quality: self.signal_quality,
            broker_status: self.broker_status,
            measurement_milli: self.measurement_milli,
        }
    }
}

impl StatusBus {
    /// A bus with every cell at its documented default: quality 0,
    /// broker status offline, measurement 0.
    pub fn new() -> (b: StatusBus)
        ensures
            b@.signal_quality == 0,
            b@.broker_status == STATUS_OFFLINE,
            b@.measurement_milli == 0,
            b@.wf(),
    {
        StatusBus { signal_quality: 0, broker_status: STATUS_OFFLINE, measurement_milli: 0 }
    }

    /// Store a new link quality; no other cell changes.
    pub fn set_signal_quality(&mut self, v: u8)
        requires
            v <= 100,
        ensures
            final(self)@ == old(self)@.with_signal_quality(v),
            old(self)@.wf() ==> final(self)@.wf(),
    {
        self.signal_quality = v;
    }

    /// Read the link quality; never blocks, never fails.
    pub fn get_signal_quality(&self) -> (v: u8)
        ensures
            v == self@.signal_quality,
    {
        self.signal_quality
    }

    /// Store a new broker-session code; no other cell changes.
    pub fn set_broker_status(&mut self, v: u8)
        requires
            is_status_code(v),
        ensures
            final(self)@ == old(self)@.with_broker_status(v),
            old(self)@.wf() ==> final(self)@.wf(),
    {
        self.broker_status = v;
    }

    /// Read the broker-session code; never blocks, never fails.
    pub fn get_broker_status(&self) -> (v: u8)
        ensures
            v == self@.broker_status,
    {
        self.broker_status
    }

    /// Store a new measurement; no other cell changes.
    pub fn set_measurement(&mut self, v: i64)
        ensures
            final(self)@ == old(self)@.with_measurement(v),
            old(self)@.wf() ==> final(self)@.wf(),
    {
        self.measurement_milli = v;
    }

    /// Read the measurement; never blocks, never fails.
    pub fn get_measurement(&self) -> (v: i64)
        ensures
            v == self@.measurement_milli,
    {
        self.measurement_milli
    }

    /// Copy every cell for a reader.
    pub fn snapshot(&self) -> (s: StatusSnapshot)
        ensures
            s@ == self@,
    {
        StatusSnapshot {
            signal_quality: self.signal_quality,
            broker_status: self.broker_status,
            measurement_milli: self.measurement_milli,
        }
    }
}

/// Law: reading the signal-quality cell right after writing `v` to it yields
/// `v`, and no other cell is disturbed by the write.
pub proof fn lemma_get_after_set_signal_quality(b: StatusBusView, v: u8)
    ensures
        b.with_signal_quality(v).signal_quality == v,
        b.with_signal_quality(v).broker_status == b.broker_status,
        b.with_signal_quality(v).measurement_milli == b.measurement_milli,
{
}

/// Law: reading the broker-status cell right after writing `v` to it yields
/// `v`, and no other cell is disturbed by the write.
pub proof fn lemma_get_after_set_broker_status(b: StatusBusView, v: u8)
    ensures
        b.with_broker_status(v).broker_status == v,
        b.with_broker_status(v).signal_quality == b.signal_quality,
        b.with_broker_status(v).measurement_milli == b.measurement_milli,
{
}

/// Law: reading the measurement cell right after writing `v` to it yields
/// `v`, and no other cell is disturbed by the write.
pub proof fn lemma_get_after_set_measurement(b: StatusBusView, v: i64)
    ensures
        b.with_measurement(v).measurement_milli == v,
        b.with_measurement(v).signal_quality == b.signal_quality,
        b.with_measurement(v).broker_status == b.broker_status,
{
}

} // verus!
