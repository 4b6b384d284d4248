//! Service counters: authentication requests, websocket connections and
//! messages, and broadcast fan-out, with the inputs of the success ratios
//! reported by the health endpoint.

use vstd::prelude::*;

verus! {

/// The counters as the health endpoint reports them.
#[derive(Clone, Copy, Debug, PartialEq, Eq, Structural)]
pub struct TelemetryCounters {
    pub auth_requests_total: u64,
    pub auth_failures_total: u64,
    pub websocket_connect_attempts_total: u64,
    pub websocket_connect_failures_total: u64,
    pub active_websocket_connections: u64,
    pub websocket_messages_total: u64,
    pub websocket_rejected_messages_total: u64,
    pub websocket_runtime_errors_total: u64,
    pub broadcast_attempts_total: u64,
    pub broadcast_targets_total: u64,
    pub broadcast_deliveries_total: u64,
    pub broadcast_failures_total: u64,
}

/// The numerator and denominator of each success ratio: authentication,
/// websocket connection, and broadcast delivery.
#[derive(Clone, Copy, Debug, PartialEq, Eq, Structural)]
pub struct IndicatorInputs {
    pub auth_succeeded: u64,
    pub auth_total: u64,
    pub connect_succeeded: u64,
    pub connect_total: u64,
    pub deliveries: u64,
    pub delivery_attempts: u64,
}

/// The values of the running counters.
#[derive(Clone, Copy, Debug, PartialEq, Eq, Structural)]
pub struct TelemetryState {
    pub auth_requests_total: u64,
    pub auth_failures_total: u64,
    pub websocket_connect_attempts_total: u64,
    pub websocket_connect_failures_total: u64,
    pub active_websocket_connections: i64,
    pub websocket_messages_total: u64,
    pub websocket_rejected_messages_total: u64,
    pub websocket_runtime_errors_total: u64,
    pub broadcast_attempts_total: u64,
    pub broadcast_targets_total: u64,
    pub broadcast_deliveries_total: u64,
    pub broadcast_failures_total: u64,
}

/// `x + y` wrapped to 64 bits.
pub open spec fn wrap_add(x: u64, y: int) -> u64 {
    ((x + y) % 0x1_0000_0000_0000_0000) as u64
}

/// `x + y` wrapped to 64 signed bits.
pub open spec fn wrap_add_signed(x: i64, y: int) -> i64 {
    let m = (x + y + 0x8000_0000_0000_0000) % 0x1_0000_0000_0000_0000;
    (m - 0x8000_0000_0000_0000) as i64
}

impl TelemetryState {
    /// All counters at zero.
    pub open spec fn zero() -> TelemetryState {
        TelemetryState {
            auth_requests_total: 0,
            auth_failures_total: 0,
            websocket_connect_attempts_total: 0,
            websocket_connect_failures_total: 0,
            active_websocket_connections: 0,
            websocket_messages_total: 0,
            websocket_rejected_messages_total: 0,
            websocket_runtime_errors_total: 0,
            broadcast_attempts_total: 0,
            broadcast_targets_total: 0,
            broadcast_deliveries_total: 0,
            broadcast_failures_total: 0,
        }
    }

    /// After an authentication request that succeeded or not.
    pub open spec fn after_auth(self, success: bool) -> TelemetryState {
        TelemetryState {
            auth_requests_total: wrap_add(self.auth_requests_total, 1),
            auth_failures_total: if success {
                self.auth_failures_total
            } else {
                wrap_add(self.auth_failures_total, 1)
            },
            ..self
        }
    }

    /// After a websocket connection attempt that succeeded or not.
    pub open spec fn after_connect(self, success: bool) -> TelemetryState {
        TelemetryState {
            websocket_connect_attempts_total: wrap_add(self.websocket_connect_attempts_total, 1),
            active_websocket_connections: if success {
                wrap_add_signed(self.active_websocket_connections, 1)
            } else {
                self.active_websocket_connections
            },
            websocket_connect_failures_total: if success {
                self.websocket_connect_failures_total
            } else {
                wrap_add(self.websocket_connect_failures_total, 1)
            },
            ..self
        }
    }

    /// After a websocket connection closed: one fewer open, never below the
    /// smallest `i64`.
    pub open spec fn after_disconnect(self) -> TelemetryState {
        TelemetryState {
            active_websocket_connections: if self.active_websocket_connections == i64::MIN {
                i64::MIN
            } else {
                (self.active_websocket_connections - 1) as i64
            },
            ..self
        }
    }

    pub open spec fn after_message_accepted(self) -> TelemetryState {
        TelemetryState { websocket_messages_total: wrap_add(self.websocket_messages_total, 1), ..self }
    }

    pub open spec fn after_message_rejected(self) -> TelemetryState {
        TelemetryState {
            websocket_rejected_messages_total: wrap_add(self.websocket_rejected_messages_total, 1),
            ..self
        }
    }

    pub open spec fn after_runtime_error(self) -> TelemetryState {
        TelemetryState {
            websocket_runtime_errors_total: wrap_add(self.websocket_runtime_errors_total, 1),
            ..self
        }
    }

    /// After a broadcast to `targets` connections, `delivered` of which took it.
    pub open spec fn after_broadcast(self, targets: int, delivered: int, failed: int) -> TelemetryState {
        TelemetryState {
            broadcast_attempts_total: wrap_add(self.broadcast_attempts_total, 1),
            broadcast_targets_total: wrap_add(self.broadcast_targets_total, targets),
            broadcast_deliveries_total: wrap_add(self.broadcast_deliveries_total, delivered),
            broadcast_failures_total: wrap_add(self.broadcast_failures_total, failed),
            ..self
        }
    }

    /// The counters as reported: open connections below zero read as zero.
    pub open spec fn counters(self) -> TelemetryCounters {
        TelemetryCounters {
            auth_requests_total: self.auth_requests_total,
            auth_failures_total: self.auth_failures_total,
            websocket_connect_attempts_total: self.websocket_connect_attempts_total,
            websocket_connect_failures_total: self.websocket_connect_failures_total,
            active_websocket_connections: if self.active_websocket_connections < 0 {
                0
            } else {
                self.active_websocket_connections as u64
            },
            websocket_messages_total: self.websocket_messages_total,
            websocket_rejected_messages_total: self.websocket_rejected_messages_total,
            websocket_runtime_errors_total: self.websocket_runtime_errors_total,
            broadcast_attempts_total: self.broadcast_attempts_total,
            broadcast_targets_total: self.broadcast_targets_total,
            broadcast_deliveries_total: self.broadcast_deliveries_total,
            broadcast_failures_total: self.broadcast_failures_total,
        }
    }

    /// No failure count exceeds the count of attempts it belongs to.
    pub open spec fn failures_within_attempts(self) -> bool {
        &&& self.auth_failures_total <= self.auth_requests_total
        &&& self.websocket_connect_failures_total <= self.websocket_connect_attempts_total
    }
}

/// The smaller of `x - y` and zero's floor: `x - y`, or 0 where `y > x`.
pub open spec fn sub_floor(x: u64, y: u64) -> u64 {
    if y > x {
        0
    } else {
        (x - y) as u64
    }
}

/// `x + y`, or the largest `u64` where that overflows.
pub open spec fn add_ceiling(x: u64, y: u64) -> u64 {
    if x + y > u64::MAX {
        u64::MAX
    } else {
        (x + y) as u64
    }
}

/// Running service counters. Totals wrap around on overflow, as the atomic
/// `fetch_add` they count with does; the count of open connections is signed
/// and a disconnect takes it down with saturation.
#[derive(Debug)]
pub struct ServiceTelemetry {
    state: TelemetryState,
}

impl View for ServiceTelemetry {
    type V = TelemetryState;

    closed spec fn view(&self) -> TelemetryState {
        self.state
    }
}

fn bump(x: u64, y: u64) -> (r: u64)
    ensures
        r == wrap_add(x, y as int),
{
    x.wrapping_add(y)
}

impl Default for ServiceTelemetry {
    fn default() -> (r: Self)
        ensures
            r@ == TelemetryState::zero(),
    {
        ServiceTelemetry { state: TelemetryState {
            auth_requests_total: 0,
            auth_failures_total: 0,
            websocket_connect_attempts_total: 0,
            websocket_connect_failures_total: 0,
            active_websocket_connections: 0,
            websocket_messages_total: 0,
            websocket_rejected_messages_total: 0,
            websocket_runtime_errors_total: 0,
            broadcast_attempts_total: 0,
            broadcast_targets_total: 0,
            broadcast_deliveries_total: 0,
            broadcast_failures_total: 0,
        } }
    }
}

impl ServiceTelemetry {
    /// Counts an authentication request, and a failure where `success` is false.
    pub fn record_auth(&mut self, success: bool)
        ensures
            final(self)@ == old(self)@.after_auth(success),
            old(self)@.failures_within_attempts() && old(self)@.auth_requests_total < u64::MAX
                ==> final(self)@.failures_within_attempts(),
    {
        self.state.auth_requests_total = bump(self.state.auth_requests_total, 1);
        if !success {
            self.state.auth_failures_total = bump(self.state.auth_failures_total, 1);
        }
    }

    /// Counts a websocket connection attempt: an open connection more where
    /// `success`, a failure otherwise.
    pub fn record_websocket_connect(&mut self, success: bool)
        ensures
            final(self)@ == old(self)@.after_connect(success),
            old(self)@.failures_within_attempts() && old(self)@.websocket_connect_attempts_total < u64::MAX
                ==> final(self)@.failures_within_attempts(),
    {
        self.state.websocket_connect_attempts_total = bump(self.state.websocket_connect_attempts_total, 1);
        if success {
            self.state.active_websocket_connections = self.state.active_websocket_connections.wrapping_add(1);
        } else {
            self.state.websocket_connect_failures_total = bump(self.state.websocket_connect_failures_total, 1);
        }
    }

    /// Counts a closed websocket connection.
    pub fn record_websocket_disconnect(&mut self)
        ensures
            final(self)@ == old(self)@.after_disconnect(),
    {
        if self.state.active_websocket_connections > i64::MIN {
            self.state.active_websocket_connections = self.state.active_websocket_connections - 1;
        }
    }

    /// Counts an accepted chat message.
    pub fn record_message_accepted(&mut self)
        ensures
            final(self)@ == old(self)@.after_message_accepted(),
    {
        self.state.websocket_messages_total = bump(self.state.websocket_messages_total, 1);
    }

    /// Counts a rejected chat payload.
    pub fn record_message_rejected(&mut self)
        ensures
            final(self)@ == old(self)@.after_message_rejected(),
    {
        self.state.websocket_rejected_messages_total = bump(self.state.websocket_rejected_messages_total, 1);
    }

    /// Counts a websocket runtime error.
    pub fn record_runtime_error(&mut self)
        ensures
            final(self)@ == old(self)@.after_runtime_error(),
    {
        self.state.websocket_runtime_errors_total = bump(self.state.websocket_runtime_errors_total, 1);
    }

    /// Counts a broadcast to `targets` connections with `delivered`
    /// deliveries and `failed` failures.
    pub fn record_broadcast(&mut self, targets: usize, delivered: usize, failed: usize)
        ensures
            final(self)@ == old(self)@.after_broadcast(targets as int, delivered as int, failed as int),
    {
        self.state.broadcast_attempts_total = bump(self.state.broadcast_attempts_total, 1);
        self.state.broadcast_targets_total = bump(self.state.broadcast_targets_total, targets as u64);
        self.state.broadcast_deliveries_total = bump(self.state.broadcast_deliveries_total, delivered as u64);
        self.state.broadcast_failures_total = bump(self.state.broadcast_failures_total, failed as u64);
    }

    /// The counters as the health endpoint reports them.
    pub fn counters(&self) -> (c: TelemetryCounters)
        ensures
            c == self@.counters(),
    {
        let s = self.state;
        TelemetryCounters {
            auth_requests_total: s.auth_requests_total,
            auth_failures_total: s.auth_failures_total,
            websocket_connect_attempts_total: s.websocket_connect_attempts_total,
            websocket_connect_failures_total: s.websocket_connect_failures_total,
            active_websocket_connections: if s.active_websocket_connections < 0 {
                0
            } else {
                s.active_websocket_connections as u64
            },
            websocket_messages_total: s.websocket_messages_total,
            websocket_rejected_messages_total: s.websocket_rejected_messages_total,
            websocket_runtime_errors_total: s.websocket_runtime_errors_total,
            broadcast_attempts_total: s.broadcast_attempts_total,
            broadcast_targets_total: s.broadcast_targets_total,
            broadcast_deliveries_total: s.broadcast_deliveries_total,
            broadcast_failures_total: s.broadcast_failures_total,
        }
    }

    /// The numerators and denominators of the three success ratios: requests
    /// less failures over requests, attempts less failures over attempts
    /// (each floored at zero), and deliveries over deliveries plus failures
    /// (capped at the largest `u64`).
    pub fn indicator_inputs(&self) -> (r: IndicatorInputs)
        ensures
            r.auth_succeeded == sub_floor(self@.auth_requests_total, self@.auth_failures_total),
            r.auth_total == self@.auth_requests_total,
            r.connect_succeeded == sub_floor(
                self@.websocket_connect_attempts_total,
                self@.websocket_connect_failures_total,
            ),
            r.connect_total == self@.websocket_connect_attempts_total,
            r.deliveries == self@.broadcast_deliveries_total,
            r.delivery_attempts == add_ceiling(self@.broadcast_deliveries_total, self@.broadcast_failures_total),
    {
        let s = self.state;
        IndicatorInputs {
            auth_succeeded: s.auth_requests_total.saturating_sub(s.auth_failures_total),
            auth_total: s.auth_requests_total,
            connect_succeeded: s.websocket_connect_attempts_total.saturating_sub(
                s.websocket_connect_failures_total,
            ),
            connect_total: s.websocket_connect_attempts_total,
            deliveries: s.broadcast_deliveries_total,
            delivery_attempts: s.broadcast_deliveries_total.saturating_add(s.broadcast_failures_total),
        }
    }
}

/// How many of a broadcast's sends went through and how many failed.
pub fn tally_deliveries(sent: &Vec<bool>) -> (r: (usize, usize))
    ensures
        r.0 + r.1 == sent@.len(),
        r.0 == sent@.filter(|ok: bool| ok).len(),
{
    let mut delivered: usize = 0;
    let mut failed: usize = 0;
    let mut i: usize = 0;
    while i < sent.len()
        invariant
            i <= sent.len(),
            delivered + failed == i,
            delivered == sent@.take(i as int).filter(|ok: bool| ok).len(),
        decreases sent.len() - i,
    {
        proof {
            assert(sent@.take(i + 1).drop_last() =~= sent@.take(i as int));
            reveal_with_fuel(Seq::filter, 1);
        }
        if sent[i] {
            delivered = delivered + 1;
        } else {
            failed = failed + 1;
        }
        i = i + 1;
    }
    assert(sent@.take(sent.len() as int) =~= sent@);
    (delivered, failed)
}

/// One call that records into the counters.
pub enum TelemetryEvent {
    Auth(bool),
    Connect(bool),
    Disconnect,
    MessageAccepted,
    MessageRejected,
    RuntimeError,
    Broadcast(usize, usize, usize),
}

impl TelemetryState {
    /// The counters after the call `event`, as the matching `record_*` method leaves them.
    pub open spec fn after(self, event: TelemetryEvent) -> TelemetryState {
        match event {
            TelemetryEvent::Auth(success) => self.after_auth(success),
            TelemetryEvent::Connect(success) => self.after_connect(success),
            TelemetryEvent::Disconnect => self.after_disconnect(),
            TelemetryEvent::MessageAccepted => self.after_message_accepted(),
            TelemetryEvent::MessageRejected => self.after_message_rejected(),
            TelemetryEvent::RuntimeError => self.after_runtime_error(),
            TelemetryEvent::Broadcast(t, d, f) => self.after_broadcast(t as int, d as int, f as int),
        }
    }

    /// The counters after the calls `events`, in order.
    pub open spec fn after_all(self, events: Seq<TelemetryEvent>) -> TelemetryState
        decreases events.len(),
    {
        if events.len() == 0 {
            self
        } else {
            self.after_all(events.drop_last()).after(events.last())
        }
    }
}

/// How many of `events` are successful connections.
pub open spec fn connects(events: Seq<TelemetryEvent>) -> nat
    decreases events.len(),
{
    if events.len() == 0 {
        0
    } else {
        connects(events.drop_last()) + if events.last() matches TelemetryEvent::Connect(true) {
            1nat
        } else {
            0nat
        }
    }
}

/// How many of `events` are disconnections.
pub open spec fn disconnects(events: Seq<TelemetryEvent>) -> nat
    decreases events.len(),
{
    if events.len() == 0 {
        0
    } else {
        disconnects(events.drop_last()) + if events.last() is Disconnect {
            1nat
        } else {
            0nat
        }
    }
}

proof fn lemma_open_connections_signed(events: Seq<TelemetryEvent>)
    requires
        connects(events) <= i64::MAX,
        disconnects(events) <= i64::MAX,
    ensures
        TelemetryState::zero().after_all(events).active_websocket_connections == connects(events) - disconnects(
            events,
        ),
    decreases events.len(),
{
    if events.len() > 0 {
        let rest = events.drop_last();
        lemma_open_connections_signed(rest);
        let x = TelemetryState::zero().after_all(rest).active_websocket_connections;
        match events.last() {
            TelemetryEvent::Connect(true) => {
                assert(x + 1 <= i64::MAX);
                assert(wrap_add_signed(x, 1) == x + 1) by {
                    assert(0 <= x + 1 + 0x8000_0000_0000_0000 < 0x1_0000_0000_0000_0000);
                    vstd::arithmetic::div_mod::lemma_small_mod(
                        (x + 1 + 0x8000_0000_0000_0000) as nat,
                        0x1_0000_0000_0000_0000,
                    );
                }
            },
            _ => {},
        }
    }
}

/// Starting from zero, whatever the order of the calls, the open-connection
/// count reported is the successful connections less the disconnections, or
/// zero where there were more disconnections; a disconnection changes no
/// other counter. Each count is at most the largest `i64`.
pub proof fn lemma_open_connections_count(events: Seq<TelemetryEvent>)
    requires
        connects(events) <= i64::MAX,
        disconnects(events) <= i64::MAX,
    ensures
        TelemetryState::zero().after_all(events).counters().active_websocket_connections == if connects(events)
            >= disconnects(events) {
            connects(events) - disconnects(events)
        } else {
            0
        },
        forall|s: TelemetryState|
            #![trigger s.after_disconnect()]
            s.after_disconnect() == (TelemetryState { active_websocket_connections: s.after_disconnect().active_websocket_connections, ..s }),
{
    lemma_open_connections_signed(events);
}

} // verus!
