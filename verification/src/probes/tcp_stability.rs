//! The TCP-stability probe: one long-lived tunnel, a heartbeat every
//! interval, and an account of every drop and reconnection.

use crate::clock::advance;
use crate::clock::is_before;
use crate::clock::lies_before;
use crate::clock::no_earlier;
use crate::decimal::append_ascii;
use crate::decimal::append_decimal;
use crate::decimal::ascii_bytes;
use crate::decimal::decimal_digits;
use crate::error::NetworkTestError;
use crate::stats::largest;
use crate::stats::lemma_total_bound;
use crate::stats::mean;
use crate::stats::smallest;
use crate::stats::total;
use vstd::prelude::*;
use vstd::string::StringExecFns;

verus! {

/// Seconds that a heartbeat may take before it counts as failed.
pub const HEARTBEAT_TIMEOUT_SECS: u64 = 5;

/// Seconds between two attempts to reconnect.
pub const RETRY_DELAY_SECS: u64 = 1;

/// The settings of one TCP-stability probe.
#[derive(Debug, Clone)]
pub struct TcpStabilityTest {
    proxy_addr: String,
    target_addr: String,
    heartbeat_interval_sec: u64,
    test_duration_sec: u64,
}

/// One loss of the tunnel: when it broke, and how long until it stood again.
#[derive(Debug, Clone)]
pub struct ConnectionDrop {
    /// When the tunnel was found broken.
    pub timestamp: u64,
    /// From then until the reconnection succeeded.
    pub duration: u64,
    pub reason: String,
}

/// The mathematical value of a [`ConnectionDrop`].
pub struct ConnectionDropView {
    pub timestamp: u64,
    pub duration: u64,
    pub reason: Seq<char>,
}

impl View for ConnectionDrop {
    type V = ConnectionDropView;

    open spec fn view(&self) -> ConnectionDropView {
        ConnectionDropView {
            timestamp: self.timestamp,
            duration: self.duration,
            reason: self.reason@,
        }
    }
}

/// What a TCP-stability probe found.
#[derive(Debug, Clone)]
pub struct TcpStabilityResult {
    pub total_heartbeats: u64,
    pub successful_heartbeats: u64,
    pub failed_heartbeats: u64,
    pub reconnections: u64,
    /// The sum of the drops' durations.
    pub total_downtime: u128,
    pub average_rtt: u64,
    pub max_rtt: u64,
    pub min_rtt: u64,
    pub connection_drops: Vec<ConnectionDrop>,
}

/// The mathematical value of a [`TcpStabilityResult`].
pub struct TcpStabilityResultView {
    pub total_heartbeats: u64,
    pub successful_heartbeats: u64,
    pub failed_heartbeats: u64,
    pub reconnections: u64,
    pub total_downtime: int,
    pub average_rtt: u64,
    pub max_rtt: u64,
    pub min_rtt: u64,
    pub connection_drops: Seq<ConnectionDropView>,
}

/// The values of a list of drops.
pub open spec fn drop_views(drops: Seq<ConnectionDrop>) -> Seq<ConnectionDropView> {
    Seq::new(drops.len(), |i: int| drops[i]@)
}

impl View for TcpStabilityResult {
    type V = TcpStabilityResultView;

    open spec fn view(&self) -> TcpStabilityResultView {
        TcpStabilityResultView {
            total_heartbeats: self.total_heartbeats,
            successful_heartbeats: self.successful_heartbeats,
            failed_heartbeats: self.failed_heartbeats,
            reconnections: self.reconnections,
            total_downtime: self.total_downtime as int,
            average_rtt: self.average_rtt,
            max_rtt: self.max_rtt,
            min_rtt: self.min_rtt,
            connection_drops: drop_views(self.connection_drops@),
        }
    }
}

/// What a run waits for.
#[derive(Clone, Copy, Debug, PartialEq, Eq, Structural)]
pub enum Awaiting {
    /// The outcome of the first CONNECT.
    InitialConnect,
    /// The outcome of a CONNECT after a drop.
    Reconnect,
    /// The outcome of a heartbeat.
    Heartbeat,
    /// The end of the pause before the next heartbeat.
    Pause,
    /// The end of the pause before the next attempt to reconnect.
    RetryDelay,
    /// Nothing: the run is over.
    Done,
}

/// What happened, with the time at which it was seen.
pub enum TcpEvent {
    /// The CONNECT succeeded.
    Connected { now: u64 },
    /// The CONNECT failed, for this reason.
    ConnectFailed { now: u64, reason: String },
    /// The heartbeat was answered with at least one byte.
    HeartbeatOk { now: u64 },
    /// The heartbeat could not be written or read, or its deadline ran out.
    HeartbeatFailed { now: u64 },
    /// The pause is over.
    Elapsed { now: u64 },
}

/// The mathematical value of a [`TcpEvent`].
pub enum TcpEventView {
    Connected { now: u64 },
    ConnectFailed { now: u64, reason: Seq<char> },
    HeartbeatOk { now: u64 },
    HeartbeatFailed { now: u64 },
    Elapsed { now: u64 },
}

impl View for TcpEvent {
    type V = TcpEventView;

    open spec fn view(&self) -> TcpEventView {
        match self {
            TcpEvent::Connected { now } => TcpEventView::Connected { now: *now },
            TcpEvent::ConnectFailed { now, reason } => TcpEventView::ConnectFailed {
                now: *now,
                reason: reason@,
            },
            TcpEvent::HeartbeatOk { now } => TcpEventView::HeartbeatOk { now: *now },
            TcpEvent::HeartbeatFailed { now } => TcpEventView::HeartbeatFailed { now: *now },
            TcpEvent::Elapsed { now } => TcpEventView::Elapsed { now: *now },
        }
    }
}

impl TcpEventView {
    /// The time at which the event was seen.
    pub open spec fn now(self) -> u64 {
        match self {
            TcpEventView::Connected { now } => now,
            TcpEventView::ConnectFailed { now, .. } => now,
            TcpEventView::HeartbeatOk { now } => now,
            TcpEventView::HeartbeatFailed { now } => now,
            TcpEventView::Elapsed { now } => now,
        }
    }
}

/// What the caller does next.
pub enum TcpAction {
    /// Open a tunnel to the target, and report `Connected` or `ConnectFailed`.
    Connect,
    /// Write `payload` to the tunnel and read until at least one byte has
    /// come, all within [`HEARTBEAT_TIMEOUT_SECS`]; report `HeartbeatOk` or
    /// `HeartbeatFailed`. After a failure the tunnel is dropped.
    Heartbeat { sequence: u64, payload: Vec<u8> },
    /// Sleep, and report `Elapsed`.
    Wait { seconds: u64 },
    /// The run is over: take the result.
    Finish,
    /// The probe failed: no tunnel ever stood.
    Abort(NetworkTestError),
}

/// The mathematical value of a [`TcpAction`]. An abort is known by its text.
pub enum TcpActionView {
    Connect,
    Heartbeat { sequence: u64, payload: Seq<u8> },
    Wait { seconds: u64 },
    Finish,
    Abort(Seq<char>),
}

impl View for TcpAction {
    type V = TcpActionView;

    open spec fn view(&self) -> TcpActionView {
        match self {
            TcpAction::Connect => TcpActionView::Connect,
            TcpAction::Heartbeat { sequence, payload } => TcpActionView::Heartbeat {
                sequence: *sequence,
                payload: payload@,
            },
            TcpAction::Wait { seconds } => TcpActionView::Wait { seconds: *seconds },
            TcpAction::Finish => TcpActionView::Finish,
            TcpAction::Abort(e) => TcpActionView::Abort(e.spec_message()),
        }
    }
}

/// The bytes of heartbeat number `sequence`: `PING-`, the number, a newline.
pub open spec fn heartbeat_payload(sequence: u64) -> Seq<u8> {
    ascii_bytes("PING-"@) + ascii_bytes(decimal_digits(sequence as nat)) + seq![10u8]
}

/// The reason that every drop record gives.
pub open spec fn drop_reason() -> Seq<char> {
    "Connection lost - reconnected"@
}

/// The sum of the durations of the drops.
pub open spec fn downtime(drops: Seq<ConnectionDropView>) -> int
    decreases drops.len(),
{
    if drops.len() == 0 {
        0
    } else {
        downtime(drops.drop_last()) + drops.last().duration
    }
}

/// The mathematical value of a run: its settings, what it waits for, and
/// all it has measured.
pub struct TcpRunView {
    pub interval_sec: u64,
    pub duration_sec: u64,
    pub awaiting: Awaiting,
    /// The latest time seen.
    pub clock: u64,
    /// When the heartbeat under way was sent.
    pub sent_at: u64,
    /// When the tunnel was last found broken.
    pub broken_at: u64,
    /// Heartbeats sent so far; the number of the last one.
    pub total: u64,
    /// Heartbeats that failed.
    pub failed: u64,
    /// The round-trip time of each heartbeat that succeeded, in order.
    pub rtts: Seq<u64>,
    /// The drops that ended in a reconnection, in order.
    pub drops: Seq<ConnectionDropView>,
}

impl TcpRunView {
    /// Whether the time `t` lies before the deadline of the run.
    pub open spec fn before_deadline(self, t: u64) -> bool {
        lies_before(t, self.duration_sec)
    }

    /// The result of the run as it stands.
    pub open spec fn result(self) -> TcpStabilityResultView {
        TcpStabilityResultView {
            total_heartbeats: self.total,
            successful_heartbeats: self.rtts.len() as u64,
            failed_heartbeats: self.failed,
            reconnections: self.drops.len() as u64,
            total_downtime: downtime(self.drops),
            average_rtt: mean(self.rtts) as u64,
            max_rtt: largest(self.rtts) as u64,
            min_rtt: smallest(self.rtts) as u64,
            connection_drops: self.drops,
        }
    }

    /// What holds of every run: each heartbeat sent has succeeded, failed
    /// or is under way; every drop followed a failed heartbeat; every drop
    /// ended before the next began, and before the latest time seen.
    pub open spec fn wf(self) -> bool {
        &&& self.rtts.len() + self.failed + (if self.awaiting == Awaiting::Heartbeat {
            1int
        } else {
            0int
        }) == self.total
        &&& self.drops.len() <= self.failed
        &&& self.awaiting == Awaiting::InitialConnect ==> self.total == 0
        &&& (self.awaiting == Awaiting::Reconnect || self.awaiting == Awaiting::RetryDelay)
            ==> self.drops.len() < self.failed && self.broken_at <= self.clock
        &&& self.awaiting == Awaiting::Heartbeat ==> self.sent_at <= self.clock
        &&& forall|i: int|
            0 <= i < self.drops.len() ==> (#[trigger] self.drops[i]).timestamp
                + self.drops[i].duration <= self.clock
        &&& (self.awaiting == Awaiting::Reconnect || self.awaiting == Awaiting::RetryDelay)
            ==> forall|i: int|
            0 <= i < self.drops.len() ==> (#[trigger] self.drops[i]).timestamp
                + self.drops[i].duration <= self.broken_at
        &&& forall|i: int, j: int|
            0 <= i < j < self.drops.len() ==> (#[trigger] self.drops[i]).timestamp
                + self.drops[i].duration <= (#[trigger] self.drops[j]).timestamp
    }

    /// Whether a run that waits as `self` does can be told of `event`.
    pub open spec fn expects(self, event: TcpEventView) -> bool {
        match self.awaiting {
            Awaiting::InitialConnect | Awaiting::Reconnect => event is Connected
                || event is ConnectFailed,
            Awaiting::Heartbeat => event is HeartbeatOk || event is HeartbeatFailed,
            Awaiting::Pause | Awaiting::RetryDelay => event is Elapsed,
            Awaiting::Done => false,
        }
    }

    /// The run ends at time `t`.
    pub open spec fn finish(self, t: u64) -> (TcpRunView, TcpActionView) {
        (TcpRunView { awaiting: Awaiting::Done, clock: t, ..self }, TcpActionView::Finish)
    }

    /// At time `t` the next heartbeat goes out, unless the deadline has
    /// come or the heartbeats can be counted no further.
    pub open spec fn send_heartbeat(self, t: u64) -> (TcpRunView, TcpActionView) {
        if self.before_deadline(t) && self.total < u64::MAX {
            let sequence = (self.total + 1) as u64;
            (
                TcpRunView {
                    awaiting: Awaiting::Heartbeat,
                    clock: t,
                    sent_at: t,
                    total: sequence,
                    ..self
                },
                TcpActionView::Heartbeat { sequence, payload: heartbeat_payload(sequence) },
            )
        } else {
            self.finish(t)
        }
    }

    /// At time `t` a reconnection is attempted, unless the deadline has come.
    pub open spec fn reconnect(self, t: u64) -> (TcpRunView, TcpActionView) {
        if self.before_deadline(t) {
            (
                TcpRunView { awaiting: Awaiting::Reconnect, clock: t, ..self },
                TcpActionView::Connect,
            )
        } else {
            self.finish(t)
        }
    }

    /// The run pauses at time `t` until the next heartbeat is due.
    pub open spec fn pause(self, t: u64) -> (TcpRunView, TcpActionView) {
        (
            TcpRunView { awaiting: Awaiting::Pause, clock: t, ..self },
            TcpActionView::Wait { seconds: self.interval_sec },
        )
    }

    /// The transition of a run that is told of `event`: its next state and
    /// what the caller does next. Time never runs backwards: an event dated
    /// before the latest time seen counts as seen at that time.
    pub open spec fn step(self, event: TcpEventView) -> (TcpRunView, TcpActionView) {
        let t = no_earlier(self.clock, event.now());
        match (self.awaiting, event) {
            (Awaiting::InitialConnect, TcpEventView::Connected { .. }) => self.send_heartbeat(t),
            (Awaiting::InitialConnect, TcpEventView::ConnectFailed { reason, .. }) => (
                TcpRunView { awaiting: Awaiting::Done, clock: t, ..self },
                TcpActionView::Abort("Failed to establish initial connection: "@ + reason),
            ),
            (Awaiting::Heartbeat, TcpEventView::HeartbeatOk { .. }) => TcpRunView {
                rtts: self.rtts.push((t - self.sent_at) as u64),
                ..self
            }.pause(t),
            (Awaiting::Heartbeat, TcpEventView::HeartbeatFailed { .. }) => TcpRunView {
                failed: (self.failed + 1) as u64,
                broken_at: t,
                ..self
            }.reconnect(t),
            (Awaiting::Reconnect, TcpEventView::Connected { .. }) => TcpRunView {
                drops: self.drops.push(
                    ConnectionDropView {
                        timestamp: self.broken_at,
                        duration: (t - self.broken_at) as u64,
                        reason: drop_reason(),
                    },
                ),
                ..self
            }.pause(t),
            (Awaiting::Reconnect, TcpEventView::ConnectFailed { .. }) => (
                TcpRunView { awaiting: Awaiting::RetryDelay, clock: t, ..self },
                TcpActionView::Wait { seconds: RETRY_DELAY_SECS },
            ),
            (Awaiting::Pause, TcpEventView::Elapsed { .. }) => self.send_heartbeat(t),
            (Awaiting::RetryDelay, TcpEventView::Elapsed { .. }) => self.reconnect(t),
            _ => (self, TcpActionView::Finish),
        }
    }
}

/// Every step keeps what holds of every run.
pub proof fn lemma_step_keeps_wf(run: TcpRunView, event: TcpEventView)
    requires
        run.wf(),
        run.expects(event),
    ensures
        run.step(event).0.wf(),
        run.step(event).0.clock >= run.clock,
        run.step(event).0.clock >= event.now(),
{
    let next = run.step(event).0;
    let t = next.clock;
    match (run.awaiting, event) {
        (Awaiting::Reconnect, TcpEventView::Connected { .. }) => {
            assert forall|i: int| 0 <= i < next.drops.len() implies (#[trigger] next.drops[i]).timestamp
                + next.drops[i].duration <= next.clock by {
                if i < run.drops.len() {
                    assert(next.drops[i] == run.drops[i]);
                }
            }
            assert forall|i: int, j: int| 0 <= i < j < next.drops.len() implies (
            #[trigger] next.drops[i]).timestamp + next.drops[i].duration <= (
            #[trigger] next.drops[j]).timestamp by {
                assert(next.drops[i] == run.drops[i]);
                if j < run.drops.len() {
                    assert(next.drops[j] == run.drops[j]);
                }
            }
        },
        _ => {},
    }
}

/// The counters of a result agree: the heartbeats that succeeded and those
/// that failed are all the heartbeats, once none is under way.
pub proof fn lemma_counters_agree(run: TcpRunView)
    requires
        run.wf(),
        run.awaiting != Awaiting::Heartbeat,
    ensures
        run.result().successful_heartbeats + run.result().failed_heartbeats
            == run.result().total_heartbeats,
{
}

/// Heartbeat numbers rise strictly: no step lowers the count of heartbeats
/// sent, and a heartbeat that goes out carries the count raised by one.
pub proof fn lemma_sequence_rises(run: TcpRunView, event: TcpEventView)
    requires
        run.wf(),
        run.expects(event),
    ensures
        run.step(event).0.total >= run.total,
        run.step(event).1 matches TcpActionView::Heartbeat { sequence, .. } ==> sequence
            == run.total + 1 && run.step(event).0.total == sequence,
{
}

/// A reconnection that is seen later than the break leaves a drop record
/// of positive duration, which ends at the time of the reconnection; and no
/// drop on record ends after that time. So whatever succeeds from then on
/// comes strictly after the start of every drop of positive duration.
pub proof fn lemma_drop_precedes_success(run: TcpRunView, now: u64)
    requires
        run.wf(),
        run.awaiting == Awaiting::Reconnect,
        now > run.broken_at,
        now >= run.clock,
    ensures
        ({
            let next = run.step(TcpEventView::Connected { now }).0;
            &&& next.drops.len() == run.drops.len() + 1
            &&& next.drops.last().duration > 0
            &&& next.drops.last().timestamp + next.drops.last().duration == now
            &&& next.clock == now
            &&& forall|i: int|
                0 <= i < next.drops.len() ==> (#[trigger] next.drops[i]).timestamp
                    + next.drops[i].duration <= now
        }),
{
    lemma_step_keeps_wf(run, TcpEventView::Connected { now });
}

/// A heartbeat that succeeds comes after every drop on record has ended:
/// no drop ends later than the success is seen, and every drop of positive
/// duration began strictly before it.
pub proof fn lemma_success_follows_drops(run: TcpRunView, now: u64)
    requires
        run.wf(),
        run.awaiting == Awaiting::Heartbeat,
    ensures
        ({
            let next = run.step(TcpEventView::HeartbeatOk { now }).0;
            &&& next.rtts.len() == run.rtts.len() + 1
            &&& next.drops == run.drops
            &&& next.clock >= now
            &&& forall|i: int|
                0 <= i < next.drops.len() ==> (#[trigger] next.drops[i]).timestamp
                    + next.drops[i].duration <= next.clock && (next.drops[i].duration > 0
                    ==> next.drops[i].timestamp < next.clock)
        }),
{
    lemma_step_keeps_wf(run, TcpEventView::HeartbeatOk { now });
}

/// Where the first CONNECT fails the probe fails: the run is over, an
/// abort is the answer, and no drop is on record.
pub proof fn lemma_first_failure_is_fatal(run: TcpRunView, now: u64, reason: Seq<char>)
    requires
        run.wf(),
        run.awaiting == Awaiting::InitialConnect,
        run.drops.len() == 0,
    ensures
        run.step(TcpEventView::ConnectFailed { now, reason }).1 is Abort,
        run.step(TcpEventView::ConnectFailed { now, reason }).0.awaiting == Awaiting::Done,
        run.step(TcpEventView::ConnectFailed { now, reason }).0.drops.len() == 0,
        run.step(TcpEventView::ConnectFailed { now, reason }).0.total == 0,
{
}

impl TcpStabilityTest {
    /// A probe of `target_addr` through the proxy at `proxy_addr`, with a
    /// heartbeat every `heartbeat_interval_sec` seconds for
    /// `test_duration_sec` seconds.
    pub fn new(
        proxy_addr: &str,
        target_addr: &str,
        heartbeat_interval_sec: u64,
        test_duration_sec: u64,
    ) -> (t: TcpStabilityTest)
        ensures
            t.spec_proxy_addr() == proxy_addr@,
            t.spec_target_addr() == target_addr@,
            t.spec_heartbeat_interval_sec() == heartbeat_interval_sec,
            t.spec_test_duration_sec() == test_duration_sec,
    {
        TcpStabilityTest {
            proxy_addr: String::from_str(proxy_addr),
            target_addr: String::from_str(target_addr),
            heartbeat_interval_sec,
            test_duration_sec,
        }
    }

    /// The proxy's address, as text.
    pub closed spec fn spec_proxy_addr(&self) -> Seq<char> {
        self.proxy_addr@
    }

    /// The target's address, as text.
    pub closed spec fn spec_target_addr(&self) -> Seq<char> {
        self.target_addr@
    }

    /// Seconds between two heartbeats.
    pub closed spec fn spec_heartbeat_interval_sec(&self) -> u64 {
        self.heartbeat_interval_sec
    }

    /// Seconds that the probe lasts.
    pub closed spec fn spec_test_duration_sec(&self) -> u64 {
        self.test_duration_sec
    }

    /// The proxy's address, as text.
    pub fn proxy_addr(&self) -> (a: &str)
        ensures
            a@ == self.spec_proxy_addr(),
    {
        self.proxy_addr.as_str()
    }

    /// The target's address, as text.
    pub fn target_addr(&self) -> (a: &str)
        ensures
            a@ == self.spec_target_addr(),
    {
        self.target_addr.as_str()
    }

    /// Seconds between two heartbeats.
    pub fn heartbeat_interval_sec(&self) -> (s: u64)
        ensures
            s == self.spec_heartbeat_interval_sec(),
    {
        self.heartbeat_interval_sec
    }

    /// Seconds that the probe lasts.
    pub fn test_duration_sec(&self) -> (s: u64)
        ensures
            s == self.spec_test_duration_sec(),
    {
        self.test_duration_sec
    }

    /// Starts a run at time zero of the caller's clock. The first action is
    /// the first CONNECT.
    pub fn start(&self) -> (r: (TcpStabilityRun, TcpAction))
        ensures
            r.0.wf(),
            r.0@ == (TcpRunView {
                interval_sec: self.spec_heartbeat_interval_sec(),
                duration_sec: self.spec_test_duration_sec(),
                awaiting: Awaiting::InitialConnect,
                clock: 0,
                sent_at: 0,
                broken_at: 0,
                total: 0,
                failed: 0,
                rtts: Seq::empty(),
                drops: Seq::empty(),
            }),
            r.1@ == TcpActionView::Connect,
    {
        let run = TcpStabilityRun {
            interval_sec: self.heartbeat_interval_sec,
            duration_sec: self.test_duration_sec,
            awaiting: Awaiting::InitialConnect,
            clock: 0,
            sent_at: 0,
            broken_at: 0,
            total: 0,
            successful: 0,
            failed: 0,
            rtt_sum: 0,
            min_rtt: 0,
            max_rtt: 0,
            total_downtime: 0,
            drops: Vec::new(),
            rtts: Ghost(Seq::empty()),
        };
        assert(drop_views(run.drops@) =~= Seq::<ConnectionDropView>::empty());
        (run, TcpAction::Connect)
    }
}

/// The bytes of heartbeat number `sequence`.
pub fn heartbeat(sequence: u64) -> (payload: Vec<u8>)
    ensures
        payload@ == heartbeat_payload(sequence),
{
    let mut payload: Vec<u8> = Vec::new();
    proof {
        reveal_strlit("PING-");
    }
    append_ascii(&mut payload, "PING-");
    append_decimal(&mut payload, sequence);
    payload.push(10);
    assert(payload@ =~= heartbeat_payload(sequence));
    payload
}

/// One run of the TCP-stability probe.
pub struct TcpStabilityRun {
    interval_sec: u64,
    duration_sec: u64,
    awaiting: Awaiting,
    clock: u64,
    sent_at: u64,
    broken_at: u64,
    total: u64,
    successful: u64,
    failed: u64,
    rtt_sum: u128,
    min_rtt: u64,
    max_rtt: u64,
    total_downtime: u128,
    drops: Vec<ConnectionDrop>,
    rtts: Ghost<Seq<u64>>,
}

impl View for TcpStabilityRun {
    type V = TcpRunView;

    closed spec fn view(&self) -> TcpRunView {
        TcpRunView {
            interval_sec: self.interval_sec,
            duration_sec: self.duration_sec,
            awaiting: self.awaiting,
            clock: self.clock,
            sent_at: self.sent_at,
            broken_at: self.broken_at,
            total: self.total,
            failed: self.failed,
            rtts: self.rtts@,
            drops: drop_views(self.drops@),
        }
    }
}

impl TcpStabilityRun {
    /// What holds of every run, and of how it keeps its sums.
    pub closed spec fn wf(&self) -> bool {
        &&& self@.wf()
        &&& self.successful == self.rtts@.len()
        &&& self.rtt_sum == total(self.rtts@)
        &&& self.min_rtt == smallest(self.rtts@)
        &&& self.max_rtt == largest(self.rtts@)
        &&& self.total_downtime == downtime(drop_views(self.drops@))
        &&& self.total_downtime <= self.drops@.len() * u64::MAX
    }

    /// What holds of every run holds of its value.
    pub proof fn lemma_wf(&self)
        requires
            self.wf(),
        ensures
            self@.wf(),
    {
    }

    /// What the run waits for.
    pub fn awaiting(&self) -> (a: Awaiting)
        ensures
            a == self@.awaiting,
    {
        self.awaiting
    }

    /// Whether the run can be told of `event` now.
    pub fn accepts(&self, event: &TcpEvent) -> (b: bool)
        ensures
            b == self@.expects(event@),
    {
        match self.awaiting {
            Awaiting::InitialConnect | Awaiting::Reconnect => match event {
                TcpEvent::Connected { .. } => true,
                TcpEvent::ConnectFailed { .. } => true,
                _ => false,
            },
            Awaiting::Heartbeat => match event {
                TcpEvent::HeartbeatOk { .. } => true,
                TcpEvent::HeartbeatFailed { .. } => true,
                _ => false,
            },
            Awaiting::Pause | Awaiting::RetryDelay => match event {
                TcpEvent::Elapsed { .. } => true,
                _ => false,
            },
            Awaiting::Done => false,
        }
    }

    /// Whether the time `t` lies before the deadline.
    fn before_deadline(&self, t: u64) -> (b: bool)
        ensures
            b == self@.before_deadline(t),
    {
        is_before(t, self.duration_sec)
    }

    /// Ends the run at time `t`.
    fn finish(&mut self, t: u64) -> (action: TcpAction)
        requires
            old(self).wf(),
            old(self)@.awaiting != Awaiting::Heartbeat,
            t >= old(self)@.clock,
        ensures
            final(self).wf(),
            (final(self)@, action@) == old(self)@.finish(t),
    {
        self.awaiting = Awaiting::Done;
        self.clock = t;
        TcpAction::Finish
    }

    /// Sends the next heartbeat at time `t`, or ends the run.
    fn send_heartbeat(&mut self, t: u64) -> (action: TcpAction)
        requires
            old(self).wf(),
            old(self)@.awaiting != Awaiting::Heartbeat,
            t >= old(self)@.clock,
        ensures
            final(self).wf(),
            (final(self)@, action@) == old(self)@.send_heartbeat(t),
    {
        if self.before_deadline(t) && self.total < u64::MAX {
            self.total = self.total + 1;
            self.awaiting = Awaiting::Heartbeat;
            self.clock = t;
            self.sent_at = t;
            TcpAction::Heartbeat { sequence: self.total, payload: heartbeat(self.total) }
        } else {
            self.finish(t)
        }
    }

    /// Attempts a reconnection at time `t`, or ends the run.
    fn reconnect(&mut self, t: u64) -> (action: TcpAction)
        requires
            old(self).wf(),
            old(self)@.awaiting != Awaiting::Heartbeat,
            old(self)@.drops.len() < old(self)@.failed,
            old(self)@.clock <= t,
            old(self)@.broken_at <= t,
            forall|i: int|
                0 <= i < old(self)@.drops.len() ==> (#[trigger] old(self)@.drops[i]).timestamp
                    + old(self)@.drops[i].duration <= old(self)@.broken_at,
        ensures
            final(self).wf(),
            (final(self)@, action@) == old(self)@.reconnect(t),
    {
        if self.before_deadline(t) {
            self.awaiting = Awaiting::Reconnect;
            self.clock = t;
            TcpAction::Connect
        } else {
            self.finish(t)
        }
    }

    /// Pauses at time `t` until the next heartbeat is due.
    fn pause(&mut self, t: u64) -> (action: TcpAction)
        requires
            old(self).wf(),
            old(self)@.awaiting != Awaiting::Heartbeat,
            t >= old(self)@.clock,
        ensures
            final(self).wf(),
            (final(self)@, action@) == old(self)@.pause(t),
    {
        self.awaiting = Awaiting::Pause;
        self.clock = t;
        TcpAction::Wait { seconds: self.interval_sec }
    }

    /// Takes account of a heartbeat that was answered at time `t`.
    fn record_success(&mut self, t: u64)
        requires
            old(self).wf(),
            old(self)@.awaiting == Awaiting::Heartbeat,
            t >= old(self)@.clock,
        ensures
            final(self).wf(),
            final(self)@ == (TcpRunView {
                rtts: old(self)@.rtts.push((t - old(self)@.sent_at) as u64),
                awaiting: Awaiting::Pause,
                ..old(self)@
            }),
    {
        let rtt = t - self.sent_at;
        proof {
            let before = self.rtts@;
            let after = before.push(rtt);
            assert(after.drop_last() =~= before);
            assert(after.last() == rtt);
            lemma_total_bound(before);
            assert(before.len() * u64::MAX + u64::MAX <= u128::MAX) by (nonlinear_arith)
                requires
                    before.len() < u64::MAX,
            ;
        }
        if self.successful == 0 || rtt < self.min_rtt {
            self.min_rtt = rtt;
        }
        if rtt > self.max_rtt {
            self.max_rtt = rtt;
        }
        self.rtt_sum = self.rtt_sum + rtt as u128;
        self.successful = self.successful + 1;
        self.rtts = Ghost(self.rtts@.push(rtt));
        self.awaiting = Awaiting::Pause;
    }

    /// Takes account of a reconnection that succeeded at time `t`.
    fn record_reconnection(&mut self, t: u64)
        requires
            old(self).wf(),
            old(self)@.awaiting == Awaiting::Reconnect,
            t >= old(self)@.clock,
        ensures
            final(self).wf(),
            final(self)@ == (TcpRunView {
                drops: old(self)@.drops.push(
                    ConnectionDropView {
                        timestamp: old(self)@.broken_at,
                        duration: (t - old(self)@.broken_at) as u64,
                        reason: drop_reason(),
                    },
                ),
                awaiting: Awaiting::Pause,
                clock: t,
                ..old(self)@
            }),
    {
        let duration = t - self.broken_at;
        let ghost before = drop_views(self.drops@);
        let record = ConnectionDrop {
            timestamp: self.broken_at,
            duration,
            reason: String::from_str("Connection lost - reconnected"),
        };
        proof {
            assert(before.len() * u64::MAX + u64::MAX <= u128::MAX) by (nonlinear_arith)
                requires
                    before.len() < u64::MAX,
            ;
        }
        self.total_downtime = self.total_downtime + duration as u128;
        self.drops.push(record);
        self.awaiting = Awaiting::Pause;
        self.clock = t;
        proof {
            let after = drop_views(self.drops@);
            assert(after =~= before.push(record@));
            assert(after.drop_last() =~= before);
            assert forall|i: int| 0 <= i < after.len() implies (#[trigger] after[i]).timestamp
                + after[i].duration <= t by {
                if i < before.len() {
                    assert(after[i] == before[i]);
                }
            }
            assert forall|i: int, j: int| 0 <= i < j < after.len() implies (
            #[trigger] after[i]).timestamp + after[i].duration <= (#[trigger] after[j]).timestamp by {
                assert(after[i] == before[i]);
                if j < before.len() {
                    assert(after[j] == before[j]);
                }
            }
        }
    }

    /// Takes the report of what happened, and says what to do next.
    ///
    /// The report must be one that the run waits for: the outcome of a
    /// CONNECT after `Connect`, of a heartbeat after `Heartbeat`, the end
    /// of the pause after `Wait`.
    pub fn step(&mut self, event: TcpEvent) -> (action: TcpAction)
        requires
            old(self).wf(),
            old(self)@.expects(event@),
        ensures
            final(self).wf(),
            (final(self)@, action@) == old(self)@.step(event@),
            action matches TcpAction::Abort(e) ==> e is Connection,
    {
        match event {
            TcpEvent::Connected { now } => {
                let t = advance(self.clock, now);
                match self.awaiting {
                    Awaiting::InitialConnect => self.send_heartbeat(t),
                    _ => {
                        self.record_reconnection(t);
                        self.pause(t)
                    },
                }
            },
            TcpEvent::ConnectFailed { now, reason } => {
                let t = advance(self.clock, now);
                match self.awaiting {
                    Awaiting::InitialConnect => {
                        self.awaiting = Awaiting::Done;
                        self.clock = t;
                        let mut text = String::from_str("Failed to establish initial connection: ");
                        text.append(reason.as_str());
                        TcpAction::Abort(NetworkTestError::Connection(text))
                    },
                    _ => {
                        self.awaiting = Awaiting::RetryDelay;
                        self.clock = t;
                        TcpAction::Wait { seconds: RETRY_DELAY_SECS }
                    },
                }
            },
            TcpEvent::HeartbeatOk { now } => {
                let t = advance(self.clock, now);
                self.record_success(t);
                self.pause(t)
            },
            TcpEvent::HeartbeatFailed { now } => {
                let t = advance(self.clock, now);
                self.failed = self.failed + 1;
                self.broken_at = t;
                self.awaiting = Awaiting::Pause;
                self.reconnect(t)
            },
            TcpEvent::Elapsed { now } => {
                let t = advance(self.clock, now);
                match self.awaiting {
                    Awaiting::Pause => self.send_heartbeat(t),
                    _ => self.reconnect(t),
                }
            },
        }
    }

    /// The result of the run as it stands. After `Finish` it is the
    /// result of the probe.
    pub fn into_result(self) -> (r: TcpStabilityResult)
        requires
            self.wf(),
        ensures
            r@ == self@.result(),
    {
        let average_rtt = if self.successful > 0 {
            proof {
                lemma_total_bound(self.rtts@);
                let n = self.rtts@.len() as int;
                let t = total(self.rtts@);
                assert(t / n <= u64::MAX) by (nonlinear_arith)
                    requires
                        n > 0,
                        0 <= t <= n * u64::MAX,
                ;
            }
            (self.rtt_sum / (self.successful as u128)) as u64
        } else {
            0
        };
        proof {
            crate::stats::lemma_extremes(self.rtts@);
        }
        TcpStabilityResult {
            total_heartbeats: self.total,
            successful_heartbeats: self.successful,
            failed_heartbeats: self.failed,
            reconnections: self.drops.len() as u64,
            total_downtime: self.total_downtime,
            average_rtt,
            max_rtt: self.max_rtt,
            min_rtt: self.min_rtt,
            connection_drops: self.drops,
        }
    }
}

} // verus!
