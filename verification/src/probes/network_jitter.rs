//! The jitter probe: a fresh tunnel and one PING for every tick, one
//! target after the other, and the spread of the round-trip times.

use crate::probes::round_robin::durations;
use crate::probes::round_robin::failures;
use crate::probes::round_robin::lemma_outcomes_partition;
use crate::probes::round_robin::live_slots;
use crate::probes::round_robin::name_texts;
use crate::probes::round_robin::outcomes;
use crate::probes::round_robin::outcomes_of;
use crate::probes::round_robin::successes;
use crate::probes::round_robin::timeouts;
use crate::probes::round_robin::Awaiting;
use crate::probes::round_robin::Board;
use crate::probes::round_robin::BoardView;
use crate::probes::round_robin::RoundAction;
use crate::probes::round_robin::RoundEvent;
use crate::probes::round_robin::Rounds;
use crate::probes::round_robin::RoundsView;
use crate::stats::average;
use crate::stats::calculate_jitter;
use crate::stats::calculate_median;
use crate::stats::calculate_percentile;
use crate::stats::jitter;
use crate::stats::largest;
use crate::stats::maximum;
use crate::stats::mean;
use crate::stats::median;
use crate::stats::minimum;
use crate::stats::percentile;
use crate::stats::share;
use crate::stats::share_of;
use crate::stats::smallest;
use crate::stats::PPM;
use vstd::prelude::*;
use vstd::string::StringExecFns;

verus! {

/// Seconds that one ping may take, from the CONNECT to the answer.
pub const PING_TIMEOUT_SECS: u64 = 5;

/// Milliseconds that the answer to a PING may take.
pub const RESPONSE_TIMEOUT_MILLIS: u64 = 1000;

/// Bytes read of the answer at most.
pub const RESPONSE_BUFFER: usize = 64;

/// The bytes of a ping: `PING` and a newline.
pub open spec fn ping_wire() -> Seq<u8> {
    seq![80u8, 73u8, 78u8, 71u8, 10u8]
}

/// The bytes of a ping.
pub fn ping_payload() -> (payload: Vec<u8>)
    ensures
        payload@ == ping_wire(),
{
    let mut payload: Vec<u8> = Vec::new();
    payload.push(80);
    payload.push(73);
    payload.push(78);
    payload.push(71);
    payload.push(10);
    assert(payload@ =~= ping_wire());
    payload
}

/// The settings of one jitter probe.
#[derive(Debug, Clone)]
pub struct NetworkJitterTest {
    proxy_addr: String,
    targets: Vec<String>,
    ping_interval_ms: u64,
    test_duration_sec: u64,
}

/// What the probe found of one target.
#[derive(Debug, Clone)]
pub struct TargetJitterResult {
    pub target: String,
    pub total_pings: u64,
    pub successful_pings: u64,
    /// Pings that did not succeed, timeouts among them.
    pub failed_pings: u64,
    pub rtt_samples: Vec<u64>,
    pub average_rtt: u64,
    pub jitter: u64,
    /// Failed pings per million pings.
    pub packet_loss_rate: u64,
}

/// What a jitter probe found.
#[derive(Debug, Clone)]
pub struct NetworkJitterResult {
    pub total_pings: u64,
    pub successful_pings: u64,
    pub failed_pings: u64,
    pub timeout_pings: u64,
    /// The round-trip time of each ping that succeeded, in order.
    pub rtt_samples: Vec<u64>,
    pub average_rtt: u64,
    pub min_rtt: u64,
    pub max_rtt: u64,
    pub median_rtt: u64,
    pub p95_rtt: u64,
    pub p99_rtt: u64,
    pub jitter: u64,
    /// Pings that failed or timed out, per million pings.
    pub packet_loss_rate: u64,
    /// One entry for each distinct target, in the order of first mention.
    pub target_results: Vec<TargetJitterResult>,
}

/// Whether `result` is what the board says of the target that first occurs
/// at `slot`.
pub open spec fn target_result_of(board: BoardView, slot: int, result: TargetJitterResult) -> bool {
    let h = outcomes_of(board.history, board.names, slot);
    &&& result.target@ == board.names[slot]
    &&& result.total_pings == board.issued_for(slot)
    &&& result.successful_pings == successes(h)
    &&& result.failed_pings == failures(h) + timeouts(h)
    &&& result.rtt_samples@ == durations(h)
    &&& result.average_rtt == mean(durations(h))
    &&& result.jitter == jitter(durations(h))
    &&& result.packet_loss_rate == share(
        (failures(h) + timeouts(h)) as int,
        board.issued_for(slot),
        PPM as int,
    )
}

/// Whether `result` is what the board adds up to.
pub open spec fn result_of(board: BoardView, result: NetworkJitterResult) -> bool {
    let h = outcomes(board.history);
    let slots = live_slots(board.names, board.names.len() as int);
    &&& result.total_pings == board.issued()
    &&& result.successful_pings == successes(h)
    &&& result.failed_pings == failures(h)
    &&& result.timeout_pings == timeouts(h)
    &&& result.rtt_samples@ == durations(h)
    &&& result.average_rtt == mean(durations(h))
    &&& result.min_rtt == smallest(durations(h))
    &&& result.max_rtt == largest(durations(h))
    &&& result.median_rtt == median(durations(h))
    &&& result.p95_rtt == percentile(durations(h), 95)
    &&& result.p99_rtt == percentile(durations(h), 99)
    &&& result.jitter == jitter(durations(h))
    &&& result.packet_loss_rate == share(
        (failures(h) + timeouts(h)) as int,
        board.issued(),
        PPM as int,
    )
    &&& result.target_results@.len() == slots.len()
    &&& forall|k: int|
        0 <= k < slots.len() ==> target_result_of(board, slots[k], #[trigger] result.target_results@[k])
}

/// Adds up a board into the result of the probe.
pub fn summarize(board: &Board) -> (result: NetworkJitterResult)
    requires
        board.wf(),
    ensures
        result_of(board@, result),
{
    let ghost view = board@;
    let mut target_results: Vec<TargetJitterResult> = Vec::new();
    let mut i: usize = 0;
    let n = board.name_count();
    while i < n
        invariant
            i <= n,
            n == view.names.len(),
            board.wf(),
            view == board@,
            target_results@.len() == live_slots(view.names, i as int).len(),
            forall|k: int|
                0 <= k < target_results@.len() ==> target_result_of(
                    view,
                    live_slots(view.names, i as int)[k],
                    #[trigger] target_results@[k],
                ),
        decreases n - i,
    {
        if board.is_first(i) {
            let tally = board.tally(i);
            let ghost before = target_results@;
            proof {
                lemma_outcomes_partition(outcomes_of(view.history, view.names, i as int));
            }
            let entry = TargetJitterResult {
                target: tally.name.clone(),
                total_pings: tally.total,
                successful_pings: tally.successful,
                failed_pings: tally.failed,
                rtt_samples: tally.samples.clone(),
                average_rtt: average(tally.samples.as_slice()),
                jitter: calculate_jitter(tally.samples.as_slice()),
                packet_loss_rate: share_of(tally.failed, tally.total, PPM),
            };
            target_results.push(entry);
            proof {
                let slots = live_slots(view.names, i + 1);
                assert(slots == live_slots(view.names, i as int).push(i as int));
                assert forall|k: int| 0 <= k < target_results@.len() implies target_result_of(
                    view,
                    slots[k],
                    #[trigger] target_results@[k],
                ) by {
                    if k < before.len() {
                        assert(target_results@[k] == before[k]);
                    }
                }
            }
        }
        i = i + 1;
    }
    let samples = board.samples();
    proof {
        lemma_outcomes_partition(outcomes(view.history));
    }
    let issued = board.issued();
    let failed = board.failed();
    let timed_out = board.timed_out();
    NetworkJitterResult {
        total_pings: issued,
        successful_pings: board.successful(),
        failed_pings: failed,
        timeout_pings: timed_out,
        rtt_samples: samples.clone(),
        average_rtt: average(samples.as_slice()),
        min_rtt: minimum(samples.as_slice()),
        max_rtt: maximum(samples.as_slice()),
        median_rtt: calculate_median(samples.as_slice()),
        p95_rtt: calculate_percentile(samples.as_slice(), 95),
        p99_rtt: calculate_percentile(samples.as_slice(), 99),
        jitter: calculate_jitter(samples.as_slice()),
        packet_loss_rate: share_of(failed + timed_out, issued, PPM),
        target_results,
    }
}

/// What the caller does next.
#[derive(Clone, Copy, Debug, PartialEq, Eq, Structural)]
pub enum JitterAction {
    /// Wait for the next tick of the ping interval, the first of which
    /// comes at once; report `Ticked`.
    WaitTick { interval_ms: u64 },
    /// Open a fresh tunnel to the target at `index`, write the ping, read
    /// up to [`RESPONSE_BUFFER`] bytes within [`RESPONSE_TIMEOUT_MILLIS`]
    /// and close, all within [`PING_TIMEOUT_SECS`]; report `Settled`, with
    /// the time from before the CONNECT to after the read.
    Ping { index: usize },
    /// The run is over: take the result.
    Finish,
}

/// What a step of the rounds means for the jitter probe.
pub open spec fn jitter_action(action: RoundAction, interval_ms: u64) -> JitterAction {
    match action {
        RoundAction::WaitTick => JitterAction::WaitTick { interval_ms },
        RoundAction::Query { index } => JitterAction::Ping { index },
        RoundAction::Finish => JitterAction::Finish,
    }
}

impl NetworkJitterTest {
    /// A probe of `targets` through the proxy at `proxy_addr`, with a ping
    /// every `ping_interval_ms` milliseconds for `test_duration_sec` seconds.
    pub fn new(
        proxy_addr: &str,
        targets: Vec<String>,
        ping_interval_ms: u64,
        test_duration_sec: u64,
    ) -> (t: NetworkJitterTest)
        ensures
            t.spec_proxy_addr() == proxy_addr@,
            t.spec_targets() == name_texts(targets@),
            t.spec_ping_interval_ms() == ping_interval_ms,
            t.spec_test_duration_sec() == test_duration_sec,
    {
        NetworkJitterTest {
            proxy_addr: String::from_str(proxy_addr),
            targets,
            ping_interval_ms,
            test_duration_sec,
        }
    }

    /// The proxy's address, as text.
    pub closed spec fn spec_proxy_addr(&self) -> Seq<char> {
        self.proxy_addr@
    }

    /// The targets, in the order given.
    pub closed spec fn spec_targets(&self) -> Seq<Seq<char>> {
        name_texts(self.targets@)
    }

    /// Milliseconds between two pings.
    pub closed spec fn spec_ping_interval_ms(&self) -> u64 {
        self.ping_interval_ms
    }

    /// Seconds that the probe lasts.
    pub closed spec fn spec_test_duration_sec(&self) -> u64 {
        self.test_duration_sec
    }

    /// The proxy's address, as text.
    pub fn proxy_addr(&self) -> (a: &str)
        ensures
            a@ == self.spec_proxy_addr(),
    {
        self.proxy_addr.as_str()
    }

    /// The targets, in the order given.
    pub fn targets(&self) -> (t: &Vec<String>)
        ensures
            name_texts(t@) == self.spec_targets(),
    {
        &self.targets
    }

    /// Milliseconds between two pings.
    pub fn ping_interval_ms(&self) -> (ms: u64)
        ensures
            ms == self.spec_ping_interval_ms(),
    {
        self.ping_interval_ms
    }

    /// Seconds that the probe lasts.
    pub fn test_duration_sec(&self) -> (s: u64)
        ensures
            s == self.spec_test_duration_sec(),
    {
        self.test_duration_sec
    }

    /// Starts a run at time zero of the caller's clock, and says what to do
    /// first. With no target the run is over at once.
    pub fn start(&self) -> (r: (NetworkJitterRun, JitterAction))
        ensures
            r.0.wf(),
            r.0.spec_interval_ms() == self.spec_ping_interval_ms(),
            r.0@ == (RoundsView {
                board: BoardView { names: self.spec_targets(), pending: None, history: Seq::empty() },
                duration_sec: self.spec_test_duration_sec(),
                awaiting: Awaiting::Done,
                clock: 0,
            }).begin().0,
            r.1 == jitter_action(
                (RoundsView {
                    board: BoardView {
                        names: self.spec_targets(),
                        pending: None,
                        history: Seq::empty(),
                    },
                    duration_sec: self.spec_test_duration_sec(),
                    awaiting: Awaiting::Done,
                    clock: 0,
                }).begin().1,
                self.spec_ping_interval_ms(),
            ),
    {
        let (rounds, action) = Rounds::start(&self.targets, self.test_duration_sec);
        let run = NetworkJitterRun { rounds, interval_ms: self.ping_interval_ms };
        let action = match action {
            RoundAction::WaitTick => JitterAction::WaitTick { interval_ms: self.ping_interval_ms },
            RoundAction::Query { index } => JitterAction::Ping { index },
            RoundAction::Finish => JitterAction::Finish,
        };
        (run, action)
    }
}

/// One run of the jitter probe.
pub struct NetworkJitterRun {
    rounds: Rounds,
    interval_ms: u64,
}

impl View for NetworkJitterRun {
    type V = RoundsView;

    closed spec fn view(&self) -> RoundsView {
        self.rounds@
    }
}

impl NetworkJitterRun {
    /// What holds of every run.
    pub closed spec fn wf(&self) -> bool {
        self.rounds.wf()
    }

    /// Milliseconds between two pings.
    pub closed spec fn spec_interval_ms(&self) -> u64 {
        self.interval_ms
    }

    /// What holds of every run holds of its value.
    pub proof fn lemma_wf(&self)
        requires
            self.wf(),
        ensures
            self@.wf(),
    {
        self.rounds.lemma_wf();
    }

    /// What the run waits for.
    pub fn awaiting(&self) -> (a: Awaiting)
        ensures
            a == self@.awaiting,
    {
        self.rounds.awaiting()
    }

    /// Whether the run can be told of `event` now.
    pub fn accepts(&self, event: &RoundEvent) -> (b: bool)
        ensures
            b == self@.expects(*event),
    {
        self.rounds.accepts(event)
    }

    /// The target at `index`.
    pub fn target(&self, index: usize) -> (name: &str)
        requires
            self.wf(),
            index < self@.board.names.len(),
        ensures
            name@ == self@.board.names[index as int],
    {
        self.rounds.board().name(index)
    }

    /// Takes the report of what happened, and says what to do next.
    ///
    /// The report must be one that the run waits for.
    pub fn step(&mut self, event: RoundEvent) -> (action: JitterAction)
        requires
            old(self).wf(),
            old(self)@.expects(event),
        ensures
            final(self).wf(),
            final(self).spec_interval_ms() == old(self).spec_interval_ms(),
            final(self)@ == old(self)@.step(event).0,
            action == jitter_action(old(self)@.step(event).1, old(self).spec_interval_ms()),
            action matches JitterAction::Ping { index } ==> index < final(self)@.board.names.len(),
    {
        match self.rounds.step(event) {
            RoundAction::WaitTick => JitterAction::WaitTick { interval_ms: self.interval_ms },
            RoundAction::Query { index } => JitterAction::Ping { index },
            RoundAction::Finish => JitterAction::Finish,
        }
    }

    /// The result of the run as it stands. After `Finish` it is the result
    /// of the probe.
    pub fn result(&self) -> (result: NetworkJitterResult)
        requires
            self.wf(),
        ensures
            result_of(self@.board, result),
    {
        summarize(self.rounds.board())
    }
}

} // verus!
