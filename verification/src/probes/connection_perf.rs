//! The connection-performance probe: a sequence of CONNECT attempts one at
//! a time, then bursts of concurrent attempts at rising levels.

use crate::stats::average;
use crate::stats::calculate_median;
use crate::stats::calculate_percentile;
use crate::stats::largest;
use crate::stats::maximum;
use crate::stats::mean;
use crate::stats::median;
use crate::stats::minimum;
use crate::stats::percentile;
use crate::stats::share;
use crate::stats::share_of;
use crate::stats::PPM;
use crate::stats::smallest;
use vstd::prelude::*;
use vstd::string::StringExecFns;

verus! {

/// Seconds that one CONNECT attempt may take.
pub const ATTEMPT_TIMEOUT_SECS: u64 = 15;

/// Milliseconds between two attempts of the sequential phase.
pub const ATTEMPT_DELAY_MILLIS: u64 = 100;

/// How many concurrency levels there are.
pub const LEVEL_COUNT: usize = 5;

/// The concurrency level at `index`: 2, 5, 10, 20, 50.
pub open spec fn level_at(index: int) -> usize {
    if index == 0 {
        2
    } else if index == 1 {
        5
    } else if index == 2 {
        10
    } else if index == 3 {
        20
    } else {
        50
    }
}

/// The concurrency level at `index`.
pub fn level(index: usize) -> (l: usize)
    requires
        index < LEVEL_COUNT,
    ensures
        l == level_at(index as int),
{
    if index == 0 {
        2
    } else if index == 1 {
        5
    } else if index == 2 {
        10
    } else if index == 3 {
        20
    } else {
        50
    }
}

/// The settings of one connection-performance probe.
#[derive(Debug, Clone)]
pub struct ConnectionPerfTest {
    proxy_addr: String,
    target_addr: String,
    concurrent_connections: usize,
    total_connections: usize,
}

/// How a CONNECT attempt ended.
#[derive(Clone, Copy, Debug, PartialEq, Eq, Structural)]
pub enum Outcome {
    Success,
    Failed,
    TimedOut,
}

/// One CONNECT attempt.
#[derive(Debug, Clone)]
pub struct ConnectionAttempt {
    pub outcome: Outcome,
    /// Nanoseconds from the start of the attempt to its end.
    pub total_time: u64,
    /// The text of the error, where the attempt did not succeed.
    pub error: Option<String>,
    /// When the attempt began.
    pub timestamp: u64,
}

/// The mathematical value of a [`ConnectionAttempt`].
pub struct AttemptView {
    pub outcome: Outcome,
    pub total_time: u64,
    pub error: Option<Seq<char>>,
    pub timestamp: u64,
}

impl View for ConnectionAttempt {
    type V = AttemptView;

    open spec fn view(&self) -> AttemptView {
        AttemptView {
            outcome: self.outcome,
            total_time: self.total_time,
            error: match self.error {
                Some(text) => Some(text@),
                None => None,
            },
            timestamp: self.timestamp,
        }
    }
}

/// The values of a list of attempts.
pub open spec fn attempt_views(attempts: Seq<ConnectionAttempt>) -> Seq<AttemptView> {
    Seq::new(attempts.len(), |i: int| attempts[i]@)
}

/// One row of the concurrent phase.
#[derive(Debug, Clone, Copy, PartialEq, Eq, Structural)]
pub struct ConcurrentTestResult {
    pub concurrent_level: usize,
    pub successful_connections: usize,
    pub failed_connections: usize,
    /// The mean time of the attempts that succeeded.
    pub average_time: u64,
    /// Wall-clock nanoseconds of the whole burst.
    pub total_time: u64,
}

/// What a connection-performance probe found.
#[derive(Debug, Clone)]
pub struct ConnectionPerfResult {
    pub total_attempts: usize,
    pub successful_connections: usize,
    /// Attempts that did not succeed, timeouts among them.
    pub failed_connections: usize,
    /// Those of the attempts that did not succeed which timed out.
    pub timed_out_connections: usize,
    /// The time of each attempt that succeeded, in order.
    pub connection_times: Vec<u64>,
    /// The time that each attempt that succeeded spent on the proxy, which
    /// is all of its time.
    pub socks5_handshake_times: Vec<u64>,
    /// The time spent beyond the proxy, which no attempt measures apart.
    pub target_connect_times: Vec<u64>,
    pub concurrent_test_results: Vec<ConcurrentTestResult>,
    pub average_connection_time: u64,
    pub min_connection_time: u64,
    pub max_connection_time: u64,
    pub median_connection_time: u64,
    pub p95_connection_time: u64,
    pub p99_connection_time: u64,
    /// The greatest level at which every attempt succeeded, or zero.
    pub max_concurrent_successful: usize,
    /// Attempts that succeeded, per million attempts.
    pub connection_success_rate: u64,
}

/// How many of the attempts ended as `outcome`.
pub open spec fn count_of(attempts: Seq<AttemptView>, outcome: Outcome) -> nat
    decreases attempts.len(),
{
    if attempts.len() == 0 {
        0
    } else {
        count_of(attempts.drop_last(), outcome) + if attempts.last().outcome == outcome {
            1nat
        } else {
            0nat
        }
    }
}

/// The times of the attempts that succeeded, in order.
pub open spec fn success_times(attempts: Seq<AttemptView>) -> Seq<u64>
    decreases attempts.len(),
{
    if attempts.len() == 0 {
        Seq::empty()
    } else if attempts.last().outcome == Outcome::Success {
        success_times(attempts.drop_last()).push(attempts.last().total_time)
    } else {
        success_times(attempts.drop_last())
    }
}

/// The greatest level among `rows` at which every attempt succeeded, or
/// zero where there is none.
pub open spec fn max_reliable_level(rows: Seq<ConcurrentTestResult>) -> usize
    decreases rows.len(),
{
    if rows.len() == 0 {
        0
    } else {
        let rest = max_reliable_level(rows.drop_last());
        let row = rows.last();
        if row.successful_connections == row.concurrent_level && row.concurrent_level > rest {
            row.concurrent_level
        } else {
            rest
        }
    }
}

/// Every attempt ended in exactly one way: those that succeeded, those that
/// failed and those that timed out are all the attempts; and as many times
/// are on record as attempts succeeded.
pub proof fn lemma_outcomes_partition(attempts: Seq<AttemptView>)
    ensures
        count_of(attempts, Outcome::Success) + count_of(attempts, Outcome::Failed) + count_of(
            attempts,
            Outcome::TimedOut,
        ) == attempts.len(),
        success_times(attempts).len() == count_of(attempts, Outcome::Success),
    decreases attempts.len(),
{
    if attempts.len() > 0 {
        lemma_outcomes_partition(attempts.drop_last());
    }
}

/// The greatest reliable level is zero or the level of a row at which every
/// attempt succeeded, and no such row has a greater level.
pub proof fn lemma_max_reliable_level(rows: Seq<ConcurrentTestResult>)
    ensures
        max_reliable_level(rows) == 0 || exists|i: int|
            0 <= i < rows.len() && (#[trigger] rows[i]).successful_connections
                == rows[i].concurrent_level && rows[i].concurrent_level == max_reliable_level(
                rows,
            ),
        forall|i: int|
            0 <= i < rows.len() && (#[trigger] rows[i]).successful_connections
                == rows[i].concurrent_level ==> rows[i].concurrent_level <= max_reliable_level(
                rows,
            ),
    decreases rows.len(),
{
    if rows.len() > 0 {
        let rest = rows.drop_last();
        lemma_max_reliable_level(rest);
        let m = max_reliable_level(rows);
        if m != 0 {
            if m == max_reliable_level(rest) {
                let i = choose|i: int|
                    0 <= i < rest.len() && (#[trigger] rest[i]).successful_connections
                        == rest[i].concurrent_level && rest[i].concurrent_level
                        == max_reliable_level(rest);
                assert(rows[i] == rest[i]);
            } else {
                assert(rows[rows.len() - 1] == rows.last());
            }
        }
        assert forall|i: int|
            0 <= i < rows.len() && (#[trigger] rows[i]).successful_connections
                == rows[i].concurrent_level implies rows[i].concurrent_level <= m by {
            if i < rest.len() {
                assert(rows[i] == rest[i]);
            }
        }
    }
}

/// The row of a burst at `level` whose attempts ended as `attempts` say,
/// after `total_time` nanoseconds. An attempt of which nothing is known
/// counts as failed.
pub open spec fn level_row(level: usize, attempts: Seq<AttemptView>, total_time: u64)
    -> ConcurrentTestResult {
    ConcurrentTestResult {
        concurrent_level: level,
        successful_connections: count_of(attempts, Outcome::Success) as usize,
        failed_connections: (level - count_of(attempts, Outcome::Success)) as usize,
        average_time: mean(success_times(attempts)) as u64,
        total_time,
    }
}

/// The times of the attempts that succeeded, and how many timed out.
fn tally(attempts: &Vec<ConnectionAttempt>) -> (r: (Vec<u64>, usize))
    ensures
        r.0@ == success_times(attempt_views(attempts@)),
        r.1 == count_of(attempt_views(attempts@), Outcome::TimedOut),
        r.0@.len() == count_of(attempt_views(attempts@), Outcome::Success),
        r.0@.len() + r.1 <= attempts@.len(),
{
    let ghost all = attempt_views(attempts@);
    let mut times: Vec<u64> = Vec::new();
    let mut timed_out: usize = 0;
    let mut i: usize = 0;
    while i < attempts.len()
        invariant
            i <= attempts.len(),
            all == attempt_views(attempts@),
            times@ == success_times(all.subrange(0, i as int)),
            timed_out == count_of(all.subrange(0, i as int), Outcome::TimedOut),
            times@.len() + timed_out <= i,
        decreases attempts.len() - i,
    {
        proof {
            let next = all.subrange(0, i + 1);
            assert(next.drop_last() =~= all.subrange(0, i as int));
            assert(next.last() == attempts@[i as int]@);
        }
        match attempts[i].outcome {
            Outcome::Success => {
                times.push(attempts[i].total_time);
            },
            Outcome::TimedOut => {
                timed_out = timed_out + 1;
            },
            Outcome::Failed => {},
        }
        i = i + 1;
    }
    proof {
        assert(all.subrange(0, i as int) =~= all);
        lemma_outcomes_partition(all);
    }
    (times, timed_out)
}

/// The row of a burst of `level` concurrent attempts. `attempts` holds the
/// attempts whose end is known; the others count as failed.
pub fn summarize_level(level: usize, attempts: &Vec<ConnectionAttempt>, total_time: u64) -> (row:
    ConcurrentTestResult)
    requires
        attempts@.len() <= level,
    ensures
        row == level_row(level, attempt_views(attempts@), total_time),
{
    let (times, _) = tally(attempts);
    proof {
        lemma_mean_fits(times@);
    }
    ConcurrentTestResult {
        concurrent_level: level,
        successful_connections: times.len(),
        failed_connections: level - times.len(),
        average_time: average(times.as_slice()),
        total_time,
    }
}

/// The mean of samples is no more than the greatest `u64`.
pub proof fn lemma_mean_fits(s: Seq<u64>)
    ensures
        0 <= mean(s) <= u64::MAX,
{
    crate::stats::lemma_total_bound(s);
    if s.len() > 0 {
        let n = s.len() as int;
        let t = crate::stats::total(s);
        assert(0 <= t / n <= u64::MAX) by (nonlinear_arith)
            requires
                n > 0,
                0 <= t <= n * u64::MAX,
        ;
    }
}

/// The greatest level among `rows` at which every attempt succeeded.
pub fn max_concurrent_successful(rows: &Vec<ConcurrentTestResult>) -> (m: usize)
    ensures
        m == max_reliable_level(rows@),
{
    let mut best: usize = 0;
    let mut i: usize = 0;
    while i < rows.len()
        invariant
            i <= rows.len(),
            best == max_reliable_level(rows@.subrange(0, i as int)),
        decreases rows.len() - i,
    {
        proof {
            let next = rows@.subrange(0, i + 1);
            assert(next.drop_last() =~= rows@.subrange(0, i as int));
            assert(next.last() == rows@[i as int]);
        }
        let row = rows[i];
        if row.successful_connections == row.concurrent_level && row.concurrent_level > best {
            best = row.concurrent_level;
        }
        i = i + 1;
    }
    assert(rows@.subrange(0, i as int) =~= rows@);
    best
}

/// Whether `result` is what the sequential attempts and the rows of the
/// concurrent phase add up to.
pub open spec fn summary_of(
    attempts: Seq<AttemptView>,
    rows: Seq<ConcurrentTestResult>,
    result: ConnectionPerfResult,
) -> bool {
    let times = success_times(attempts);
    &&& result.total_attempts == attempts.len()
    &&& result.successful_connections == count_of(attempts, Outcome::Success)
    &&& result.failed_connections == count_of(attempts, Outcome::Failed) + count_of(
        attempts,
        Outcome::TimedOut,
    )
    &&& result.timed_out_connections == count_of(attempts, Outcome::TimedOut)
    &&& result.successful_connections + result.failed_connections == result.total_attempts
    &&& result.connection_times@ == times
    &&& result.socks5_handshake_times@ == times
    &&& result.target_connect_times@ == Seq::<u64>::empty()
    &&& result.connection_success_rate == share(
        count_of(attempts, Outcome::Success) as int,
        attempts.len() as int,
        PPM as int,
    )
    &&& result.concurrent_test_results@ == rows
    &&& result.average_connection_time == mean(times)
    &&& result.min_connection_time == smallest(times)
    &&& result.max_connection_time == largest(times)
    &&& result.median_connection_time == median(times)
    &&& result.p95_connection_time == percentile(times, 95)
    &&& result.p99_connection_time == percentile(times, 99)
    &&& result.max_concurrent_successful == max_reliable_level(rows)
}

/// Adds up the attempts of the sequential phase and the rows of the
/// concurrent phase.
pub fn summarize(attempts: &Vec<ConnectionAttempt>, rows: Vec<ConcurrentTestResult>) -> (result:
    ConnectionPerfResult)
    ensures
        summary_of(attempt_views(attempts@), rows@, result),
{
    let (times, timed_out) = tally(attempts);
    proof {
        lemma_outcomes_partition(attempt_views(attempts@));
    }
    let successful = times.len();
    let max_level = max_concurrent_successful(&rows);
    ConnectionPerfResult {
        total_attempts: attempts.len(),
        successful_connections: successful,
        failed_connections: attempts.len() - successful,
        timed_out_connections: timed_out,
        average_connection_time: average(times.as_slice()),
        min_connection_time: minimum(times.as_slice()),
        max_connection_time: maximum(times.as_slice()),
        median_connection_time: calculate_median(times.as_slice()),
        p95_connection_time: calculate_percentile(times.as_slice(), 95),
        p99_connection_time: calculate_percentile(times.as_slice(), 99),
        socks5_handshake_times: times.clone(),
        target_connect_times: Vec::new(),
        connection_times: times,
        concurrent_test_results: rows,
        max_concurrent_successful: max_level,
        connection_success_rate: share_of(successful as u64, attempts.len() as u64, PPM),
    }
}

/// What a run waits for.
#[derive(Clone, Copy, Debug, PartialEq, Eq, Structural)]
pub enum Awaiting {
    /// The end of one attempt of the sequential phase.
    Attempt,
    /// The end of the pause between two attempts.
    Pause,
    /// The end of a burst of concurrent attempts.
    Burst,
    /// Nothing: the run is over.
    Done,
}

/// What happened.
pub enum PerfEvent {
    /// The attempt ended.
    AttemptDone(ConnectionAttempt),
    /// The pause is over.
    Elapsed,
    /// The burst ended after `total_time` nanoseconds. `attempts` holds the
    /// attempts whose end is known.
    BurstDone { attempts: Vec<ConnectionAttempt>, total_time: u64 },
}

/// The mathematical value of a [`PerfEvent`].
pub enum PerfEventView {
    AttemptDone(AttemptView),
    Elapsed,
    BurstDone { attempts: Seq<AttemptView>, total_time: u64 },
}

impl View for PerfEvent {
    type V = PerfEventView;

    open spec fn view(&self) -> PerfEventView {
        match self {
            PerfEvent::AttemptDone(a) => PerfEventView::AttemptDone(a@),
            PerfEvent::Elapsed => PerfEventView::Elapsed,
            PerfEvent::BurstDone { attempts, total_time } => PerfEventView::BurstDone {
                attempts: attempt_views(attempts@),
                total_time: *total_time,
            },
        }
    }
}

/// What the caller does next.
#[derive(Clone, Copy, Debug, PartialEq, Eq, Structural)]
pub enum PerfAction {
    /// Make one CONNECT attempt within [`ATTEMPT_TIMEOUT_SECS`]; report
    /// `AttemptDone`.
    Attempt,
    /// Sleep; report `Elapsed`.
    Wait { millis: u64 },
    /// Make `level` CONNECT attempts at once and wait for all of them;
    /// report `BurstDone`.
    Burst { level: usize },
    /// The run is over: take the result.
    Finish,
}

/// The mathematical value of a run.
pub struct PerfRunView {
    pub total_connections: usize,
    pub awaiting: Awaiting,
    /// The index of the level of the burst under way.
    pub level_index: int,
    /// The attempts of the sequential phase so far.
    pub attempts: Seq<AttemptView>,
    /// The rows of the concurrent phase so far.
    pub rows: Seq<ConcurrentTestResult>,
}

impl PerfRunView {
    /// What holds of every run: the sequential phase makes no more attempts
    /// than were asked for, and has made all of them once the concurrent
    /// phase has begun or the run is over; the concurrent phase has one row
    /// for each level below the one under way, in the order of the levels.
    pub open spec fn wf(self) -> bool {
        &&& self.attempts.len() <= self.total_connections
        &&& (self.awaiting == Awaiting::Attempt || self.awaiting == Awaiting::Pause)
            ==> self.attempts.len() < self.total_connections && self.rows.len() == 0
        &&& (self.awaiting == Awaiting::Burst || self.awaiting == Awaiting::Done)
            ==> self.attempts.len() == self.total_connections
        &&& self.awaiting == Awaiting::Burst ==> 0 <= self.level_index < LEVEL_COUNT
            && self.rows.len() == self.level_index && level_at(self.level_index)
            <= self.total_connections
        &&& self.rows.len() <= LEVEL_COUNT
        &&& forall|i: int|
            0 <= i < self.rows.len() ==> (#[trigger] self.rows[i]).concurrent_level == level_at(i)
        &&& self.awaiting == Awaiting::Done ==> (self.rows.len() == LEVEL_COUNT || level_at(
            self.rows.len() as int,
        ) > self.total_connections)
    }

    /// Whether a run that waits as `self` does can be told of `event`.
    pub open spec fn expects(self, event: PerfEventView) -> bool {
        match self.awaiting {
            Awaiting::Attempt => event is AttemptDone,
            Awaiting::Pause => event is Elapsed,
            Awaiting::Burst => event matches PerfEventView::BurstDone { attempts, .. }
                && attempts.len() <= level_at(self.level_index),
            Awaiting::Done => false,
        }
    }

    /// The burst at the level of index `index` begins, if there is such a
    /// level and it asks for no more attempts than the sequential phase
    /// made; else the run ends.
    pub open spec fn next_burst(self, index: int) -> (PerfRunView, PerfAction) {
        if index < LEVEL_COUNT && level_at(index) <= self.total_connections {
            (
                PerfRunView { awaiting: Awaiting::Burst, level_index: index, ..self },
                PerfAction::Burst { level: level_at(index) },
            )
        } else {
            (PerfRunView { awaiting: Awaiting::Done, ..self }, PerfAction::Finish)
        }
    }

    /// The first step of a run.
    pub open spec fn begin(self) -> (PerfRunView, PerfAction) {
        if self.total_connections > 0 {
            (PerfRunView { awaiting: Awaiting::Attempt, ..self }, PerfAction::Attempt)
        } else {
            self.next_burst(0)
        }
    }

    /// The transition of a run that is told of `event`.
    pub open spec fn step(self, event: PerfEventView) -> (PerfRunView, PerfAction) {
        match (self.awaiting, event) {
            (Awaiting::Attempt, PerfEventView::AttemptDone(a)) => {
                let next = PerfRunView { attempts: self.attempts.push(a), ..self };
                if next.attempts.len() < self.total_connections {
                    (
                        PerfRunView { awaiting: Awaiting::Pause, ..next },
                        PerfAction::Wait { millis: ATTEMPT_DELAY_MILLIS },
                    )
                } else {
                    next.next_burst(0)
                }
            },
            (Awaiting::Pause, PerfEventView::Elapsed) => (
                PerfRunView { awaiting: Awaiting::Attempt, ..self },
                PerfAction::Attempt,
            ),
            (Awaiting::Burst, PerfEventView::BurstDone { attempts, total_time }) => PerfRunView {
                rows: self.rows.push(level_row(level_at(self.level_index), attempts, total_time)),
                ..self
            }.next_burst(self.level_index + 1),
            _ => (self, PerfAction::Finish),
        }
    }
}

/// Every step keeps what holds of every run. So a run that is over has
/// made every attempt of its sequential phase, or none was asked for, and
/// has one row for each level that asks for no more attempts than that.
pub proof fn lemma_step_keeps_wf(run: PerfRunView, event: PerfEventView)
    requires
        run.wf(),
        run.expects(event),
    ensures
        run.step(event).0.wf(),
{
    let next = run.step(event).0;
    match (run.awaiting, event) {
        (Awaiting::Burst, PerfEventView::BurstDone { attempts, total_time }) => {
            assert forall|i: int| 0 <= i < next.rows.len() implies (
            #[trigger] next.rows[i]).concurrent_level == level_at(i) by {
                if i < run.rows.len() {
                    assert(next.rows[i] == run.rows[i]);
                }
            }
        },
        _ => {},
    }
}

/// A run that is over has made exactly as many attempts as were asked
/// for, one at a time, and each of them ended as a success or as a failure,
/// a timeout being a failure: the result counts them all, and holds one
/// time for each success.
pub proof fn lemma_finished_run_made_every_attempt(run: PerfRunView, result: ConnectionPerfResult)
    requires
        run.wf(),
        run.awaiting == Awaiting::Done,
        summary_of(run.attempts, run.rows, result),
    ensures
        result.total_attempts == run.total_connections,
        result.successful_connections + result.failed_connections == run.total_connections,
        result.timed_out_connections <= result.failed_connections,
        result.connection_times@.len() == result.successful_connections,
{
    lemma_outcomes_partition(run.attempts);
}

impl ConnectionPerfTest {
    /// A probe of `target_addr` through the proxy at `proxy_addr`, with
    /// `total` attempts one at a time. `concurrent` is kept for the report
    /// and decides nothing.
    pub fn new(proxy_addr: &str, target_addr: &str, concurrent: usize, total: usize) -> (t:
        ConnectionPerfTest)
        ensures
            t.spec_proxy_addr() == proxy_addr@,
            t.spec_target_addr() == target_addr@,
            t.spec_concurrent_connections() == concurrent,
            t.spec_total_connections() == total,
    {
        ConnectionPerfTest {
            proxy_addr: String::from_str(proxy_addr),
            target_addr: String::from_str(target_addr),
            concurrent_connections: concurrent,
            total_connections: total,
        }
    }

    /// The proxy's address, as text.
    pub closed spec fn spec_proxy_addr(&self) -> Seq<char> {
        self.proxy_addr@
    }

    /// The target's address, as text.
    pub closed spec fn spec_target_addr(&self) -> Seq<char> {
        self.target_addr@
    }

    /// The number of concurrent connections that was asked for.
    pub closed spec fn spec_concurrent_connections(&self) -> usize {
        self.concurrent_connections
    }

    /// The number of attempts of the sequential phase.
    pub closed spec fn spec_total_connections(&self) -> usize {
        self.total_connections
    }

    /// The proxy's address, as text.
    pub fn proxy_addr(&self) -> (a: &str)
        ensures
            a@ == self.spec_proxy_addr(),
    {
        self.proxy_addr.as_str()
    }

    /// The target's address, as text.
    pub fn target_addr(&self) -> (a: &str)
        ensures
            a@ == self.spec_target_addr(),
    {
        self.target_addr.as_str()
    }

    /// The number of concurrent connections that was asked for.
    pub fn concurrent_connections(&self) -> (n: usize)
        ensures
            n == self.spec_concurrent_connections(),
    {
        self.concurrent_connections
    }

    /// The number of attempts of the sequential phase.
    pub fn total_connections(&self) -> (n: usize)
        ensures
            n == self.spec_total_connections(),
    {
        self.total_connections
    }

    /// Starts a run, and says what to do first.
    pub fn start(&self) -> (r: (ConnectionPerfRun, PerfAction))
        ensures
            r.0.wf(),
            (r.0@, r.1) == (PerfRunView {
                total_connections: self.spec_total_connections(),
                awaiting: Awaiting::Done,
                level_index: 0,
                attempts: Seq::empty(),
                rows: Seq::empty(),
            }).begin(),
    {
        let mut run = ConnectionPerfRun {
            total_connections: self.total_connections,
            awaiting: Awaiting::Done,
            level_index: 0,
            attempts: Vec::new(),
            rows: Vec::new(),
        };
        assert(attempt_views(run.attempts@) =~= Seq::<AttemptView>::empty());
        if self.total_connections > 0 {
            run.awaiting = Awaiting::Attempt;
            (run, PerfAction::Attempt)
        } else {
            let action = run.next_burst(0);
            (run, action)
        }
    }
}

/// One run of the connection-performance probe.
pub struct ConnectionPerfRun {
    total_connections: usize,
    awaiting: Awaiting,
    level_index: usize,
    attempts: Vec<ConnectionAttempt>,
    rows: Vec<ConcurrentTestResult>,
}

impl View for ConnectionPerfRun {
    type V = PerfRunView;

    closed spec fn view(&self) -> PerfRunView {
        PerfRunView {
            total_connections: self.total_connections,
            awaiting: self.awaiting,
            level_index: self.level_index as int,
            attempts: attempt_views(self.attempts@),
            rows: self.rows@,
        }
    }
}

impl ConnectionPerfRun {
    /// What holds of every run.
    pub closed spec fn wf(&self) -> bool {
        self@.wf()
    }

    /// What holds of every run holds of its value.
    pub proof fn lemma_wf(&self)
        requires
            self.wf(),
        ensures
            self@.wf(),
    {
    }

    /// What the run waits for.
    pub fn awaiting(&self) -> (a: Awaiting)
        ensures
            a == self@.awaiting,
    {
        self.awaiting
    }

    /// Whether the run can be told of `event` now.
    pub fn accepts(&self, event: &PerfEvent) -> (b: bool)
        requires
            self.wf(),
        ensures
            b == self@.expects(event@),
    {
        match self.awaiting {
            Awaiting::Attempt => match event {
                PerfEvent::AttemptDone(_) => true,
                _ => false,
            },
            Awaiting::Pause => match event {
                PerfEvent::Elapsed => true,
                _ => false,
            },
            Awaiting::Burst => match event {
                PerfEvent::BurstDone { attempts, .. } => attempts.len() <= level(self.level_index),
                _ => false,
            },
            Awaiting::Done => false,
        }
    }

    /// The attempts of the sequential phase so far, each with its outcome,
    /// its time, its error text and its start.
    pub fn attempts(&self) -> (a: &Vec<ConnectionAttempt>)
        ensures
            attempt_views(a@) == self@.attempts,
    {
        &self.attempts
    }

    /// Begins the burst at the level of index `index`, or ends the run.
    fn next_burst(&mut self, index: usize) -> (action: PerfAction)
        requires
            index <= LEVEL_COUNT,
            old(self)@.attempts.len() == old(self)@.total_connections,
            old(self)@.rows.len() == index,
            forall|i: int|
                0 <= i < old(self)@.rows.len() ==> (#[trigger] old(self)@.rows[i]).concurrent_level
                    == level_at(i),
        ensures
            final(self).wf(),
            (final(self)@, action) == old(self)@.next_burst(index as int),
    {
        if index < LEVEL_COUNT && level(index) <= self.total_connections {
            self.awaiting = Awaiting::Burst;
            self.level_index = index;
            PerfAction::Burst { level: level(index) }
        } else {
            self.awaiting = Awaiting::Done;
            PerfAction::Finish
        }
    }

    /// Takes the report of what happened, and says what to do next.
    ///
    /// The report must be one that the run waits for, and a burst reports
    /// no more attempts than its level.
    pub fn step(&mut self, event: PerfEvent) -> (action: PerfAction)
        requires
            old(self).wf(),
            old(self)@.expects(event@),
        ensures
            final(self).wf(),
            (final(self)@, action) == old(self)@.step(event@),
    {
        match event {
            PerfEvent::AttemptDone(attempt) => {
                let ghost before = attempt_views(self.attempts@);
                self.attempts.push(attempt);
                assert(attempt_views(self.attempts@) =~= before.push(attempt@));
                if self.attempts.len() < self.total_connections {
                    self.awaiting = Awaiting::Pause;
                    PerfAction::Wait { millis: ATTEMPT_DELAY_MILLIS }
                } else {
                    self.next_burst(0)
                }
            },
            PerfEvent::Elapsed => {
                self.awaiting = Awaiting::Attempt;
                PerfAction::Attempt
            },
            PerfEvent::BurstDone { attempts, total_time } => {
                let ghost before = self.rows@;
                let row = summarize_level(level(self.level_index), &attempts, total_time);
                self.rows.push(row);
                proof {
                    assert forall|i: int| 0 <= i < self.rows@.len() implies (
                    #[trigger] self.rows@[i]).concurrent_level == level_at(i) by {
                        if i < before.len() {
                            assert(self.rows@[i] == before[i]);
                        }
                    }
                }
                self.next_burst(self.level_index + 1)
            },
        }
    }

    /// The result of the run as it stands. After `Finish` it is the result
    /// of the probe.
    pub fn into_result(self) -> (result: ConnectionPerfResult)
        requires
            self.wf(),
        ensures
            summary_of(self@.attempts, self@.rows, result),
            self@.awaiting == Awaiting::Done ==> result.total_attempts == self@.total_connections,
    {
        summarize(&self.attempts, self.rows)
    }
}

} // verus!
