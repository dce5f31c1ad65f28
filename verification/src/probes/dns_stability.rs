//! The DNS probe: hand-built queries, sent through the UDP relay to a
//! public resolver, one domain after the other.

use crate::clock::no_earlier;
use crate::decimal::decimal_digits;
use crate::decimal::format_decimal;
use crate::error::NetworkTestError;
use crate::probes::round_robin::durations;
use crate::probes::round_robin::failures;
use crate::probes::round_robin::lemma_outcomes_partition;
use crate::probes::round_robin::live_slots;
use crate::probes::round_robin::name_texts;
use crate::probes::round_robin::outcomes;
use crate::probes::round_robin::outcomes_of;
use crate::probes::round_robin::successes;
use crate::probes::round_robin::timeouts;
use crate::probes::round_robin::Awaiting;
use crate::probes::round_robin::Board;
use crate::probes::round_robin::BoardView;
use crate::probes::round_robin::QueryOutcome;
use crate::probes::round_robin::RoundAction;
use crate::probes::round_robin::RoundEvent;
use crate::probes::round_robin::Rounds;
use crate::probes::round_robin::RoundsView;
use crate::socks5::append_bytes;
use crate::stats::average;
use crate::stats::largest;
use crate::stats::maximum;
use crate::stats::mean;
use crate::stats::minimum;
use crate::stats::share;
use crate::stats::share_of;
use crate::stats::smallest;
use crate::stats::PPM;
use vstd::prelude::*;
use vstd::string::StringExecFns;
use vstd::string::StringSliceAdditionalSpecFns;
use vstd::utf8::encode_utf8;

verus! {

/// The resolver that every query is addressed to.
pub const DNS_SERVER: &'static str = "8.8.8.8:53";

/// Seconds that one query may take.
pub const QUERY_TIMEOUT_SECS: u64 = 5;

/// The greatest length of one label of a domain name.
pub const MAX_LABEL: usize = 63;

/// The byte of a dot.
pub const DOT: u8 = 46;

/// The header of every query: id 0x1234, a standard query with recursion
/// desired, one question, no other records.
pub open spec fn query_header() -> Seq<u8> {
    seq![0x12u8, 0x34u8, 0x01u8, 0x00u8, 0x00u8, 0x01u8, 0u8, 0u8, 0u8, 0u8, 0u8, 0u8]
}

/// The length of the first label of `name`: the index of its first dot, or
/// its length where it has none.
pub open spec fn first_label(name: Seq<u8>) -> nat
    decreases name.len(),
{
    if name.len() == 0 || name[0] == DOT {
        0
    } else {
        1 + first_label(name.skip(1))
    }
}

/// Whether no label of `name` is longer than 63 bytes. The labels are what
/// stands between the dots.
pub open spec fn labels_fit(name: Seq<u8>) -> bool
    decreases name.len(),
{
    let d = first_label(name) as int;
    d <= MAX_LABEL && (d >= name.len() || labels_fit(name.skip(d + 1)))
}

/// The labels of `name`, each behind its length byte.
pub open spec fn labels_wire(name: Seq<u8>) -> Seq<u8>
    decreases name.len(),
{
    let d = first_label(name) as int;
    if d >= name.len() {
        seq![d as u8] + name
    } else {
        seq![d as u8] + name.take(d) + labels_wire(name.skip(d + 1))
    }
}

/// The query for the A record of `name`, class IN.
pub open spec fn query_wire(name: Seq<u8>) -> Seq<u8> {
    query_header() + labels_wire(name) + seq![0u8, 0u8, 1u8, 0u8, 1u8]
}

/// The first label ends at the first dot, or at the end.
pub proof fn lemma_first_label(name: Seq<u8>, d: int)
    requires
        0 <= d <= name.len(),
        forall|k: int| 0 <= k < d ==> name[k] != DOT,
        d == name.len() || name[d] == DOT,
    ensures
        first_label(name) == d,
    decreases d,
{
    if d > 0 {
        let rest = name.skip(1);
        assert forall|k: int| 0 <= k < d - 1 implies rest[k] != DOT by {
            assert(rest[k] == name[k + 1]);
        }
        lemma_first_label(rest, d - 1);
    }
}

/// Builds the query for `domain`. Fails with a `Config` error where a
/// label of `domain` is longer than 63 bytes.
pub fn create_dns_query_packet(domain: &str) -> (r: Result<Vec<u8>, NetworkTestError>)
    ensures
        match r {
            Ok(packet) => labels_fit(domain.spec_bytes()) && packet@ == query_wire(
                domain.spec_bytes(),
            ),
            Err(e) => !labels_fit(domain.spec_bytes()) && e is Config && e.spec_message()
                == "Domain part too long"@,
        },
{
    let name = domain.as_bytes();
    let n = name.len();
    let mut packet: Vec<u8> = Vec::new();
    packet.push(0x12);
    packet.push(0x34);
    packet.push(0x01);
    packet.push(0x00);
    packet.push(0x00);
    packet.push(0x01);
    packet.push(0);
    packet.push(0);
    packet.push(0);
    packet.push(0);
    packet.push(0);
    packet.push(0);
    assert(packet@ =~= query_header());
    assert(name@.skip(0) =~= name@);
    let mut start: usize = 0;
    let mut i: usize = 0;
    while i < n
        invariant
            start <= i <= n,
            n == name@.len(),
            name@ == domain.spec_bytes(),
            forall|k: int| start <= k < i ==> name@[k] != DOT,
            labels_fit(name@) == labels_fit(name@.skip(start as int)),
            packet@ + labels_wire(name@.skip(start as int)) == query_header() + labels_wire(name@),
        decreases n - i,
    {
        if name[i] == DOT {
            let length = i - start;
            let ghost rest = name@.skip(start as int);
            proof {
                assert forall|k: int| 0 <= k < length implies rest[k] != DOT by {
                    assert(rest[k] == name@[start + k]);
                }
                assert(rest[length as int] == name@[i as int]);
                lemma_first_label(rest, length as int);
                assert(rest.skip(length + 1) =~= name@.skip(i + 1));
            }
            if length > MAX_LABEL {
                assert(!labels_fit(rest));
                return Err(
                    NetworkTestError::Config(String::from_str("Domain part too long")),
                );
            }
            let ghost before = packet@;
            packet.push(length as u8);
            append_bytes(&mut packet, vstd::slice::slice_subrange(name, start, i));
            proof {
                assert(rest.take(length as int) =~= name@.subrange(start as int, i as int));
                assert(packet@ =~= before + (seq![length as u8] + rest.take(length as int)));
                assert(packet@ + labels_wire(name@.skip(i + 1)) =~= before + labels_wire(rest));
            }
            start = i + 1;
        }
        i = i + 1;
    }
    let length = n - start;
    let ghost rest = name@.skip(start as int);
    proof {
        assert forall|k: int| 0 <= k < length implies rest[k] != DOT by {
            assert(rest[k] == name@[start + k]);
        }
        lemma_first_label(rest, length as int);
    }
    if length > MAX_LABEL {
        return Err(NetworkTestError::Config(String::from_str("Domain part too long")));
    }
    let ghost before = packet@;
    packet.push(length as u8);
    append_bytes(&mut packet, vstd::slice::slice_subrange(name, start, n));
    proof {
        assert(name@.subrange(start as int, n as int) =~= rest);
        assert(packet@ =~= before + labels_wire(rest));
    }
    packet.push(0);
    packet.push(0);
    packet.push(1);
    packet.push(0);
    packet.push(1);
    assert(packet@ =~= query_wire(name@));
    Ok(packet)
}

/// What the first `n` bytes of a response mean: nothing where the query
/// was answered, else the text of the error. A response has at least the
/// twelve bytes of a header, and its response code, the low four bits of
/// its fourth byte, is zero.
pub open spec fn response_fault(response: Seq<u8>, n: int) -> Option<Seq<char>> {
    if n < 12 {
        Some("Invalid DNS response"@)
    } else if response[3] & 0x0F != 0 {
        Some("DNS query failed with code: "@ + decimal_digits((response[3] & 0x0F) as nat))
    } else {
        None
    }
}

/// Checks the response in the first `n` bytes of `response`.
pub fn check_dns_response(response: &[u8], n: usize) -> (r: Result<(), NetworkTestError>)
    requires
        n <= response@.len(),
    ensures
        match r {
            Ok(_) => response_fault(response@, n as int) is None,
            Err(e) => e is Connection && response_fault(response@, n as int) == Some(
                e.spec_message(),
            ),
        },
{
    if n < 12 {
        return Err(NetworkTestError::Connection(String::from_str("Invalid DNS response")));
    }
    let code = response[3] & 0x0F;
    if code != 0 {
        let mut text = String::from_str("DNS query failed with code: ");
        text.append(format_decimal(code as u64).as_str());
        return Err(NetworkTestError::Connection(text));
    }
    Ok(())
}

/// The settings of one DNS probe.
#[derive(Debug, Clone)]
pub struct DnsStabilityTest {
    proxy_addr: String,
    domains: Vec<String>,
    query_interval_ms: u64,
    test_duration_sec: u64,
}

/// What the probe found of one domain.
#[derive(Debug, Clone)]
pub struct DomainResult {
    pub domain: String,
    pub total_queries: u64,
    pub successful_queries: u64,
    /// Queries that did not succeed, timeouts among them.
    pub failed_queries: u64,
    pub average_query_time: u64,
    pub query_times: Vec<u64>,
}

/// What a DNS probe found.
#[derive(Debug, Clone)]
pub struct DnsStabilityResult {
    pub total_queries: u64,
    pub successful_queries: u64,
    pub failed_queries: u64,
    pub timeout_queries: u64,
    /// One entry for each distinct domain, in the order of first mention.
    pub domain_results: Vec<DomainResult>,
    pub average_query_time: u64,
    pub min_query_time: u64,
    pub max_query_time: u64,
    /// Successful queries per million queries.
    pub success_rate: u64,
}

/// Whether `result` is what the board says of the domain that first occurs
/// at `slot`.
pub open spec fn domain_result_of(board: BoardView, slot: int, result: DomainResult) -> bool {
    let h = outcomes_of(board.history, board.names, slot);
    &&& result.domain@ == board.names[slot]
    &&& result.total_queries == board.issued_for(slot)
    &&& result.successful_queries == successes(h)
    &&& result.failed_queries == failures(h) + timeouts(h)
    &&& result.average_query_time == mean(durations(h))
    &&& result.query_times@ == durations(h)
}

/// Whether `result` is what the board adds up to.
pub open spec fn result_of(board: BoardView, result: DnsStabilityResult) -> bool {
    let h = outcomes(board.history);
    let slots = live_slots(board.names, board.names.len() as int);
    &&& result.total_queries == board.issued()
    &&& result.successful_queries == successes(h)
    &&& result.failed_queries == failures(h)
    &&& result.timeout_queries == timeouts(h)
    &&& result.average_query_time == mean(durations(h))
    &&& result.min_query_time == smallest(durations(h))
    &&& result.max_query_time == largest(durations(h))
    &&& result.success_rate == share(successes(h) as int, board.issued(), PPM as int)
    &&& result.domain_results@.len() == slots.len()
    &&& forall|k: int|
        0 <= k < slots.len() ==> domain_result_of(board, slots[k], #[trigger] result.domain_results@[k])
}

/// Adds up a board into the result of the probe.
pub fn summarize(board: &Board) -> (result: DnsStabilityResult)
    requires
        board.wf(),
    ensures
        result_of(board@, result),
{
    let ghost view = board@;
    let mut domain_results: Vec<DomainResult> = Vec::new();
    let mut i: usize = 0;
    let n = board.name_count();
    while i < n
        invariant
            i <= n,
            n == view.names.len(),
            board.wf(),
            view == board@,
            domain_results@.len() == live_slots(view.names, i as int).len(),
            forall|k: int|
                0 <= k < domain_results@.len() ==> domain_result_of(
                    view,
                    live_slots(view.names, i as int)[k],
                    #[trigger] domain_results@[k],
                ),
        decreases n - i,
    {
        if board.is_first(i) {
            let tally = board.tally(i);
            let ghost before = domain_results@;
            let entry = DomainResult {
                domain: tally.name.clone(),
                total_queries: tally.total,
                successful_queries: tally.successful,
                failed_queries: tally.failed,
                average_query_time: average(tally.samples.as_slice()),
                query_times: tally.samples.clone(),
            };
            domain_results.push(entry);
            proof {
                let slots = live_slots(view.names, i + 1);
                assert(slots == live_slots(view.names, i as int).push(i as int));
                assert forall|k: int| 0 <= k < domain_results@.len() implies domain_result_of(
                    view,
                    slots[k],
                    #[trigger] domain_results@[k],
                ) by {
                    if k < before.len() {
                        assert(domain_results@[k] == before[k]);
                    }
                }
            }
        }
        i = i + 1;
    }
    let samples = board.samples();
    proof {
        lemma_outcomes_partition(outcomes(view.history));
    }
    let issued = board.issued();
    let successful = board.successful();
    DnsStabilityResult {
        total_queries: issued,
        successful_queries: successful,
        failed_queries: board.failed(),
        timeout_queries: board.timed_out(),
        domain_results,
        average_query_time: average(samples.as_slice()),
        min_query_time: minimum(samples.as_slice()),
        max_query_time: maximum(samples.as_slice()),
        success_rate: share_of(successful, issued, PPM),
    }
}

/// What happened, with the time at which it was seen.
pub enum DnsEvent {
    /// The UDP association stands.
    Associated { now: u64 },
    /// The UDP association could not be opened, for this reason.
    AssociateFailed { now: u64, reason: String },
    /// The interval ticked.
    Ticked { now: u64 },
    /// The query under way ended.
    Settled { now: u64, outcome: QueryOutcome },
}

/// The mathematical value of a [`DnsEvent`].
pub enum DnsEventView {
    Associated { now: u64 },
    AssociateFailed { now: u64, reason: Seq<char> },
    Ticked { now: u64 },
    Settled { now: u64, outcome: QueryOutcome },
}

impl View for DnsEvent {
    type V = DnsEventView;

    open spec fn view(&self) -> DnsEventView {
        match self {
            DnsEvent::Associated { now } => DnsEventView::Associated { now: *now },
            DnsEvent::AssociateFailed { now, reason } => DnsEventView::AssociateFailed {
                now: *now,
                reason: reason@,
            },
            DnsEvent::Ticked { now } => DnsEventView::Ticked { now: *now },
            DnsEvent::Settled { now, outcome } => DnsEventView::Settled {
                now: *now,
                outcome: *outcome,
            },
        }
    }
}

/// What the caller does next.
pub enum DnsAction {
    /// Open the UDP association that every query of the run goes through;
    /// report `Associated` or `AssociateFailed`.
    Associate,
    /// Wait for the next tick of the query interval, the first of which
    /// comes at once; report `Ticked`.
    WaitTick { interval_ms: u64 },
    /// Send `packet` through the relay to [`DNS_SERVER`] and wait for the
    /// response, within [`QUERY_TIMEOUT_SECS`]; report `Settled`.
    Query { index: usize, packet: Vec<u8> },
    /// The run is over: take the result.
    Finish,
    /// The probe failed: no association ever stood.
    Abort(NetworkTestError),
}

/// The mathematical value of a [`DnsAction`]. An abort is known by its text.
pub enum DnsActionView {
    Associate,
    WaitTick { interval_ms: u64 },
    Query { index: usize, packet: Seq<u8> },
    Finish,
    Abort(Seq<char>),
}

impl View for DnsAction {
    type V = DnsActionView;

    open spec fn view(&self) -> DnsActionView {
        match self {
            DnsAction::Associate => DnsActionView::Associate,
            DnsAction::WaitTick { interval_ms } => DnsActionView::WaitTick {
                interval_ms: *interval_ms,
            },
            DnsAction::Query { index, packet } => DnsActionView::Query {
                index: *index,
                packet: packet@,
            },
            DnsAction::Finish => DnsActionView::Finish,
            DnsAction::Abort(e) => DnsActionView::Abort(e.spec_message()),
        }
    }
}

/// The mathematical value of a run: its rounds, its interval, and whether
/// it still waits for its association.
pub struct DnsRunView {
    pub rounds: RoundsView,
    pub interval_ms: u64,
    pub opening: bool,
}

/// What an action of the rounds is for the DNS probe, where it is no query.
pub open spec fn plain_action(action: RoundAction, interval_ms: u64) -> DnsActionView {
    if action is WaitTick {
        DnsActionView::WaitTick { interval_ms }
    } else {
        DnsActionView::Finish
    }
}

impl DnsRunView {
    /// What holds of every run: while it waits for its association, no
    /// query has begun.
    pub open spec fn wf(self) -> bool {
        &&& self.rounds.wf()
        &&& self.opening ==> self.rounds.awaiting == Awaiting::Tick
    }

    /// Whether a run that waits as `self` does can be told of `event`.
    pub open spec fn expects(self, event: DnsEventView) -> bool {
        match event {
            DnsEventView::Associated { .. } => self.opening,
            DnsEventView::AssociateFailed { .. } => self.opening,
            DnsEventView::Ticked { now } => !self.opening && self.rounds.expects(
                RoundEvent::Ticked { now },
            ),
            DnsEventView::Settled { now, outcome } => !self.opening && self.rounds.expects(
                RoundEvent::Settled { now, outcome },
            ),
        }
    }

    /// The run goes on with `rounds`.
    pub open spec fn with(self, rounds: RoundsView) -> DnsRunView {
        DnsRunView { rounds, opening: false, ..self }
    }

    /// What a step of the rounds means for the DNS probe. A query goes out
    /// with its packet. Where no packet can be built for the domain in
    /// turn, the query counts as failed at once, and the run moves on.
    pub open spec fn after(self, moved: (RoundsView, RoundAction)) -> (DnsRunView, DnsActionView) {
        match moved.1 {
            RoundAction::Query { index } => {
                let name = encode_utf8(moved.0.board.names[index as int]);
                if labels_fit(name) {
                    (self.with(moved.0), DnsActionView::Query { index, packet: query_wire(name) })
                } else {
                    let skipped = moved.0.step(
                        RoundEvent::Settled { now: moved.0.clock, outcome: QueryOutcome::Failed },
                    );
                    (self.with(skipped.0), plain_action(skipped.1, self.interval_ms))
                }
            },
            action => (self.with(moved.0), plain_action(action, self.interval_ms)),
        }
    }

    /// The first step of a run whose rounds have begun as `begun` says: with
    /// no domain, or no time, the run is over at once; else the
    /// association is opened.
    pub open spec fn begin(interval_ms: u64, begun: (RoundsView, RoundAction)) -> (
        DnsRunView,
        DnsActionView,
    ) {
        if begun.1 is WaitTick {
            (DnsRunView { rounds: begun.0, interval_ms, opening: true }, DnsActionView::Associate)
        } else {
            (DnsRunView { rounds: begun.0, interval_ms, opening: false }, DnsActionView::Finish)
        }
    }

    /// The transition of a run that is told of `event`.
    pub open spec fn step(self, event: DnsEventView) -> (DnsRunView, DnsActionView) {
        match event {
            DnsEventView::Associated { now } => self.after(
                self.rounds.next_round(no_earlier(self.rounds.clock, now)),
            ),
            DnsEventView::AssociateFailed { now, reason } => (
                self.with(
                    RoundsView {
                        awaiting: Awaiting::Done,
                        clock: no_earlier(self.rounds.clock, now),
                        ..self.rounds
                    },
                ),
                DnsActionView::Abort("Failed to create UDP association: "@ + reason),
            ),
            DnsEventView::Ticked { now } => self.after(
                self.rounds.step(RoundEvent::Ticked { now }),
            ),
            DnsEventView::Settled { now, outcome } => self.after(
                self.rounds.step(RoundEvent::Settled { now, outcome }),
            ),
        }
    }
}

/// Where the association cannot be opened the probe fails: the run is
/// over, an abort is the answer, and no query has been counted.
pub proof fn lemma_failed_association_is_fatal(run: DnsRunView, now: u64, reason: Seq<char>)
    requires
        run.wf(),
        run.opening,
        run.rounds.board.history.len() == 0,
    ensures
        run.step(DnsEventView::AssociateFailed { now, reason }).1 is Abort,
        run.step(DnsEventView::AssociateFailed { now, reason }).0.rounds.awaiting
            == Awaiting::Done,
        run.step(DnsEventView::AssociateFailed { now, reason }).0.rounds.board.issued() == 0,
{
}

impl DnsStabilityTest {
    /// A probe of `domains` through the proxy at `proxy_addr`, with a query
    /// every `query_interval_ms` milliseconds for `test_duration_sec`
    /// seconds.
    pub fn new(
        proxy_addr: &str,
        domains: Vec<String>,
        query_interval_ms: u64,
        test_duration_sec: u64,
    ) -> (t: DnsStabilityTest)
        ensures
            t.spec_proxy_addr() == proxy_addr@,
            t.spec_domains() == name_texts(domains@),
            t.spec_query_interval_ms() == query_interval_ms,
            t.spec_test_duration_sec() == test_duration_sec,
    {
        DnsStabilityTest {
            proxy_addr: String::from_str(proxy_addr),
            domains,
            query_interval_ms,
            test_duration_sec,
        }
    }

    /// The proxy's address, as text.
    pub closed spec fn spec_proxy_addr(&self) -> Seq<char> {
        self.proxy_addr@
    }

    /// The domains, in the order given.
    pub closed spec fn spec_domains(&self) -> Seq<Seq<char>> {
        name_texts(self.domains@)
    }

    /// Milliseconds between two queries.
    pub closed spec fn spec_query_interval_ms(&self) -> u64 {
        self.query_interval_ms
    }

    /// Seconds that the probe lasts.
    pub closed spec fn spec_test_duration_sec(&self) -> u64 {
        self.test_duration_sec
    }

    /// The proxy's address, as text.
    pub fn proxy_addr(&self) -> (a: &str)
        ensures
            a@ == self.spec_proxy_addr(),
    {
        self.proxy_addr.as_str()
    }

    /// The domains, in the order given.
    pub fn domains(&self) -> (d: &Vec<String>)
        ensures
            name_texts(d@) == self.spec_domains(),
    {
        &self.domains
    }

    /// Milliseconds between two queries.
    pub fn query_interval_ms(&self) -> (ms: u64)
        ensures
            ms == self.spec_query_interval_ms(),
    {
        self.query_interval_ms
    }

    /// Seconds that the probe lasts.
    pub fn test_duration_sec(&self) -> (s: u64)
        ensures
            s == self.spec_test_duration_sec(),
    {
        self.test_duration_sec
    }

    /// Starts a run at time zero of the caller's clock, and says what to do
    /// first. With no domain the run is over at once.
    pub fn start(&self) -> (r: (DnsStabilityRun, DnsAction))
        ensures
            r.0.wf(),
            (r.0@, r.1@) == DnsRunView::begin(
                self.spec_query_interval_ms(),
                (RoundsView {
                    board: BoardView {
                        names: self.spec_domains(),
                        pending: None,
                        history: Seq::empty(),
                    },
                    duration_sec: self.spec_test_duration_sec(),
                    awaiting: Awaiting::Done,
                    clock: 0,
                }).begin(),
            ),
    {
        let (rounds, action) = Rounds::start(&self.domains, self.test_duration_sec);
        match action {
            RoundAction::WaitTick => (
                DnsStabilityRun { rounds, interval_ms: self.query_interval_ms, opening: true },
                DnsAction::Associate,
            ),
            _ => (
                DnsStabilityRun { rounds, interval_ms: self.query_interval_ms, opening: false },
                DnsAction::Finish,
            ),
        }
    }
}

/// One run of the DNS probe.
pub struct DnsStabilityRun {
    rounds: Rounds,
    interval_ms: u64,
    opening: bool,
}

impl View for DnsStabilityRun {
    type V = DnsRunView;

    closed spec fn view(&self) -> DnsRunView {
        DnsRunView { rounds: self.rounds@, interval_ms: self.interval_ms, opening: self.opening }
    }
}

impl DnsStabilityRun {
    /// What holds of every run.
    pub closed spec fn wf(&self) -> bool {
        &&& self.rounds.wf()
        &&& self@.wf()
    }

    /// What holds of every run holds of its value.
    pub proof fn lemma_wf(&self)
        requires
            self.wf(),
        ensures
            self@.wf(),
    {
    }

    /// What the run waits for, once its association stands.
    pub fn awaiting(&self) -> (a: Awaiting)
        ensures
            a == self@.rounds.awaiting,
    {
        self.rounds.awaiting()
    }

    /// Whether the run still waits for its association.
    pub fn is_opening(&self) -> (b: bool)
        ensures
            b == self@.opening,
    {
        self.opening
    }

    /// Whether the run can be told of `event` now.
    pub fn accepts(&self, event: &DnsEvent) -> (b: bool)
        ensures
            b == self@.expects(event@),
    {
        match event {
            DnsEvent::Associated { .. } => self.opening,
            DnsEvent::AssociateFailed { .. } => self.opening,
            DnsEvent::Ticked { now } => !self.opening && self.rounds.accepts(
                &RoundEvent::Ticked { now: *now },
            ),
            DnsEvent::Settled { now, outcome } => !self.opening && self.rounds.accepts(
                &RoundEvent::Settled { now: *now, outcome: *outcome },
            ),
        }
    }

    /// The domain at `index`.
    pub fn domain(&self, index: usize) -> (name: &str)
        requires
            self.wf(),
            index < self@.rounds.board.names.len(),
        ensures
            name@ == self@.rounds.board.names[index as int],
    {
        self.rounds.board().name(index)
    }

    /// Says what an action of the rounds is for the probe.
    fn after(&mut self, action: RoundAction) -> (r: DnsAction)
        requires
            old(self).rounds.wf(),
            action matches RoundAction::Query { index } ==> index < old(self)@.rounds.board.names.len() && old(self)@.rounds.awaiting == Awaiting::Query,
        ensures
            final(self).wf(),
            (final(self)@, r@) == old(self)@.after((old(self)@.rounds, action)),
            !(r is Abort) && !(r is Associate),
    {
        self.opening = false;
        proof {
            self.rounds.lemma_wf();
        }
        match action {
            RoundAction::WaitTick => DnsAction::WaitTick { interval_ms: self.interval_ms },
            RoundAction::Finish => DnsAction::Finish,
            RoundAction::Query { index } => {
                let built = create_dns_query_packet(self.rounds.board().name(index));
                match built {
                    Ok(packet) => DnsAction::Query { index, packet },
                    Err(_) => {
                        let now = self.rounds.clock();
                        let skipped = self.rounds.step(
                            RoundEvent::Settled { now, outcome: QueryOutcome::Failed },
                        );
                        proof {
                            self.rounds.lemma_wf();
                        }
                        match skipped {
                            RoundAction::WaitTick => DnsAction::WaitTick {
                                interval_ms: self.interval_ms,
                            },
                            _ => DnsAction::Finish,
                        }
                    },
                }
            },
        }
    }

    /// Takes the report of what happened, and says what to do next.
    ///
    /// The report must be one that the run waits for.
    pub fn step(&mut self, event: DnsEvent) -> (action: DnsAction)
        requires
            old(self).wf(),
            old(self)@.expects(event@),
        ensures
            final(self).wf(),
            (final(self)@, action@) == old(self)@.step(event@),
            action matches DnsAction::Abort(e) ==> e is Connection,
            action matches DnsAction::Query { index, .. } ==> index < final(self)@.rounds.board.names.len(),
    {
        match event {
            DnsEvent::Associated { now } => {
                let moved = self.rounds.resume(now);
                self.after(moved)
            },
            DnsEvent::AssociateFailed { now, reason } => {
                self.rounds.stop(now);
                self.opening = false;
                proof {
                    self.rounds.lemma_wf();
                }
                let mut text = String::from_str("Failed to create UDP association: ");
                text.append(reason.as_str());
                DnsAction::Abort(NetworkTestError::Connection(text))
            },
            DnsEvent::Ticked { now } => {
                let moved = self.rounds.step(RoundEvent::Ticked { now });
                self.after(moved)
            },
            DnsEvent::Settled { now, outcome } => {
                let moved = self.rounds.step(RoundEvent::Settled { now, outcome });
                self.after(moved)
            },
        }
    }

    /// The result of the run as it stands. After `Finish` it is the result
    /// of the probe.
    pub fn result(&self) -> (result: DnsStabilityResult)
        requires
            self.wf(),
        ensures
            result_of(self@.rounds.board, result),
    {
        summarize(self.rounds.board())
    }
}

} // verus!
