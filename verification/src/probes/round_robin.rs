//! The bookkeeping that the DNS probe and the jitter probe share: names
//! taken in turn, one query under way at a time, and a tally for each
//! distinct name.

use crate::clock::advance;
use crate::clock::is_before;
use crate::clock::lies_before;
use crate::clock::no_earlier;
use crate::error::ErrorKind;
use crate::error::NetworkTestError;
use vstd::prelude::*;

verus! {

/// How one query ended.
#[derive(Clone, Copy, Debug, PartialEq, Eq, Structural)]
pub enum QueryOutcome {
    /// It succeeded, in this many nanoseconds.
    Success(u64),
    Failed,
    TimedOut,
}

/// How a query that ended in `error` is counted: as timed out where the
/// error is a timeout, as failed otherwise.
pub fn classify_failure(error: &NetworkTestError) -> (outcome: QueryOutcome)
    ensures
        outcome == if error.spec_kind() == ErrorKind::Timeout {
            QueryOutcome::TimedOut
        } else {
            QueryOutcome::Failed
        },
{
    if error.is_timeout() {
        QueryOutcome::TimedOut
    } else {
        QueryOutcome::Failed
    }
}

/// One query that has ended: the index of its name, and how it ended.
pub struct Settled {
    pub index: int,
    pub outcome: QueryOutcome,
}

/// The least index of `x` in `s`, or -1 where `s` does not hold it.
pub open spec fn find(s: Seq<Seq<char>>, x: Seq<char>) -> int
    decreases s.len(),
{
    if s.len() == 0 {
        -1
    } else if find(s.drop_last(), x) >= 0 {
        find(s.drop_last(), x)
    } else if s.last() == x {
        s.len() - 1
    } else {
        -1
    }
}

/// The index at which the name at `i` first occurs.
pub open spec fn first_of(names: Seq<Seq<char>>, i: int) -> int {
    if find(names.subrange(0, i), names[i]) >= 0 {
        find(names.subrange(0, i), names[i])
    } else {
        i
    }
}

/// How many of the queries succeeded.
pub open spec fn successes(h: Seq<QueryOutcome>) -> nat
    decreases h.len(),
{
    if h.len() == 0 {
        0
    } else {
        successes(h.drop_last()) + if h.last() is Success {
            1nat
        } else {
            0nat
        }
    }
}

/// How many of the queries failed otherwise than by a timeout.
pub open spec fn failures(h: Seq<QueryOutcome>) -> nat
    decreases h.len(),
{
    if h.len() == 0 {
        0
    } else {
        failures(h.drop_last()) + if h.last() is Failed {
            1nat
        } else {
            0nat
        }
    }
}

/// How many of the queries timed out.
pub open spec fn timeouts(h: Seq<QueryOutcome>) -> nat
    decreases h.len(),
{
    if h.len() == 0 {
        0
    } else {
        timeouts(h.drop_last()) + if h.last() is TimedOut {
            1nat
        } else {
            0nat
        }
    }
}

/// The durations of the queries that succeeded, in order.
pub open spec fn durations(h: Seq<QueryOutcome>) -> Seq<u64>
    decreases h.len(),
{
    if h.len() == 0 {
        Seq::empty()
    } else {
        match h.last() {
            QueryOutcome::Success(d) => durations(h.drop_last()).push(d),
            _ => durations(h.drop_last()),
        }
    }
}

/// How the queries ended, in order.
pub open spec fn outcomes(h: Seq<Settled>) -> Seq<QueryOutcome> {
    Seq::new(h.len(), |k: int| h[k].outcome)
}

/// How the queries for the name that first occurs at `slot` ended, in order.
pub open spec fn outcomes_of(h: Seq<Settled>, names: Seq<Seq<char>>, slot: int) -> Seq<
    QueryOutcome,
>
    decreases h.len(),
{
    if h.len() == 0 {
        Seq::empty()
    } else if first_of(names, h.last().index) == slot {
        outcomes_of(h.drop_last(), names, slot).push(h.last().outcome)
    } else {
        outcomes_of(h.drop_last(), names, slot)
    }
}

/// Every query ended in exactly one way, and as many durations are on
/// record as queries succeeded.
pub proof fn lemma_outcomes_partition(h: Seq<QueryOutcome>)
    ensures
        successes(h) + failures(h) + timeouts(h) == h.len(),
        durations(h).len() == successes(h),
    decreases h.len(),
{
    if h.len() > 0 {
        lemma_outcomes_partition(h.drop_last());
    }
}

/// No name has more queries than there are queries.
pub proof fn lemma_outcomes_of_len(h: Seq<Settled>, names: Seq<Seq<char>>, slot: int)
    ensures
        outcomes_of(h, names, slot).len() <= h.len(),
    decreases h.len(),
{
    if h.len() > 0 {
        lemma_outcomes_of_len(h.drop_last(), names, slot);
    }
}

/// The first occurrence of a name lies at or before it, holds the same
/// name, and is its own first occurrence.
pub proof fn lemma_first_of(names: Seq<Seq<char>>, i: int)
    requires
        0 <= i < names.len(),
    ensures
        0 <= first_of(names, i) <= i,
        names[first_of(names, i)] == names[i],
        first_of(names, first_of(names, i)) == first_of(names, i),
{
    let prefix = names.subrange(0, i);
    lemma_find(prefix, names[i]);
    let f = first_of(names, i);
    if f < i {
        assert(prefix[f] == names[f]);
        let inner = names.subrange(0, f);
        lemma_find(inner, names[f]);
        if find(inner, names[f]) >= 0 {
            let g = find(inner, names[f]);
            assert(inner[g] == names[g]);
            assert(prefix[g] == names[g]);
        }
    }
}

/// What `find` finds is the least index of `x`; it finds nothing only
/// where `x` does not occur.
pub proof fn lemma_find(s: Seq<Seq<char>>, x: Seq<char>)
    ensures
        -1 <= find(s, x) < s.len(),
        find(s, x) >= 0 ==> s[find(s, x)] == x,
        forall|j: int| 0 <= j < s.len() && (find(s, x) < 0 || j < find(s, x)) ==> #[trigger] s[j] != x,
    decreases s.len(),
{
    if s.len() > 0 {
        let p = s.drop_last();
        lemma_find(p, x);
        assert forall|j: int| 0 <= j < s.len() && (find(s, x) < 0 || j < find(s, x)) implies #[trigger] s[j]
            != x by {
            if j < p.len() {
                assert(p[j] == s[j]);
            }
        }
        if find(p, x) >= 0 {
            assert(p[find(p, x)] == s[find(p, x)]);
        }
    }
}

/// The tally of one name.
#[derive(Debug, Clone)]
pub struct Tally {
    pub name: String,
    /// Queries begun for the name.
    pub total: u64,
    pub successful: u64,
    /// Queries that did not succeed, timeouts among them.
    pub failed: u64,
    /// The duration of each query that succeeded, in order.
    pub samples: Vec<u64>,
}

/// The mathematical value of a board.
pub struct BoardView {
    pub names: Seq<Seq<char>>,
    /// The index of the name whose query is under way.
    pub pending: Option<int>,
    /// The queries that have ended, in order.
    pub history: Seq<Settled>,
}

impl BoardView {
    /// How many queries have begun.
    pub open spec fn issued(self) -> int {
        self.history.len() + if self.pending is Some {
            1int
        } else {
            0int
        }
    }

    /// The names are taken in turn: query number `k`, counted from zero,
    /// is for the name at `k` modulo the number of names.
    pub open spec fn wf(self) -> bool {
        &&& forall|k: int|
            0 <= k < self.history.len() ==> 0 <= (#[trigger] self.history[k]).index
                < self.names.len() && self.history[k].index == k % (self.names.len() as int)
        &&& self.pending matches Some(i) ==> 0 <= i < self.names.len() && i == (
        self.history.len() as int) % (self.names.len() as int)
    }

    /// A query begins for the next name in turn.
    pub open spec fn begin(self) -> BoardView {
        BoardView {
            pending: Some(self.history.len() as int % (self.names.len() as int)),
            ..self
        }
    }

    /// The query under way ends as `outcome`.
    pub open spec fn settle(self, outcome: QueryOutcome) -> BoardView {
        BoardView {
            pending: None,
            history: self.history.push(Settled { index: self.pending->0, outcome }),
            ..self
        }
    }

    /// How many queries have begun for the name that first occurs at `slot`.
    pub open spec fn issued_for(self, slot: int) -> int {
        outcomes_of(self.history, self.names, slot).len() + if self.pending matches Some(i)
            && first_of(self.names, i) == slot {
            1int
        } else {
            0int
        }
    }
}

/// The names in turn, the query under way, and the tallies.
pub struct Board {
    names: Vec<String>,
    firsts: Vec<usize>,
    tallies: Vec<Tally>,
    pending: Option<usize>,
    issued: u64,
    successful: u64,
    failed: u64,
    timed_out: u64,
    samples: Vec<u64>,
    history: Ghost<Seq<Settled>>,
}

/// The characters of each of the names.
pub open spec fn name_texts(names: Seq<String>) -> Seq<Seq<char>> {
    Seq::new(names.len(), |i: int| names[i]@)
}

impl View for Board {
    type V = BoardView;

    closed spec fn view(&self) -> BoardView {
        BoardView {
            names: name_texts(self.names@),
            pending: match self.pending {
                Some(i) => Some(i as int),
                None => None,
            },
            history: self.history@,
        }
    }
}

impl Board {
    /// Whether the tally at `slot` is what the history says of its name.
    pub closed spec fn tally_agrees(&self, slot: int) -> bool {
        let tally = self.tallies@[slot];
        let h = outcomes_of(self.history@, self@.names, slot);
        &&& tally.name@ == self@.names[slot]
        &&& tally.total == self@.issued_for(slot)
        &&& tally.successful == successes(h)
        &&& tally.failed == failures(h) + timeouts(h)
        &&& tally.samples@ == durations(h)
    }

    /// What holds of every board, and of how it keeps its counts.
    pub closed spec fn wf(&self) -> bool {
        &&& self@.wf()
        &&& self.firsts@.len() == self.names@.len()
        &&& self.tallies@.len() == self.names@.len()
        &&& forall|i: int|
            0 <= i < self.names@.len() ==> (#[trigger] self.firsts@[i]) == first_of(
                self@.names,
                i,
            )
        &&& forall|slot: int| 0 <= slot < self.names@.len() ==> #[trigger] self.tally_agrees(slot)
        &&& self.issued == self@.issued()
        &&& self.successful == successes(outcomes(self.history@))
        &&& self.failed == failures(outcomes(self.history@))
        &&& self.timed_out == timeouts(outcomes(self.history@))
        &&& self.samples@ == durations(outcomes(self.history@))
    }

    /// A board for `names`, with no query begun.
    pub fn new(names: &Vec<String>) -> (board: Board)
        ensures
            board.wf(),
            board@ == (BoardView {
                names: name_texts(names@),
                pending: None,
                history: Seq::empty(),
            }),
    {
        let ghost texts = name_texts(names@);
        let mut own: Vec<String> = Vec::new();
        let mut firsts: Vec<usize> = Vec::new();
        let mut tallies: Vec<Tally> = Vec::new();
        let mut i: usize = 0;
        while i < names.len()
            invariant
                i <= names.len(),
                texts == name_texts(names@),
                own@.len() == i,
                firsts@.len() == i,
                tallies@.len() == i,
                forall|k: int| 0 <= k < i ==> (#[trigger] own@[k])@ == texts[k],
                forall|k: int| 0 <= k < i ==> (#[trigger] firsts@[k]) == first_of(texts, k),
                forall|k: int|
                    0 <= k < i ==> (#[trigger] tallies@[k]).name@ == texts[k] && tallies@[k].total
                        == 0 && tallies@[k].successful == 0 && tallies@[k].failed == 0
                        && tallies@[k].samples@ == Seq::<u64>::empty(),
            decreases names.len() - i,
        {
            let mut first: usize = i;
            let mut found = false;
            let mut j: usize = 0;
            while j < i
                invariant
                    j <= i,
                    i < names.len(),
                    texts == name_texts(names@),
                    found ==> first < j && first == find(texts.subrange(0, j as int), texts[i as int]),
                    !found ==> first == i && find(texts.subrange(0, j as int), texts[i as int]) < 0,
                decreases i - j,
            {
                proof {
                    let next = texts.subrange(0, j + 1);
                    assert(next.drop_last() =~= texts.subrange(0, j as int));
                    assert(next.last() == texts[j as int]);
                    assert(texts[j as int] == names@[j as int]@);
                    assert(texts[i as int] == names@[i as int]@);
                }
                if !found && names[j] == names[i] {
                    first = j;
                    found = true;
                }
                j = j + 1;
            }
            own.push(names[i].clone());
            firsts.push(first);
            tallies.push(
                Tally {
                    name: names[i].clone(),
                    total: 0,
                    successful: 0,
                    failed: 0,
                    samples: Vec::new(),
                },
            );
            i = i + 1;
        }
        let board = Board {
            names: own,
            firsts,
            tallies,
            pending: None,
            issued: 0,
            successful: 0,
            failed: 0,
            timed_out: 0,
            samples: Vec::new(),
            history: Ghost(Seq::empty()),
        };
        proof {
            assert(name_texts(board.names@) =~= texts);
            assert(outcomes(board.history@) =~= Seq::<QueryOutcome>::empty());
            assert forall|slot: int| 0 <= slot < board.names@.len() implies #[trigger] board.tally_agrees(
                slot,
            ) by {}
        }
        board
    }

    /// How many names there are.
    pub fn name_count(&self) -> (n: usize)
        ensures
            n == self@.names.len(),
    {
        self.names.len()
    }

    /// The name at `index`.
    pub fn name(&self, index: usize) -> (name: &str)
        requires
            index < self@.names.len(),
        ensures
            name@ == self@.names[index as int],
    {
        self.names[index].as_str()
    }

    /// Whether a query can begin: there is a name, none is under way, and
    /// the queries can still be counted.
    pub fn can_begin(&self) -> (b: bool)
        requires
            self.wf(),
        ensures
            b == (self@.names.len() > 0 && self@.pending is None && self@.issued() < u64::MAX),
    {
        self.names.len() > 0 && self.pending.is_none() && self.issued < u64::MAX
    }

    /// Begins a query for the next name in turn, and returns its index.
    pub fn begin(&mut self) -> (index: usize)
        requires
            old(self).wf(),
            old(self)@.names.len() > 0,
            old(self)@.pending is None,
            old(self)@.issued() < u64::MAX,
        ensures
            final(self).wf(),
            final(self)@ == old(self)@.begin(),
            final(self)@.pending == Some(index as int),
            index < old(self)@.names.len(),
    {
        let index = (self.issued % (self.names.len() as u64)) as usize;
        let slot = self.firsts[index];
        proof {
            lemma_first_of(self@.names, index as int);
            lemma_outcomes_of_len(self.history@, self@.names, slot as int);
            assert(self.tally_agrees(slot as int));
        }
        let ghost before = *self;
        let mut tally = self.tallies.remove(slot);
        tally.total = tally.total + 1;
        self.tallies.insert(slot, tally);
        self.pending = Some(index);
        self.issued = self.issued + 1;
        proof {
            assert(self@.names == before@.names);
            assert forall|s: int| 0 <= s < self.names@.len() implies #[trigger] self.tally_agrees(
                s,
            ) by {
                assert(before.tally_agrees(s));
                if s != slot {
                    assert(self.tallies@[s] == before.tallies@[s]);
                }
            }
        }
        index
    }

    /// Records how the query under way ended.
    pub fn settle(&mut self, outcome: QueryOutcome)
        requires
            old(self).wf(),
            old(self)@.pending is Some,
        ensures
            final(self).wf(),
            final(self)@ == old(self)@.settle(outcome),
    {
        let index = match self.pending {
            Some(i) => i,
            None => 0,
        };
        let slot = self.firsts[index];
        let ghost before = *self;
        let ghost entry = Settled { index: index as int, outcome };
        let ghost h0 = self.history@;
        let ghost h1 = h0.push(entry);
        proof {
            lemma_first_of(self@.names, index as int);
            assert(before.tally_agrees(slot as int));
            assert(h1.drop_last() =~= h0);
            assert(outcomes(h1) =~= outcomes(h0).push(outcome));
            assert(outcomes(h1).drop_last() =~= outcomes(h0));
            lemma_outcomes_partition(outcomes(h0));
            lemma_outcomes_partition(outcomes_of(h0, self@.names, slot as int));
            lemma_outcomes_of_len(h0, self@.names, slot as int);
            let sh0 = outcomes_of(h0, self@.names, slot as int);
            assert(sh0.push(outcome).drop_last() =~= sh0);
        }
        let mut tally = self.tallies.remove(slot);
        match outcome {
            QueryOutcome::Success(d) => {
                self.successful = self.successful + 1;
                self.samples.push(d);
                tally.successful = tally.successful + 1;
                tally.samples.push(d);
            },
            QueryOutcome::Failed => {
                self.failed = self.failed + 1;
                tally.failed = tally.failed + 1;
            },
            QueryOutcome::TimedOut => {
                self.timed_out = self.timed_out + 1;
                tally.failed = tally.failed + 1;
            },
        }
        self.tallies.insert(slot, tally);
        self.pending = None;
        self.history = Ghost(h1);
        proof {
            assert(self@.names == before@.names);
            assert forall|s: int| 0 <= s < self.names@.len() implies #[trigger] self.tally_agrees(
                s,
            ) by {
                assert(before.tally_agrees(s));
                if s != slot {
                    assert(self.tallies@[s] == before.tallies@[s]);
                }
            }
            assert forall|k: int| 0 <= k < h1.len() implies 0 <= (#[trigger] h1[k]).index
                < self@.names.len() && h1[k].index == k % (self@.names.len() as int) by {
                if k < h0.len() {
                    assert(h1[k] == h0[k]);
                }
            }
        }
    }

    /// How many queries have begun.
    pub fn issued(&self) -> (n: u64)
        requires
            self.wf(),
        ensures
            n == self@.issued(),
    {
        self.issued
    }

    /// How many queries succeeded.
    pub fn successful(&self) -> (n: u64)
        requires
            self.wf(),
        ensures
            n == successes(outcomes(self@.history)),
    {
        self.successful
    }

    /// How many queries failed otherwise than by a timeout.
    pub fn failed(&self) -> (n: u64)
        requires
            self.wf(),
        ensures
            n == failures(outcomes(self@.history)),
    {
        self.failed
    }

    /// How many queries timed out.
    pub fn timed_out(&self) -> (n: u64)
        requires
            self.wf(),
        ensures
            n == timeouts(outcomes(self@.history)),
    {
        self.timed_out
    }

    /// The duration of each query that succeeded, in order.
    pub fn samples(&self) -> (s: &Vec<u64>)
        requires
            self.wf(),
        ensures
            s@ == durations(outcomes(self@.history)),
    {
        &self.samples
    }

    /// Whether the name at `index` occurs there for the first time, so that
    /// a tally is kept at `index`.
    pub fn is_first(&self, index: usize) -> (b: bool)
        requires
            self.wf(),
            index < self@.names.len(),
        ensures
            b == (first_of(self@.names, index as int) == index),
    {
        self.firsts[index] == index
    }

    /// The tally of the name that first occurs at `slot`.
    pub fn tally(&self, slot: usize) -> (tally: &Tally)
        requires
            self.wf(),
            slot < self@.names.len(),
        ensures
            tally.name@ == self@.names[slot as int],
            tally.total == self@.issued_for(slot as int),
            tally.successful == successes(outcomes_of(self@.history, self@.names, slot as int)),
            tally.failed == failures(outcomes_of(self@.history, self@.names, slot as int))
                + timeouts(outcomes_of(self@.history, self@.names, slot as int)),
            tally.samples@ == durations(outcomes_of(self@.history, self@.names, slot as int)),
    {
        assert(self.tally_agrees(slot as int));
        &self.tallies[slot]
    }
}

/// The indices below `n` at which a name occurs for the first time, in
/// ascending order: one for each distinct name.
pub open spec fn live_slots(names: Seq<Seq<char>>, n: int) -> Seq<int>
    decreases n,
{
    if n <= 0 {
        Seq::empty()
    } else if first_of(names, n - 1) == n - 1 {
        live_slots(names, n - 1).push(n - 1)
    } else {
        live_slots(names, n - 1)
    }
}

/// What a run of rounds waits for.
#[derive(Clone, Copy, Debug, PartialEq, Eq, Structural)]
pub enum Awaiting {
    /// The next tick of the interval.
    Tick,
    /// The end of the query under way.
    Query,
    /// Nothing: the run is over.
    Done,
}

/// What happened, with the time at which it was seen.
#[derive(Clone, Copy, Debug, PartialEq, Eq, Structural)]
pub enum RoundEvent {
    /// The interval ticked.
    Ticked { now: u64 },
    /// The query under way ended.
    Settled { now: u64, outcome: QueryOutcome },
}

impl RoundEvent {
    /// The time at which the event was seen.
    pub open spec fn now(self) -> u64 {
        match self {
            RoundEvent::Ticked { now } => now,
            RoundEvent::Settled { now, .. } => now,
        }
    }
}

/// What the caller does next.
#[derive(Clone, Copy, Debug, PartialEq, Eq, Structural)]
pub enum RoundAction {
    /// Wait for the next tick of the interval, the first of which comes at
    /// once; report `Ticked`.
    WaitTick,
    /// Make the query for the name at `index`; report `Settled`.
    Query { index: usize },
    /// The run is over: take the result.
    Finish,
}

/// The mathematical value of a run of rounds.
pub struct RoundsView {
    pub board: BoardView,
    pub duration_sec: u64,
    pub awaiting: Awaiting,
    /// The latest time seen.
    pub clock: u64,
}

impl RoundsView {
    /// Whether the time `t` lies before the deadline of the run.
    pub open spec fn before_deadline(self, t: u64) -> bool {
        lies_before(t, self.duration_sec)
    }

    /// What holds of every run: a query is under way exactly while the run
    /// waits for its end.
    pub open spec fn wf(self) -> bool {
        &&& self.board.wf()
        &&& self.board.pending is Some <==> self.awaiting == Awaiting::Query
        &&& self.awaiting != Awaiting::Done ==> self.board.names.len() > 0
    }

    /// Whether a run that waits as `self` does can be told of `event`.
    pub open spec fn expects(self, event: RoundEvent) -> bool {
        match self.awaiting {
            Awaiting::Tick => event is Ticked,
            Awaiting::Query => event is Settled,
            Awaiting::Done => false,
        }
    }

    /// The run waits for the next tick, unless the deadline has come.
    pub open spec fn next_round(self, t: u64) -> (RoundsView, RoundAction) {
        if self.before_deadline(t) {
            (RoundsView { awaiting: Awaiting::Tick, clock: t, ..self }, RoundAction::WaitTick)
        } else {
            (RoundsView { awaiting: Awaiting::Done, clock: t, ..self }, RoundAction::Finish)
        }
    }

    /// The first step of a run: with no name to query the run is over at
    /// once, with nothing counted.
    pub open spec fn begin(self) -> (RoundsView, RoundAction) {
        if self.board.names.len() == 0 {
            (RoundsView { awaiting: Awaiting::Done, ..self }, RoundAction::Finish)
        } else {
            self.next_round(self.clock)
        }
    }

    /// The transition of a run that is told of `event`. Time never runs
    /// backwards: an event dated before the latest time seen counts as seen
    /// at that time.
    pub open spec fn step(self, event: RoundEvent) -> (RoundsView, RoundAction) {
        let t = no_earlier(self.clock, event.now());
        match (self.awaiting, event) {
            (Awaiting::Tick, RoundEvent::Ticked { .. }) => if self.board.issued() < u64::MAX {
                (
                    RoundsView {
                        board: self.board.begin(),
                        awaiting: Awaiting::Query,
                        clock: t,
                        ..self
                    },
                    RoundAction::Query { index: self.board.begin().pending->0 as usize },
                )
            } else {
                (RoundsView { awaiting: Awaiting::Done, clock: t, ..self }, RoundAction::Finish)
            },
            (Awaiting::Query, RoundEvent::Settled { outcome, .. }) => RoundsView {
                board: self.board.settle(outcome),
                ..self
            }.next_round(t),
            _ => (self, RoundAction::Finish),
        }
    }
}

/// The counters of the queries agree: once no query is under way, those
/// that succeeded, those that failed and those that timed out are all the
/// queries that were begun.
pub proof fn lemma_counters_agree(board: BoardView)
    requires
        board.pending is None,
    ensures
        successes(outcomes(board.history)) + failures(outcomes(board.history)) + timeouts(
            outcomes(board.history),
        ) == board.issued(),
{
    lemma_outcomes_partition(outcomes(board.history));
}

/// With no name to query a run is over at its first step, and nothing has
/// been counted.
pub proof fn lemma_no_names_no_queries(run: RoundsView)
    requires
        run.board.names.len() == 0,
        run.board.history.len() == 0,
        run.board.pending is None,
    ensures
        run.begin().1 == RoundAction::Finish,
        run.begin().0.awaiting == Awaiting::Done,
        run.begin().0.board.issued() == 0,
        successes(outcomes(run.begin().0.board.history)) == 0,
        failures(outcomes(run.begin().0.board.history)) == 0,
        timeouts(outcomes(run.begin().0.board.history)) == 0,
{
    assert(outcomes(run.board.history) =~= Seq::<QueryOutcome>::empty());
}

/// Every step keeps what holds of every run.
pub proof fn lemma_step_keeps_wf(run: RoundsView, event: RoundEvent)
    requires
        run.wf(),
        run.expects(event),
    ensures
        run.step(event).0.wf(),
{
    let next = run.step(event).0;
    match (run.awaiting, event) {
        (Awaiting::Query, RoundEvent::Settled { outcome, .. }) => {
            let h0 = run.board.history;
            let h1 = next.board.history;
            assert forall|k: int| 0 <= k < h1.len() implies 0 <= (#[trigger] h1[k]).index
                < next.board.names.len() && h1[k].index == k % (next.board.names.len() as int) by {
                if k < h0.len() {
                    assert(h1[k] == h0[k]);
                }
            }
        },
        _ => {},
    }
}

/// A run of rounds.
pub struct Rounds {
    board: Board,
    duration_sec: u64,
    awaiting: Awaiting,
    clock: u64,
}

impl View for Rounds {
    type V = RoundsView;

    closed spec fn view(&self) -> RoundsView {
        RoundsView {
            board: self.board@,
            duration_sec: self.duration_sec,
            awaiting: self.awaiting,
            clock: self.clock,
        }
    }
}

impl Rounds {
    /// What holds of every run.
    pub closed spec fn wf(&self) -> bool {
        &&& self@.wf()
        &&& self.board.wf()
    }

    /// What holds of every run holds of its value.
    pub proof fn lemma_wf(&self)
        requires
            self.wf(),
        ensures
            self@.wf(),
    {
    }

    /// The board of the run.
    pub closed spec fn spec_board(&self) -> Board {
        self.board
    }

    /// Starts a run over `names` that lasts `duration_sec` seconds, at time
    /// zero of the caller's clock, and says what to do first.
    pub fn start(names: &Vec<String>, duration_sec: u64) -> (r: (Rounds, RoundAction))
        ensures
            r.0.wf(),
            (r.0@, r.1) == (RoundsView {
                board: BoardView {
                    names: name_texts(names@),
                    pending: None,
                    history: Seq::empty(),
                },
                duration_sec,
                awaiting: Awaiting::Done,
                clock: 0,
            }).begin(),
    {
        let mut run = Rounds {
            board: Board::new(names),
            duration_sec,
            awaiting: Awaiting::Done,
            clock: 0,
        };
        if run.board.name_count() == 0 {
            (run, RoundAction::Finish)
        } else {
            let action = run.next_round(0);
            (run, action)
        }
    }

    /// Whether the time `t` lies before the deadline.
    fn before_deadline(&self, t: u64) -> (b: bool)
        ensures
            b == self@.before_deadline(t),
    {
        is_before(t, self.duration_sec)
    }

    /// Waits for the next tick, or ends the run.
    fn next_round(&mut self, t: u64) -> (action: RoundAction)
        requires
            old(self).board.wf(),
            old(self)@.board.pending is None,
            old(self)@.board.names.len() > 0,
        ensures
            final(self).wf(),
            (final(self)@, action) == old(self)@.next_round(t),
    {
        if self.before_deadline(t) {
            self.awaiting = Awaiting::Tick;
            self.clock = t;
            RoundAction::WaitTick
        } else {
            self.awaiting = Awaiting::Done;
            self.clock = t;
            RoundAction::Finish
        }
    }

    /// What the run waits for.
    pub fn awaiting(&self) -> (a: Awaiting)
        ensures
            a == self@.awaiting,
    {
        self.awaiting
    }

    /// The latest time seen.
    pub fn clock(&self) -> (t: u64)
        ensures
            t == self@.clock,
    {
        self.clock
    }

    /// The board of the run.
    pub fn board(&self) -> (b: &Board)
        requires
            self.wf(),
        ensures
            b.wf(),
            b@ == self@.board,
            *b == self.spec_board(),
    {
        &self.board
    }

    /// Whether the run can be told of `event` now.
    pub fn accepts(&self, event: &RoundEvent) -> (b: bool)
        ensures
            b == self@.expects(*event),
    {
        match self.awaiting {
            Awaiting::Tick => match event {
                RoundEvent::Ticked { .. } => true,
                _ => false,
            },
            Awaiting::Query => match event {
                RoundEvent::Settled { .. } => true,
                _ => false,
            },
            Awaiting::Done => false,
        }
    }

    /// Asks again, at time `now`, whether a run that waits for a tick goes
    /// on: it does unless the deadline has come.
    pub fn resume(&mut self, now: u64) -> (action: RoundAction)
        requires
            old(self).wf(),
            old(self)@.awaiting == Awaiting::Tick,
        ensures
            final(self).wf(),
            (final(self)@, action) == old(self)@.next_round(no_earlier(old(self)@.clock, now)),
    {
        let t = advance(self.clock, now);
        self.next_round(t)
    }

    /// Ends, at time `now`, a run that waits for a tick.
    pub fn stop(&mut self, now: u64)
        requires
            old(self).wf(),
            old(self)@.awaiting == Awaiting::Tick,
        ensures
            final(self).wf(),
            final(self)@ == (RoundsView {
                awaiting: Awaiting::Done,
                clock: no_earlier(old(self)@.clock, now),
                ..old(self)@
            }),
    {
        self.clock = advance(self.clock, now);
        self.awaiting = Awaiting::Done;
    }

    /// Takes the report of what happened, and says what to do next.
    ///
    /// The report must be one that the run waits for.
    pub fn step(&mut self, event: RoundEvent) -> (action: RoundAction)
        requires
            old(self).wf(),
            old(self)@.expects(event),
        ensures
            final(self).wf(),
            (final(self)@, action) == old(self)@.step(event),
            action matches RoundAction::Query { index } ==> index < final(self)@.board.names.len(),
    {
        match event {
            RoundEvent::Ticked { now } => {
                let t = advance(self.clock, now);
                self.clock = t;
                if self.board.can_begin() {
                    let index = self.board.begin();
                    self.awaiting = Awaiting::Query;
                    RoundAction::Query { index }
                } else {
                    self.awaiting = Awaiting::Done;
                    RoundAction::Finish
                }
            },
            RoundEvent::Settled { now, outcome } => {
                let t = advance(self.clock, now);
                self.board.settle(outcome);
                self.next_round(t)
            },
        }
    }
}

} // verus!
