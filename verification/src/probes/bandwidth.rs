//! The bandwidth probe: upload a chunk, download the answer, sample both
//! speeds, and reconnect when the tunnel fails.

use crate::clock::advance;
use crate::clock::is_before;
use crate::clock::lies_before;
use crate::clock::no_earlier;
use crate::clock::NANOS_PER_SEC;
use crate::decimal::decimal_digits;
use crate::decimal::format_decimal;
use crate::error::NetworkTestError;
use crate::socks5::rightmost_colon;
use crate::stats::average;
use crate::stats::mean;
use rand::Rng;
use vstd::prelude::*;
use vstd::string::StrSliceExecFns;
use vstd::string::StringExecFns;
use vstd::utf8::encode_utf8;

verus! {

/// Milliseconds between two rounds.
pub const ROUND_DELAY_MILLIS: u64 = 100;

/// Bytes asked for in one read of the response.
pub const READ_CHUNK: usize = 4096;

/// Seconds that one read of the response may take.
pub const READ_TIMEOUT_SECS: u64 = 5;

/// `rand::rngs::ThreadRng` of rand: the generator of random numbers of the
/// calling thread, handed on unread.
#[verifier::external_type_specification]
#[verifier::external_body]
pub struct ExThreadRng(rand::rngs::ThreadRng);

/// `rand::thread_rng`: hands out the calling thread's generator. Nothing
/// is claimed of it. The call fails where the generator cannot be seeded
/// because the operating system gives no random bytes.
pub assume_specification[ rand::thread_rng ]() -> rand::rngs::ThreadRng;

/// `Rng::gen::<u8>` of rand: the next random byte. Any byte may come. The
/// call fails where the generator is due for new seed and the operating
/// system gives none.
#[verifier::external_body]
fn random_byte(rng: &mut rand::rngs::ThreadRng) -> u8 {
    rng.gen::<u8>()
}

/// The settings of one bandwidth probe.
#[derive(Debug, Clone)]
pub struct BandwidthTest {
    proxy_addr: String,
    target_addr: String,
    chunk_size: usize,
    test_duration_sec: u64,
}

/// One measured transfer.
#[derive(Debug, Clone, Copy, PartialEq, Eq, Structural)]
pub struct SpeedSample {
    /// When the transfer began.
    pub timestamp: u64,
    /// Bytes per second, rounded down; see [`bytes_per_second`].
    pub bytes_per_second: u64,
    /// Bytes transferred.
    pub chunk_size: usize,
    /// Nanoseconds that the transfer took.
    pub duration: u64,
}

/// What a bandwidth probe found.
#[derive(Debug, Clone)]
pub struct BandwidthResult {
    pub test_duration_sec: u64,
    pub total_bytes_sent: u128,
    pub total_bytes_received: u128,
    /// The mean of the upload samples' speeds.
    pub average_upload_speed: u64,
    /// The mean of the download samples' speeds.
    pub average_download_speed: u64,
    pub upload_samples: Vec<SpeedSample>,
    pub download_samples: Vec<SpeedSample>,
    pub connection_interruptions: u64,
    pub data_integrity_errors: u64,
}

/// The speed of `bytes` bytes in `nanos` nanoseconds, in bytes per second,
/// rounded down and no more than the greatest `u64`. A transfer that took
/// no measurable time has speed zero.
pub open spec fn bytes_per_second(bytes: int, nanos: int) -> int {
    if nanos <= 0 {
        0
    } else if bytes * NANOS_PER_SEC / nanos > u64::MAX {
        u64::MAX as int
    } else {
        bytes * NANOS_PER_SEC / nanos
    }
}

/// The sample of a transfer of `bytes` bytes that began at `timestamp` and
/// took `duration` nanoseconds.
pub open spec fn sample_of(timestamp: u64, bytes: usize, duration: u64) -> SpeedSample {
    SpeedSample {
        timestamp,
        bytes_per_second: bytes_per_second(bytes as int, duration as int) as u64,
        chunk_size: bytes,
        duration,
    }
}

/// The speeds of the samples.
pub open spec fn speeds(samples: Seq<SpeedSample>) -> Seq<u64> {
    Seq::new(samples.len(), |i: int| samples[i].bytes_per_second)
}

/// The bytes of the samples, summed.
pub open spec fn bytes_moved(samples: Seq<SpeedSample>) -> int
    decreases samples.len(),
{
    if samples.len() == 0 {
        0
    } else {
        bytes_moved(samples.drop_last()) + samples.last().chunk_size
    }
}

/// Whether `needle` occurs in `hay`.
pub open spec fn occurs_in(hay: Seq<u8>, needle: Seq<u8>) -> bool {
    exists|i: int| occurs_at(hay, needle, i)
}

/// Whether `needle` occurs in `hay` at index `i`.
pub open spec fn occurs_at(hay: Seq<u8>, needle: Seq<u8>, i: int) -> bool {
    0 <= i && i + needle.len() <= hay.len() && hay.subrange(i, i + needle.len()) == needle
}

/// Whether `response` ends with an empty line: CR LF CR LF.
pub open spec fn ends_with_blank_line(response: Seq<u8>) -> bool {
    response.len() >= 4 && response.subrange(response.len() - 4, response.len() as int) == seq![
        13u8,
        10u8,
        13u8,
        10u8,
    ]
}

/// Whether the download of a round is complete: the response ends with an
/// empty line, or twice the chunk size has been read.
pub open spec fn download_complete(response: Seq<u8>, chunk_size: usize) -> bool {
    ends_with_blank_line(response) || response.len() >= 2 * chunk_size
}

/// Whether a response passes for intact: it holds `HTTP/` and one of the
/// status lines `200 OK`, `201 Created`, `204 No Content`.
pub open spec fn response_intact(response: Seq<u8>) -> bool {
    occurs_in(response, encode_utf8("HTTP/"@)) && (occurs_in(response, encode_utf8("200 OK"@))
        || occurs_in(response, encode_utf8("201 Created"@)) || occurs_in(
        response,
        encode_utf8("204 No Content"@),
    ))
}

/// The host part of an address: what stands before the rightmost colon, or
/// all of it where there is no colon.
pub open spec fn host_of(addr: Seq<char>) -> Seq<char> {
    if rightmost_colon(addr) < 0 {
        addr
    } else {
        addr.subrange(0, rightmost_colon(addr))
    }
}

/// The text of the request that opens a stream of `chunk_size` bytes.
pub open spec fn stream_request_text(chunk_size: usize, host: Seq<char>) -> Seq<char> {
    "GET /stream-bytes/"@ + decimal_digits(chunk_size as nat) + " HTTP/1.1\r\nHost: "@ + host
        + "\r\nConnection: keep-alive\r\nUser-Agent: NetworkStabilityTest/1.0\r\n\r\n"@
}

/// The text of the head of an upload of `length` bytes.
pub open spec fn upload_head_text(length: usize, host: Seq<char>) -> Seq<char> {
    "POST /post HTTP/1.1\r\nHost: "@ + host + "\r\nContent-Length: "@ + decimal_digits(
        length as nat,
    ) + "\r\nConnection: keep-alive\r\n\r\n"@
}

/// Whether `needle` occurs in `hay`.
pub fn contains_bytes(hay: &[u8], needle: &[u8]) -> (r: bool)
    ensures
        r == occurs_in(hay@, needle@),
{
    if needle.len() > hay.len() {
        assert(forall|i: int| !occurs_at(hay@, needle@, i));
        return false;
    }
    let last = hay.len() - needle.len();
    let mut i: usize = 0;
    while i <= last
        invariant
            i <= last + 1,
            last == hay.len() - needle.len(),
            forall|k: int| 0 <= k < i ==> !occurs_at(hay@, needle@, k),
        decreases last + 1 - i,
    {
        let mut j: usize = 0;
        while j < needle.len() && hay[i + j] == needle[j]
            invariant
                j <= needle.len(),
                i <= last,
                last == hay.len() - needle.len(),
                forall|k: int| 0 <= k < j ==> hay@[i + k] == needle@[k],
            decreases needle.len() - j,
        {
            j = j + 1;
        }
        if j == needle.len() {
            assert(hay@.subrange(i as int, i + needle.len()) =~= needle@);
            assert(occurs_at(hay@, needle@, i as int));
            return true;
        }
        assert(!occurs_at(hay@, needle@, i as int)) by {
            if occurs_at(hay@, needle@, i as int) {
                assert(hay@.subrange(i as int, i + needle.len())[j as int] == needle@[j as int]);
            }
        }
        i = i + 1;
    }
    assert(forall|k: int| !occurs_at(hay@, needle@, k));
    false
}

/// Whether a response passes for intact.
pub fn verify_response_integrity(response: &[u8]) -> (r: bool)
    ensures
        r == response_intact(response@),
{
    contains_bytes(response, "HTTP/".as_bytes()) && (contains_bytes(response, "200 OK".as_bytes())
        || contains_bytes(response, "201 Created".as_bytes()) || contains_bytes(
        response,
        "204 No Content".as_bytes(),
    ))
}

/// Whether the download of a round is complete.
pub fn is_download_complete(response: &[u8], chunk_size: usize) -> (r: bool)
    ensures
        r == download_complete(response@, chunk_size),
{
    let n = response.len();
    let ends = n >= 4 && response[n - 4] == 13 && response[n - 3] == 10 && response[n - 2] == 13
        && response[n - 1] == 10;
    proof {
        if n >= 4 {
            let tail = response@.subrange(n - 4, n as int);
            if ends {
                assert(tail =~= seq![13u8, 10u8, 13u8, 10u8]);
            } else {
                assert(tail[0] == response@[n - 4] && tail[1] == response@[n - 3] && tail[2]
                    == response@[n - 2] && tail[3] == response@[n - 1]);
            }
        }
    }
    ends || (n as u128) >= 2 * (chunk_size as u128)
}

/// The speed of `bytes` bytes in `nanos` nanoseconds.
pub fn speed(bytes: usize, nanos: u64) -> (r: u64)
    ensures
        r == bytes_per_second(bytes as int, nanos as int),
{
    if nanos == 0 {
        return 0;
    }
    let scaled = (bytes as u128) * (NANOS_PER_SEC as u128);
    let per_second = scaled / (nanos as u128);
    if per_second > u64::MAX as u128 {
        u64::MAX
    } else {
        per_second as u64
    }
}

/// The mean of the samples' speeds; zero for no samples.
pub fn calculate_average_speed(samples: &Vec<SpeedSample>) -> (r: u64)
    ensures
        r == mean(speeds(samples@)),
{
    let mut values: Vec<u64> = Vec::new();
    let mut i: usize = 0;
    while i < samples.len()
        invariant
            i <= samples.len(),
            values@ == speeds(samples@.subrange(0, i as int)),
        decreases samples.len() - i,
    {
        values.push(samples[i].bytes_per_second);
        i = i + 1;
        assert(values@ =~= speeds(samples@.subrange(0, i as int)));
    }
    assert(samples@.subrange(0, i as int) =~= samples@);
    average(values.as_slice())
}

/// The host part of an address.
pub fn get_host_from_addr(addr: &str) -> (host: &str)
    ensures
        host@ == host_of(addr@),
{
    let n: usize = addr.unicode_len();
    let mut colon: Option<usize> = None;
    let mut i: usize = 0;
    for c in it: addr.chars()
        invariant
            it.seq() == addr@,
            n == addr@.len(),
            i == it.index(),
            match colon {
                Some(at) => at < i && rightmost_colon(addr@.subrange(0, i as int)) == at,
                None => rightmost_colon(addr@.subrange(0, i as int)) == -1,
            },
    {
        proof {
            let next = addr@.subrange(0, i + 1);
            assert(next.drop_last() =~= addr@.subrange(0, i as int));
            assert(next.last() == c);
        }
        if c == ':' {
            colon = Some(i);
        }
        i = i + 1;
    }
    assert(addr@.subrange(0, i as int) =~= addr@);
    match colon {
        Some(at) => addr.substring_char(0, at),
        None => addr,
    }
}

/// The request that opens a stream of `chunk_size` bytes from `host`.
pub fn create_http_request(chunk_size: usize, host: &str) -> (r: String)
    ensures
        r@ == stream_request_text(chunk_size, host@),
{
    let mut r = String::from_str("GET /stream-bytes/");
    r.append(format_decimal(chunk_size as u64).as_str());
    r.append(" HTTP/1.1\r\nHost: ");
    r.append(host);
    r.append("\r\nConnection: keep-alive\r\nUser-Agent: NetworkStabilityTest/1.0\r\n\r\n");
    r
}

/// The head of an upload of `length` bytes to `host`.
pub fn create_upload_head(length: usize, host: &str) -> (r: String)
    ensures
        r@ == upload_head_text(length, host@),
{
    let mut r = String::from_str("POST /post HTTP/1.1\r\nHost: ");
    r.append(host);
    r.append("\r\nContent-Length: ");
    r.append(format_decimal(length as u64).as_str());
    r.append("\r\nConnection: keep-alive\r\n\r\n");
    r
}

/// A chunk of `chunk_size` random bytes.
pub fn generate_test_data(chunk_size: usize) -> (data: Vec<u8>)
    ensures
        data@.len() == chunk_size,
{
    let mut rng = rand::thread_rng();
    let mut data: Vec<u8> = Vec::new();
    let mut i: usize = 0;
    while i < chunk_size
        invariant
            i <= chunk_size,
            data@.len() == i,
        decreases chunk_size - i,
    {
        data.push(random_byte(&mut rng));
        i = i + 1;
    }
    data
}

/// What a run waits for.
#[derive(Clone, Copy, Debug, PartialEq, Eq, Structural)]
pub enum Awaiting {
    /// The outcome of the first CONNECT.
    InitialConnect,
    /// The outcome of writing the first stream request.
    InitialRequest,
    /// The outcome of writing an upload.
    Upload,
    /// The outcome of one read of the response.
    Download,
    /// The end of the pause between two rounds.
    Pause,
    /// The outcome of a CONNECT after an interruption.
    Reconnect,
    /// The outcome of writing the stream request after a reconnection.
    ReconnectRequest,
    /// Nothing: the run is over.
    Done,
}

/// What happened, with the time at which it was seen.
pub enum BandwidthEvent {
    /// The CONNECT succeeded.
    Connected { now: u64 },
    /// The CONNECT failed.
    ConnectFailed { now: u64, error: NetworkTestError },
    /// All bytes were written.
    Written { now: u64 },
    /// Writing failed.
    WriteFailed { now: u64, error: NetworkTestError },
    /// A read returned these bytes, at least one.
    Received { now: u64, data: Vec<u8> },
    /// A read returned no bytes, or its deadline ran out.
    ReadEnded { now: u64 },
    /// A read failed.
    ReadFailed { now: u64 },
    /// The pause is over.
    Elapsed { now: u64 },
}

/// The kind of a [`BandwidthEvent`], with what the transition reads of it.
pub enum BandwidthEventView {
    Connected { now: u64 },
    ConnectFailed { now: u64 },
    Written { now: u64 },
    WriteFailed { now: u64 },
    Received { now: u64, data: Seq<u8> },
    ReadEnded { now: u64 },
    ReadFailed { now: u64 },
    Elapsed { now: u64 },
}

impl View for BandwidthEvent {
    type V = BandwidthEventView;

    open spec fn view(&self) -> BandwidthEventView {
        match self {
            BandwidthEvent::Connected { now } => BandwidthEventView::Connected { now: *now },
            BandwidthEvent::ConnectFailed { now, .. } => BandwidthEventView::ConnectFailed {
                now: *now,
            },
            BandwidthEvent::Written { now } => BandwidthEventView::Written { now: *now },
            BandwidthEvent::WriteFailed { now, .. } => BandwidthEventView::WriteFailed {
                now: *now,
            },
            BandwidthEvent::Received { now, data } => BandwidthEventView::Received {
                now: *now,
                data: data@,
            },
            BandwidthEvent::ReadEnded { now } => BandwidthEventView::ReadEnded { now: *now },
            BandwidthEvent::ReadFailed { now } => BandwidthEventView::ReadFailed { now: *now },
            BandwidthEvent::Elapsed { now } => BandwidthEventView::Elapsed { now: *now },
        }
    }
}

impl BandwidthEventView {
    /// The time at which the event was seen.
    pub open spec fn now(self) -> u64 {
        match self {
            BandwidthEventView::Connected { now } => now,
            BandwidthEventView::ConnectFailed { now } => now,
            BandwidthEventView::Written { now } => now,
            BandwidthEventView::WriteFailed { now } => now,
            BandwidthEventView::Received { now, .. } => now,
            BandwidthEventView::ReadEnded { now } => now,
            BandwidthEventView::ReadFailed { now } => now,
            BandwidthEventView::Elapsed { now } => now,
        }
    }
}

/// What the caller does next.
pub enum BandwidthAction {
    /// Open a tunnel to the target; report `Connected` or `ConnectFailed`.
    Connect,
    /// Write the stream request; report `Written` or `WriteFailed`.
    Request { bytes: Vec<u8> },
    /// Write `head`, then `body`; report `Written` or `WriteFailed`.
    Upload { head: Vec<u8>, body: Vec<u8> },
    /// Read up to [`READ_CHUNK`] bytes within [`READ_TIMEOUT_SECS`]; report
    /// `Received`, `ReadEnded` or `ReadFailed`.
    Read,
    /// Sleep; report `Elapsed`.
    Wait { millis: u64 },
    /// The run is over: take the result.
    Finish,
    /// The probe failed before its first round, with the error reported.
    Abort(NetworkTestError),
}

/// The mathematical value of a [`BandwidthAction`]. The body of an upload
/// is random: only its length is its value.
pub enum BandwidthActionView {
    Connect,
    Request { bytes: Seq<u8> },
    Upload { head: Seq<u8>, length: nat },
    Read,
    Wait { millis: u64 },
    Finish,
    Abort,
}

impl View for BandwidthAction {
    type V = BandwidthActionView;

    open spec fn view(&self) -> BandwidthActionView {
        match self {
            BandwidthAction::Connect => BandwidthActionView::Connect,
            BandwidthAction::Request { bytes } => BandwidthActionView::Request { bytes: bytes@ },
            BandwidthAction::Upload { head, body } => BandwidthActionView::Upload {
                head: head@,
                length: body@.len(),
            },
            BandwidthAction::Read => BandwidthActionView::Read,
            BandwidthAction::Wait { millis } => BandwidthActionView::Wait { millis: *millis },
            BandwidthAction::Finish => BandwidthActionView::Finish,
            BandwidthAction::Abort(_) => BandwidthActionView::Abort,
        }
    }
}

/// The mathematical value of a run.
pub struct BandwidthRunView {
    pub chunk_size: usize,
    pub duration_sec: u64,
    /// The host part of the target's address.
    pub host: Seq<char>,
    pub awaiting: Awaiting,
    /// The latest time seen.
    pub clock: u64,
    /// When the transfer under way began.
    pub started: u64,
    /// What has been read of the response of the round under way.
    pub response: Seq<u8>,
    pub uploads: Seq<SpeedSample>,
    pub downloads: Seq<SpeedSample>,
    pub interruptions: u64,
    pub integrity_errors: u64,
}

impl BandwidthRunView {
    /// Whether the time `t` lies before the deadline of the run.
    pub open spec fn before_deadline(self, t: u64) -> bool {
        lies_before(t, self.duration_sec)
    }

    /// What holds of every run: no more responses were found damaged than
    /// were downloaded, and the transfer under way began no later than the
    /// latest time seen.
    pub open spec fn wf(self) -> bool {
        &&& self.integrity_errors <= self.downloads.len()
        &&& self.started <= self.clock
    }

    /// Whether a run that waits as `self` does can be told of `event`.
    pub open spec fn expects(self, event: BandwidthEventView) -> bool {
        match self.awaiting {
            Awaiting::InitialConnect | Awaiting::Reconnect => event is Connected
                || event is ConnectFailed,
            Awaiting::InitialRequest | Awaiting::ReconnectRequest | Awaiting::Upload => event
                is Written || event is WriteFailed,
            Awaiting::Download => event is Received || event is ReadEnded || event is ReadFailed,
            Awaiting::Pause => event is Elapsed,
            Awaiting::Done => false,
        }
    }

    /// The run moves on to wait as `awaiting` says, at time `t`.
    pub open spec fn at(self, awaiting: Awaiting, t: u64) -> BandwidthRunView {
        BandwidthRunView { awaiting, clock: t, ..self }
    }

    /// The stream request goes out.
    pub open spec fn request(self, awaiting: Awaiting, t: u64) -> (
        BandwidthRunView,
        BandwidthActionView,
    ) {
        (
            self.at(awaiting, t),
            BandwidthActionView::Request {
                bytes: encode_utf8(stream_request_text(self.chunk_size, self.host)),
            },
        )
    }

    /// The run ends.
    pub open spec fn finish(self, t: u64) -> (BandwidthRunView, BandwidthActionView) {
        (self.at(Awaiting::Done, t), BandwidthActionView::Finish)
    }

    /// The run pauses before its next round.
    pub open spec fn pause(self, t: u64) -> (BandwidthRunView, BandwidthActionView) {
        (self.at(Awaiting::Pause, t), BandwidthActionView::Wait { millis: ROUND_DELAY_MILLIS })
    }

    /// A round begins with its upload, unless the deadline has come.
    pub open spec fn begin_round(self, t: u64) -> (BandwidthRunView, BandwidthActionView) {
        if self.before_deadline(t) {
            (
                BandwidthRunView { started: t, ..self.at(Awaiting::Upload, t) },
                BandwidthActionView::Upload {
                    head: encode_utf8(upload_head_text(self.chunk_size, self.host)),
                    length: self.chunk_size as nat,
                },
            )
        } else {
            self.finish(t)
        }
    }

    /// The tunnel failed in the middle of a round: one more interruption is
    /// counted, as far as 64 bits count, and a reconnection is attempted.
    pub open spec fn interrupted(self, t: u64) -> (BandwidthRunView, BandwidthActionView) {
        (
            BandwidthRunView {
                interruptions: if self.interruptions < u64::MAX {
                    (self.interruptions + 1) as u64
                } else {
                    self.interruptions
                },
                ..self.at(Awaiting::Reconnect, t)
            },
            BandwidthActionView::Connect,
        )
    }

    /// The download of the round ends with `response`: it is sampled,
    /// whatever it holds, and counted as damaged unless it passes for intact.
    pub open spec fn complete_round(self, response: Seq<u8>, t: u64) -> (
        BandwidthRunView,
        BandwidthActionView,
    ) {
        BandwidthRunView {
            response,
            downloads: self.downloads.push(
                sample_of(self.started, response.len() as usize, (t - self.started) as u64),
            ),
            integrity_errors: if response_intact(response) {
                self.integrity_errors
            } else {
                (self.integrity_errors + 1) as u64
            },
            ..self
        }.pause(t)
    }

    /// The transition of a run that is told of `event`. Time never runs
    /// backwards: an event dated before the latest time seen counts as seen
    /// at that time.
    pub open spec fn step(self, event: BandwidthEventView) -> (
        BandwidthRunView,
        BandwidthActionView,
    ) {
        let t = no_earlier(self.clock, event.now());
        match (self.awaiting, event) {
            (Awaiting::InitialConnect, BandwidthEventView::Connected { .. }) => self.request(
                Awaiting::InitialRequest,
                t,
            ),
            (Awaiting::InitialConnect, BandwidthEventView::ConnectFailed { .. }) => (
                self.at(Awaiting::Done, t),
                BandwidthActionView::Abort,
            ),
            (Awaiting::InitialRequest, BandwidthEventView::Written { .. }) => self.begin_round(t),
            (Awaiting::InitialRequest, BandwidthEventView::WriteFailed { .. }) => (
                self.at(Awaiting::Done, t),
                BandwidthActionView::Abort,
            ),
            (Awaiting::Upload, BandwidthEventView::Written { .. }) => (
                BandwidthRunView {
                    uploads: self.uploads.push(
                        sample_of(self.started, self.chunk_size, (t - self.started) as u64),
                    ),
                    started: t,
                    response: Seq::empty(),
                    ..self.at(Awaiting::Download, t)
                },
                BandwidthActionView::Read,
            ),
            (Awaiting::Upload, BandwidthEventView::WriteFailed { .. }) => self.interrupted(t),
            (Awaiting::Download, BandwidthEventView::Received { data, .. }) => if download_complete(
                self.response + data,
                self.chunk_size,
            ) {
                self.complete_round(self.response + data, t)
            } else {
                (
                    BandwidthRunView {
                        response: self.response + data,
                        ..self.at(Awaiting::Download, t)
                    },
                    BandwidthActionView::Read,
                )
            },
            (Awaiting::Download, BandwidthEventView::ReadEnded { .. }) => self.complete_round(
                self.response,
                t,
            ),
            (Awaiting::Download, BandwidthEventView::ReadFailed { .. }) => self.interrupted(t),
            (Awaiting::Reconnect, BandwidthEventView::Connected { .. }) => self.request(
                Awaiting::ReconnectRequest,
                t,
            ),
            (Awaiting::Reconnect, BandwidthEventView::ConnectFailed { .. }) => self.finish(t),
            (Awaiting::ReconnectRequest, BandwidthEventView::Written { .. }) => self.pause(t),
            (Awaiting::ReconnectRequest, BandwidthEventView::WriteFailed { .. }) => self.finish(t),
            (Awaiting::Pause, BandwidthEventView::Elapsed { .. }) => self.begin_round(t),
            _ => (self, BandwidthActionView::Finish),
        }
    }
}

/// A round whose response does not pass for intact still leaves its
/// download sample, with all the bytes that came, and counts one more
/// damaged response.
pub proof fn lemma_damaged_round_is_sampled(run: BandwidthRunView, response: Seq<u8>, t: u64)
    requires
        run.wf(),
        !response_intact(response),
        t >= run.clock,
        response.len() <= usize::MAX,
        run.downloads.len() < usize::MAX,
    ensures
        ({
            let next = run.complete_round(response, t).0;
            &&& next.downloads.len() == run.downloads.len() + 1
            &&& next.downloads.last().chunk_size == response.len()
            &&& next.integrity_errors == run.integrity_errors + 1
            &&& next.wf()
        }),
{
}

impl BandwidthTest {
    /// A probe of `target_addr` through the proxy at `proxy_addr`, in
    /// chunks of `chunk_size` bytes for `test_duration_sec` seconds.
    pub fn new(proxy_addr: &str, target_addr: &str, chunk_size: usize, test_duration_sec: u64) -> (t:
        BandwidthTest)
        ensures
            t.spec_proxy_addr() == proxy_addr@,
            t.spec_target_addr() == target_addr@,
            t.spec_chunk_size() == chunk_size,
            t.spec_test_duration_sec() == test_duration_sec,
    {
        BandwidthTest {
            proxy_addr: String::from_str(proxy_addr),
            target_addr: String::from_str(target_addr),
            chunk_size,
            test_duration_sec,
        }
    }

    /// The proxy's address, as text.
    pub closed spec fn spec_proxy_addr(&self) -> Seq<char> {
        self.proxy_addr@
    }

    /// The target's address, as text.
    pub closed spec fn spec_target_addr(&self) -> Seq<char> {
        self.target_addr@
    }

    /// Bytes per chunk.
    pub closed spec fn spec_chunk_size(&self) -> usize {
        self.chunk_size
    }

    /// Seconds that the probe lasts.
    pub closed spec fn spec_test_duration_sec(&self) -> u64 {
        self.test_duration_sec
    }

    /// The proxy's address, as text.
    pub fn proxy_addr(&self) -> (a: &str)
        ensures
            a@ == self.spec_proxy_addr(),
    {
        self.proxy_addr.as_str()
    }

    /// The target's address, as text.
    pub fn target_addr(&self) -> (a: &str)
        ensures
            a@ == self.spec_target_addr(),
    {
        self.target_addr.as_str()
    }

    /// Bytes per chunk.
    pub fn chunk_size(&self) -> (n: usize)
        ensures
            n == self.spec_chunk_size(),
    {
        self.chunk_size
    }

    /// Seconds that the probe lasts.
    pub fn test_duration_sec(&self) -> (s: u64)
        ensures
            s == self.spec_test_duration_sec(),
    {
        self.test_duration_sec
    }

    /// Starts a run at time zero of the caller's clock. The first action is
    /// the first CONNECT.
    pub fn start(&self) -> (r: (BandwidthRun, BandwidthAction))
        ensures
            r.0.wf(),
            r.0@ == (BandwidthRunView {
                chunk_size: self.spec_chunk_size(),
                duration_sec: self.spec_test_duration_sec(),
                host: host_of(self.spec_target_addr()),
                awaiting: Awaiting::InitialConnect,
                clock: 0,
                started: 0,
                response: Seq::empty(),
                uploads: Seq::empty(),
                downloads: Seq::empty(),
                interruptions: 0,
                integrity_errors: 0,
            }),
            r.1@ == BandwidthActionView::Connect,
    {
        let run = BandwidthRun {
            chunk_size: self.chunk_size,
            duration_sec: self.test_duration_sec,
            host: String::from_str(get_host_from_addr(self.target_addr.as_str())),
            awaiting: Awaiting::InitialConnect,
            clock: 0,
            started: 0,
            response: Vec::new(),
            uploads: Vec::new(),
            downloads: Vec::new(),
            sent: 0,
            received: 0,
            interruptions: 0,
            integrity_errors: 0,
        };
        (run, BandwidthAction::Connect)
    }
}

/// One run of the bandwidth probe.
pub struct BandwidthRun {
    chunk_size: usize,
    duration_sec: u64,
    host: String,
    awaiting: Awaiting,
    clock: u64,
    started: u64,
    response: Vec<u8>,
    uploads: Vec<SpeedSample>,
    downloads: Vec<SpeedSample>,
    sent: u128,
    received: u128,
    interruptions: u64,
    integrity_errors: u64,
}

impl View for BandwidthRun {
    type V = BandwidthRunView;

    closed spec fn view(&self) -> BandwidthRunView {
        BandwidthRunView {
            chunk_size: self.chunk_size,
            duration_sec: self.duration_sec,
            host: self.host@,
            awaiting: self.awaiting,
            clock: self.clock,
            started: self.started,
            response: self.response@,
            uploads: self.uploads@,
            downloads: self.downloads@,
            interruptions: self.interruptions,
            integrity_errors: self.integrity_errors,
        }
    }
}

/// The result that the samples and counters of a run make.
pub open spec fn result_of(run: BandwidthRunView, result: BandwidthResult) -> bool {
    &&& result.test_duration_sec == run.duration_sec
    &&& result.total_bytes_sent == bytes_moved(run.uploads)
    &&& result.total_bytes_received == bytes_moved(run.downloads)
    &&& result.average_upload_speed == mean(speeds(run.uploads))
    &&& result.average_download_speed == mean(speeds(run.downloads))
    &&& result.upload_samples@ == run.uploads
    &&& result.download_samples@ == run.downloads
    &&& result.connection_interruptions == run.interruptions
    &&& result.data_integrity_errors == run.integrity_errors
}

impl BandwidthRun {
    /// What holds of every run, and of how it keeps its sums.
    pub closed spec fn wf(&self) -> bool {
        &&& self@.wf()
        &&& self.sent == bytes_moved(self.uploads@)
        &&& self.sent <= self.uploads@.len() * usize::MAX
        &&& self.received == bytes_moved(self.downloads@)
        &&& self.received <= self.downloads@.len() * usize::MAX
    }

    /// What holds of every run holds of its value.
    pub proof fn lemma_wf(&self)
        requires
            self.wf(),
        ensures
            self@.wf(),
    {
    }

    /// What the run waits for.
    pub fn awaiting(&self) -> (a: Awaiting)
        ensures
            a == self@.awaiting,
    {
        self.awaiting
    }

    /// Whether the run can be told of `event` now.
    pub fn accepts(&self, event: &BandwidthEvent) -> (b: bool)
        ensures
            b == self@.expects(event@),
    {
        match self.awaiting {
            Awaiting::InitialConnect | Awaiting::Reconnect => match event {
                BandwidthEvent::Connected { .. } => true,
                BandwidthEvent::ConnectFailed { .. } => true,
                _ => false,
            },
            Awaiting::InitialRequest | Awaiting::ReconnectRequest | Awaiting::Upload => match event {
                BandwidthEvent::Written { .. } => true,
                BandwidthEvent::WriteFailed { .. } => true,
                _ => false,
            },
            Awaiting::Download => match event {
                BandwidthEvent::Received { .. } => true,
                BandwidthEvent::ReadEnded { .. } => true,
                BandwidthEvent::ReadFailed { .. } => true,
                _ => false,
            },
            Awaiting::Pause => match event {
                BandwidthEvent::Elapsed { .. } => true,
                _ => false,
            },
            Awaiting::Done => false,
        }
    }

    /// Whether the time `t` lies before the deadline.
    fn before_deadline(&self, t: u64) -> (b: bool)
        ensures
            b == self@.before_deadline(t),
    {
        is_before(t, self.duration_sec)
    }

    /// Sends the stream request.
    fn request(&mut self, awaiting: Awaiting, t: u64) -> (action: BandwidthAction)
        requires
            old(self).wf(),
            t >= old(self)@.clock,
        ensures
            final(self).wf(),
            (final(self)@, action@) == old(self)@.request(awaiting, t),
    {
        self.awaiting = awaiting;
        self.clock = t;
        let text = create_http_request(self.chunk_size, self.host.as_str());
        BandwidthAction::Request { bytes: text.as_str().as_bytes_vec() }
    }

    /// Ends the run.
    fn finish(&mut self, t: u64) -> (action: BandwidthAction)
        requires
            old(self).wf(),
            t >= old(self)@.clock,
        ensures
            final(self).wf(),
            (final(self)@, action@) == old(self)@.finish(t),
    {
        self.awaiting = Awaiting::Done;
        self.clock = t;
        BandwidthAction::Finish
    }

    /// Pauses before the next round.
    fn pause(&mut self, t: u64) -> (action: BandwidthAction)
        requires
            old(self).wf(),
            t >= old(self)@.clock,
        ensures
            final(self).wf(),
            (final(self)@, action@) == old(self)@.pause(t),
    {
        self.awaiting = Awaiting::Pause;
        self.clock = t;
        BandwidthAction::Wait { millis: ROUND_DELAY_MILLIS }
    }

    /// Begins a round, or ends the run.
    fn begin_round(&mut self, t: u64) -> (action: BandwidthAction)
        requires
            old(self).wf(),
            t >= old(self)@.clock,
        ensures
            final(self).wf(),
            (final(self)@, action@) == old(self)@.begin_round(t),
    {
        if self.before_deadline(t) {
            self.awaiting = Awaiting::Upload;
            self.clock = t;
            self.started = t;
            let head = create_upload_head(self.chunk_size, self.host.as_str());
            BandwidthAction::Upload {
                head: head.as_str().as_bytes_vec(),
                body: generate_test_data(self.chunk_size),
            }
        } else {
            self.finish(t)
        }
    }

    /// Counts an interruption and attempts a reconnection.
    fn interrupted(&mut self, t: u64) -> (action: BandwidthAction)
        requires
            old(self).wf(),
            t >= old(self)@.clock,
        ensures
            final(self).wf(),
            (final(self)@, action@) == old(self)@.interrupted(t),
    {
        if self.interruptions < u64::MAX {
            self.interruptions = self.interruptions + 1;
        }
        self.awaiting = Awaiting::Reconnect;
        self.clock = t;
        BandwidthAction::Connect
    }

    /// Takes account of an upload that was written by time `t`.
    fn record_upload(&mut self, t: u64) -> (action: BandwidthAction)
        requires
            old(self).wf(),
            t >= old(self)@.clock,
        ensures
            final(self).wf(),
            final(self)@ == (BandwidthRunView {
                uploads: old(self)@.uploads.push(
                    sample_of(
                        old(self)@.started,
                        old(self)@.chunk_size,
                        (t - old(self)@.started) as u64,
                    ),
                ),
                started: t,
                response: Seq::empty(),
                ..old(self)@.at(Awaiting::Download, t)
            }),
            action@ == BandwidthActionView::Read,
    {
        let duration = t - self.started;
        let sample = SpeedSample {
            timestamp: self.started,
            bytes_per_second: speed(self.chunk_size, duration),
            chunk_size: self.chunk_size,
            duration,
        };
        let count = self.uploads.len();
        proof {
            let before = self.uploads@;
            assert(before.push(sample).drop_last() =~= before);
            assert(count * usize::MAX + usize::MAX <= u128::MAX && (count + 1) * usize::MAX
                == count * usize::MAX + usize::MAX) by (nonlinear_arith)
                requires
                    count <= usize::MAX,
                    usize::MAX <= u64::MAX,
            ;
        }
        self.sent = self.sent + self.chunk_size as u128;
        self.uploads.push(sample);
        self.started = t;
        self.response = Vec::new();
        self.awaiting = Awaiting::Download;
        self.clock = t;
        BandwidthAction::Read
    }

    /// Ends the download of the round at time `t`.
    fn complete_round(&mut self, t: u64) -> (action: BandwidthAction)
        requires
            old(self).wf(),
            t >= old(self)@.clock,
        ensures
            final(self).wf(),
            (final(self)@, action@) == old(self)@.complete_round(old(self)@.response, t),
    {
        let duration = t - self.started;
        let bytes = self.response.len();
        let sample = SpeedSample {
            timestamp: self.started,
            bytes_per_second: speed(bytes, duration),
            chunk_size: bytes,
            duration,
        };
        let count = self.downloads.len();
        proof {
            let before = self.downloads@;
            assert(before.push(sample).drop_last() =~= before);
            assert(count * usize::MAX + usize::MAX <= u128::MAX && (count + 1) * usize::MAX
                == count * usize::MAX + usize::MAX) by (nonlinear_arith)
                requires
                    count <= usize::MAX,
                    usize::MAX <= u64::MAX,
            ;
        }
        self.received = self.received + bytes as u128;
        self.downloads.push(sample);
        let grown = self.downloads.len();
        if !verify_response_integrity(self.response.as_slice()) {
            assert(self.integrity_errors < grown);
            self.integrity_errors = self.integrity_errors + 1;
        }
        self.pause(t)
    }

    /// Takes the report of what happened, and says what to do next.
    ///
    /// The report must be one that the run waits for. An abort hands back
    /// the error that was reported.
    pub fn step(&mut self, event: BandwidthEvent) -> (action: BandwidthAction)
        requires
            old(self).wf(),
            old(self)@.expects(event@),
        ensures
            final(self).wf(),
            (final(self)@, action@) == old(self)@.step(event@),
            action matches BandwidthAction::Abort(e) ==> (event matches BandwidthEvent::ConnectFailed {
                error,
                ..
            } && e == error) || (event matches BandwidthEvent::WriteFailed { error, .. } && e
                == error),
    {
        match event {
            BandwidthEvent::Connected { now } => {
                let t = advance(self.clock, now);
                match self.awaiting {
                    Awaiting::InitialConnect => self.request(Awaiting::InitialRequest, t),
                    _ => self.request(Awaiting::ReconnectRequest, t),
                }
            },
            BandwidthEvent::ConnectFailed { now, error } => {
                let t = advance(self.clock, now);
                match self.awaiting {
                    Awaiting::InitialConnect => {
                        self.awaiting = Awaiting::Done;
                        self.clock = t;
                        BandwidthAction::Abort(error)
                    },
                    _ => self.finish(t),
                }
            },
            BandwidthEvent::Written { now } => {
                let t = advance(self.clock, now);
                match self.awaiting {
                    Awaiting::InitialRequest => self.begin_round(t),
                    Awaiting::Upload => self.record_upload(t),
                    _ => self.pause(t),
                }
            },
            BandwidthEvent::WriteFailed { now, error } => {
                let t = advance(self.clock, now);
                match self.awaiting {
                    Awaiting::InitialRequest => {
                        self.awaiting = Awaiting::Done;
                        self.clock = t;
                        BandwidthAction::Abort(error)
                    },
                    Awaiting::Upload => self.interrupted(t),
                    _ => self.finish(t),
                }
            },
            BandwidthEvent::Received { now, data } => {
                let t = advance(self.clock, now);
                crate::socks5::append_bytes(&mut self.response, data.as_slice());
                if is_download_complete(self.response.as_slice(), self.chunk_size) {
                    self.complete_round(t)
                } else {
                    self.awaiting = Awaiting::Download;
                    self.clock = t;
                    BandwidthAction::Read
                }
            },
            BandwidthEvent::ReadEnded { now } => {
                let t = advance(self.clock, now);
                self.complete_round(t)
            },
            BandwidthEvent::ReadFailed { now } => {
                let t = advance(self.clock, now);
                self.interrupted(t)
            },
            BandwidthEvent::Elapsed { now } => {
                let t = advance(self.clock, now);
                self.begin_round(t)
            },
        }
    }

    /// The result of the run as it stands. After `Finish` it is the result
    /// of the probe.
    pub fn into_result(self) -> (r: BandwidthResult)
        requires
            self.wf(),
        ensures
            result_of(self@, r),
    {
        BandwidthResult {
            test_duration_sec: self.duration_sec,
            total_bytes_sent: self.sent,
            total_bytes_received: self.received,
            average_upload_speed: calculate_average_speed(&self.uploads),
            average_download_speed: calculate_average_speed(&self.downloads),
            upload_samples: self.uploads,
            download_samples: self.downloads,
            connection_interruptions: self.interruptions,
            data_integrity_errors: self.integrity_errors,
        }
    }
}

} // verus!
