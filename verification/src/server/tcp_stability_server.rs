//! The heartbeat service: every `PING-<n>` line is answered `PONG-<n>`.

use crate::decimal::ascii_bytes;
use crate::decimal::decimal_digits;
use crate::decimal::lemma_decimal_digits;
use crate::probes::tcp_stability::heartbeat_payload;
use crate::server::lines::lemma_trim_end_line_feed;
use crate::server::lines::lemma_trim_end_stops;
use crate::server::lines::lemma_trim_start_stops;
use crate::server::lines::has_prefix;
use crate::server::lines::starts_with;
use crate::server::lines::trim;
use crate::server::lines::trimmed;
use crate::socks5::append_bytes;
use vstd::prelude::*;

verus! {

/// The bytes of `PING-`.
pub open spec fn ping_prefix() -> Seq<u8> {
    seq![80u8, 73u8, 78u8, 71u8, 45u8]
}

/// The bytes of `PONG-`.
pub open spec fn pong_prefix() -> Seq<u8> {
    seq![80u8, 79u8, 78u8, 71u8, 45u8]
}

/// The answer to a line: where the line, white space at its ends cut,
/// begins with `PING-`, the answer is `PONG-`, what followed `PING-`, and a
/// line feed. Any other line gets no answer.
pub open spec fn answer_to(line: Seq<u8>) -> Option<Seq<u8>> {
    let text = trimmed(line);
    if starts_with(text, ping_prefix()) {
        Some(pong_prefix() + text.skip(5) + seq![10u8])
    } else {
        None
    }
}

/// The answer to one line that a client sent.
pub fn handle_line(line: &[u8]) -> (answer: Option<Vec<u8>>)
    ensures
        match answer {
            Some(bytes) => answer_to(line@) == Some(bytes@),
            None => answer_to(line@) is None,
        },
{
    let (start, end) = trim(line);
    let text = vstd::slice::slice_subrange(line, start, end);
    let prefix: [u8; 5] = [80, 73, 78, 71, 45];
    assert(prefix@ =~= ping_prefix());
    if has_prefix(text, prefix.as_slice()) {
        let mut bytes: Vec<u8> = Vec::new();
        bytes.push(80);
        bytes.push(79);
        bytes.push(78);
        bytes.push(71);
        bytes.push(45);
        assert(bytes@ =~= pong_prefix());
        append_bytes(&mut bytes, vstd::slice::slice_subrange(text, 5, text.len()));
        bytes.push(10);
        assert(bytes@ =~= pong_prefix() + text@.skip(5) + seq![10u8]);
        Some(bytes)
    } else {
        None
    }
}


/// Every heartbeat of the TCP-stability probe is answered with its own
/// number: `PING-<n>` and a line feed get `PONG-<n>` and a line feed.
pub proof fn lemma_heartbeat_is_answered(sequence: u64)
    ensures
        answer_to(heartbeat_payload(sequence)) == Some(
            pong_prefix() + ascii_bytes(decimal_digits(sequence as nat)) + seq![10u8],
        ),
{
    reveal_strlit("PING-");
    let digits = ascii_bytes(decimal_digits(sequence as nat));
    let body = ascii_bytes("PING-"@) + digits;
    let line = heartbeat_payload(sequence);
    lemma_decimal_digits(sequence as nat);
    assert(ascii_bytes("PING-"@) =~= ping_prefix());
    assert(line =~= body.push(10u8));
    assert(line[0] == 80u8);
    lemma_trim_start_stops(line);
    lemma_trim_end_line_feed(body);
    let last = decimal_digits(sequence as nat).last();
    assert(crate::decimal::is_digit(last));
    assert(body.last() == last as u8);
    lemma_trim_end_stops(body);
    assert(body.take(5) =~= ping_prefix());
    assert(body.skip(5) =~= digits);
}

} // verus!
