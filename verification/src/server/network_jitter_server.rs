//! The jitter service: every `PING` line is answered `PONG`.

use crate::probes::network_jitter::ping_wire;
use crate::server::lines::lemma_trim_end_line_feed;
use crate::server::lines::lemma_trim_end_stops;
use crate::server::lines::lemma_trim_start_stops;
use crate::server::lines::same_bytes;
use crate::server::lines::trim;
use crate::server::lines::trimmed;
use vstd::prelude::*;

verus! {

/// The bytes of `PING`.
pub open spec fn ping() -> Seq<u8> {
    seq![80u8, 73u8, 78u8, 71u8]
}

/// The bytes of `PONG` and a line feed.
pub open spec fn pong_line() -> Seq<u8> {
    seq![80u8, 79u8, 78u8, 71u8, 10u8]
}

/// The answer to a line: `PONG` and a line feed where the line, white
/// space at its ends cut, is `PING`; none for any other line.
pub open spec fn answer_to(line: Seq<u8>) -> Option<Seq<u8>> {
    if trimmed(line) == ping() {
        Some(pong_line())
    } else {
        None
    }
}

/// The answer to one line that a client sent.
pub fn handle_line(line: &[u8]) -> (answer: Option<Vec<u8>>)
    ensures
        match answer {
            Some(bytes) => answer_to(line@) == Some(bytes@),
            None => answer_to(line@) is None,
        },
{
    let (start, end) = trim(line);
    let text = vstd::slice::slice_subrange(line, start, end);
    let word: [u8; 4] = [80, 73, 78, 71];
    assert(word@ =~= ping());
    if same_bytes(text, word.as_slice()) {
        let mut bytes: Vec<u8> = Vec::new();
        bytes.push(80);
        bytes.push(79);
        bytes.push(78);
        bytes.push(71);
        bytes.push(10);
        assert(bytes@ =~= pong_line());
        Some(bytes)
    } else {
        None
    }
}


/// The ping of the jitter probe is answered: `PING` and a line feed get
/// `PONG` and a line feed.
pub proof fn lemma_ping_is_answered()
    ensures
        answer_to(ping_wire()) == Some(pong_line()),
{
    let line = ping_wire();
    lemma_trim_start_stops(line);
    assert(line =~= ping().push(10u8));
    lemma_trim_end_line_feed(ping());
    lemma_trim_end_stops(ping());
}

} // verus!
