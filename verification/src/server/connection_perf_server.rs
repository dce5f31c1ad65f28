//! The connection service: it answers the first message of a connection
//! and is done with it.

use crate::server::lines::same_bytes;
use crate::server::lines::trim;
use crate::server::lines::trimmed;
use crate::server::network_jitter_server::ping;
use crate::server::network_jitter_server::pong_line;
use vstd::prelude::*;

verus! {

/// Bytes read of the first message at most.
pub const MESSAGE_BUFFER: usize = 64;

/// The bytes of `ERROR` and a line feed.
pub open spec fn error_line() -> Seq<u8> {
    seq![69u8, 82u8, 82u8, 79u8, 82u8, 10u8]
}

/// The bytes of `OK` and a line feed.
pub open spec fn ok_line() -> Seq<u8> {
    seq![79u8, 75u8, 10u8]
}

/// The answer to the first message: `PONG` where the message, white space
/// at its ends cut, is `PING`; `ERROR` for anything else.
pub open spec fn answer_to(message: Seq<u8>) -> Seq<u8> {
    if trimmed(message) == ping() {
        pong_line()
    } else {
        error_line()
    }
}

/// The answer to the first message of a connection.
pub fn handle_message(message: &[u8]) -> (answer: Vec<u8>)
    ensures
        answer@ == answer_to(message@),
{
    let (start, end) = trim(message);
    let text = vstd::slice::slice_subrange(message, start, end);
    let word: [u8; 4] = [80, 73, 78, 71];
    assert(word@ =~= ping());
    let mut bytes: Vec<u8> = Vec::new();
    if same_bytes(text, word.as_slice()) {
        bytes.push(80);
        bytes.push(79);
        bytes.push(78);
        bytes.push(71);
        bytes.push(10);
        assert(bytes@ =~= pong_line());
    } else {
        bytes.push(69);
        bytes.push(82);
        bytes.push(82);
        bytes.push(79);
        bytes.push(82);
        bytes.push(10);
        assert(bytes@ =~= error_line());
    }
    bytes
}

/// What a listener that reads nothing writes on accepting: `OK` and a line
/// feed.
pub fn greeting() -> (bytes: Vec<u8>)
    ensures
        bytes@ == ok_line(),
{
    let mut bytes: Vec<u8> = Vec::new();
    bytes.push(79);
    bytes.push(75);
    bytes.push(10);
    assert(bytes@ =~= ok_line());
    bytes
}

} // verus!
