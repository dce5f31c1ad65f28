//! The DNS service: every query is answered with one fixed A record.

use crate::probes::dns_stability::query_wire;
use crate::probes::dns_stability::response_fault;
use crate::socks5::append_bytes;
use crate::socks5::port_wire;
use crate::socks5::read_port;
use vstd::prelude::*;

verus! {

/// Bytes read of one datagram at most.
pub const DATAGRAM_BUFFER: usize = 512;

/// The bytes of a header: the length of the shortest query.
pub const HEADER_LEN: usize = 12;

/// What follows the id in the header of every response: the flags of a
/// response with recursion available, one question, one answer, no other
/// records.
pub open spec fn response_counts() -> Seq<u8> {
    seq![0x81u8, 0x80u8, 0x00u8, 0x01u8, 0x00u8, 0x01u8, 0x00u8, 0x00u8, 0x00u8, 0x00u8]
}

/// The one answer of every response: a pointer to the name of the
/// question, type A, class IN, 300 seconds to live, and the four octets of
/// 8.8.8.8.
pub open spec fn answer_record() -> Seq<u8> {
    seq![
        0xc0u8,
        0x0cu8,
        0x00u8,
        0x01u8,
        0x00u8,
        0x01u8,
        0x00u8,
        0x00u8,
        0x01u8,
        0x2cu8,
        0x00u8,
        0x04u8,
        8u8,
        8u8,
        8u8,
        8u8,
    ]
}

/// The response to the query with id `query_id` and question section
/// `question`: the id, the fixed counts, the question as it came, and the
/// answer.
pub open spec fn response_wire(query_id: u16, question: Seq<u8>) -> Seq<u8> {
    port_wire(query_id) + response_counts() + question + answer_record()
}

/// What a datagram is answered with: nothing where it is shorter than a
/// header or asks no question; else the response to its id, with all that
/// follows its header as the question.
pub open spec fn answer_to(datagram: Seq<u8>) -> Option<Seq<u8>> {
    if datagram.len() < HEADER_LEN {
        None
    } else if datagram[4] == 0 && datagram[5] == 0 {
        None
    } else {
        Some(
            response_wire(
                crate::socks5::port_from_wire(datagram[0], datagram[1]),
                datagram.skip(HEADER_LEN as int),
            ),
        )
    }
}

/// Builds the response to the query with id `query_id` and question
/// section `question`. It never fails.
pub fn create_dns_response(query_id: u16, question: &[u8]) -> (r: Result<Vec<u8>, String>)
    ensures
        r matches Ok(response) && response@ == response_wire(query_id, question@),
{
    let mut response: Vec<u8> = Vec::new();
    response.push((query_id / 256) as u8);
    response.push((query_id % 256) as u8);
    assert(response@ =~= port_wire(query_id));
    let counts: [u8; 10] = [0x81, 0x80, 0x00, 0x01, 0x00, 0x01, 0x00, 0x00, 0x00, 0x00];
    assert(counts@ =~= response_counts());
    append_bytes(&mut response, counts.as_slice());
    append_bytes(&mut response, question);
    let answer: [u8; 16] = [
        0xc0,
        0x0c,
        0x00,
        0x01,
        0x00,
        0x01,
        0x00,
        0x00,
        0x01,
        0x2c,
        0x00,
        0x04,
        8,
        8,
        8,
        8,
    ];
    assert(answer@ =~= answer_record());
    append_bytes(&mut response, answer.as_slice());
    Ok(response)
}

/// The answer to one datagram, if it gets one.
pub fn handle_datagram(datagram: &[u8]) -> (answer: Option<Vec<u8>>)
    ensures
        match answer {
            Some(bytes) => answer_to(datagram@) == Some(bytes@),
            None => answer_to(datagram@) is None,
        },
{
    if datagram.len() < HEADER_LEN {
        return None;
    }
    let query_id = read_port(datagram[0], datagram[1]);
    let questions = read_port(datagram[4], datagram[5]);
    if questions == 0 {
        return None;
    }
    let question = vstd::slice::slice_subrange(datagram, HEADER_LEN, datagram.len());
    assert(question@ =~= datagram@.skip(HEADER_LEN as int));
    match create_dns_response(query_id, question) {
        Ok(response) => Some(response),
        Err(_) => None,
    }
}


/// Every query of the DNS probe gets an answer, and every answer of this
/// service passes the probe's check: it has a header, and its response
/// code is zero.
pub proof fn lemma_answers_pass_the_check(datagram: Seq<u8>)
    requires
        answer_to(datagram) is Some,
    ensures
        response_fault(answer_to(datagram)->0, answer_to(datagram)->0.len() as int) is None,
{
    let response = answer_to(datagram)->0;
    assert(response[3] == 0x80u8);
    assert(0x80u8 & 0x0F == 0) by (bit_vector);
}

/// Every query that the DNS probe builds is one that this service answers.
pub proof fn lemma_queries_are_answered(name: Seq<u8>)
    ensures
        answer_to(query_wire(name)) is Some,
{
    let query = query_wire(name);
    assert(query.len() >= HEADER_LEN);
    assert(query[5] == 1u8);
}

} // verus!
