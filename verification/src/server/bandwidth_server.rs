//! The bandwidth service: it streams as many bytes as a GET asks for, and
//! acknowledges every POST.

use crate::decimal::append_decimal;
use crate::decimal::ascii_bytes;
use crate::decimal::decimal_digits;
use crate::probes::bandwidth::ends_with_blank_line;
use crate::probes::bandwidth::occurs_at;
use crate::probes::bandwidth::response_intact;
use crate::server::lines::has_prefix;
use crate::server::lines::is_ascii_space;
use crate::server::lines::is_space;
use crate::server::lines::starts_with;
use crate::server::lines::trim;
use crate::server::lines::trimmed;
use vstd::prelude::*;

verus! {

/// Bytes read of one request at most.
pub const REQUEST_BUFFER: usize = 1024;

/// The size that a stream has where the request names none that can be read.
pub const DEFAULT_STREAM_SIZE: usize = 1024;

/// What a request asks for.
#[derive(Debug, Clone, Copy, PartialEq, Eq, Structural)]
pub enum Request {
    /// `GET /stream-bytes/<N>`: a stream of this many bytes.
    StreamBytes(usize),
    /// `POST /post`: an upload.
    Post,
    /// An empty request line: nothing is answered.
    Empty,
    /// Anything else.
    Unknown,
}

/// The bytes of `GET /stream-bytes/`.
pub open spec fn get_prefix() -> Seq<u8> {
    ascii_bytes("GET /stream-bytes/"@)
}

/// The bytes of `POST /post`.
pub open spec fn post_prefix() -> Seq<u8> {
    ascii_bytes("POST /post"@)
}

/// The length of the first line of `request`, without its line end.
pub open spec fn first_line_len(request: Seq<u8>) -> nat
    decreases request.len(),
{
    if request.len() == 0 || request[0] == 10 {
        0
    } else {
        1 + first_line_len(request.skip(1))
    }
}

/// The first line of `request`, without its line feed and without a
/// carriage return before that.
pub open spec fn first_line(request: Seq<u8>) -> Seq<u8> {
    let n = first_line_len(request) as int;
    if n > 0 && n < request.len() && request[n - 1] == 13 {
        request.take(n - 1)
    } else {
        request.take(n)
    }
}

/// The first word of `s`: what stands between the white space at its start
/// and the next white space.
pub open spec fn first_word(s: Seq<u8>) -> Seq<u8>
    decreases s.len(),
{
    if s.len() == 0 {
        s
    } else if is_space(s[0]) {
        first_word(s.skip(1))
    } else {
        s.take(word_len(s) as int)
    }
}

/// How many bytes stand at the start of `s` before any white space.
pub open spec fn word_len(s: Seq<u8>) -> nat
    decreases s.len(),
{
    if s.len() == 0 || is_space(s[0]) {
        0
    } else {
        1 + word_len(s.skip(1))
    }
}

/// Whether every byte of `s` is a digit.
pub open spec fn all_digit_bytes(s: Seq<u8>) -> bool {
    forall|i: int| 0 <= i < s.len() ==> 48 <= #[trigger] s[i] <= 57
}

/// The number that the digit bytes `s` write.
pub open spec fn digits_value(s: Seq<u8>) -> int
    decreases s.len(),
{
    if s.len() == 0 {
        0
    } else {
        digits_value(s.drop_last()) * 10 + (s.last() - 48)
    }
}

/// The part of a number behind its optional `+`.
pub open spec fn unsigned_part(word: Seq<u8>) -> Seq<u8> {
    if word.len() > 0 && word[0] == 43 {
        word.skip(1)
    } else {
        word
    }
}

/// The number that the word `word` names: its value where it is an
/// optional `+` and digits that write a number that fits, else `default`.
pub open spec fn number_or(word: Seq<u8>, default: usize) -> usize {
    let digits = unsigned_part(word);
    if digits.len() > 0 && all_digit_bytes(digits) && digits_value(digits) <= usize::MAX {
        digits_value(digits) as usize
    } else {
        default
    }
}

/// The size that the word `word` names, or the default size.
pub open spec fn stream_size(word: Seq<u8>) -> usize {
    number_or(word, DEFAULT_STREAM_SIZE)
}

/// The lower-case form of an ASCII letter; any other byte as it is.
pub open spec fn lower(b: u8) -> u8 {
    if 65 <= b && b <= 90 {
        (b + 32) as u8
    } else {
        b
    }
}

/// The bytes of `content-length:`.
pub open spec fn length_header() -> Seq<u8> {
    ascii_bytes("content-length:"@)
}

/// Whether `line` is a Content-Length header, in whatever case.
pub open spec fn is_length_line(line: Seq<u8>) -> bool {
    line.len() >= length_header().len() && forall|i: int|
        0 <= i < length_header().len() ==> lower(#[trigger] line[i]) == length_header()[i]
}

/// The content length that `request` announces: the number behind the
/// first Content-Length header among its lines, white space around it cut;
/// zero where there is no such header or no number behind it.
pub open spec fn content_length_of(request: Seq<u8>) -> usize
    decreases request.len(),
{
    let n = first_line_len(request) as int;
    let line = first_line(request);
    if is_length_line(line) {
        number_or(trimmed(line.skip(length_header().len() as int)), 0)
    } else if n >= request.len() {
        0
    } else {
        content_length_of(request.skip(n + 1))
    }
}

/// What `request` asks for, by its first line.
pub open spec fn request_meaning(request: Seq<u8>) -> Request {
    let line = first_line(request);
    if starts_with(line, get_prefix()) {
        Request::StreamBytes(stream_size(first_word(line.skip(get_prefix().len() as int))))
    } else if starts_with(line, post_prefix()) {
        Request::Post
    } else if line.len() == 0 {
        Request::Empty
    } else {
        Request::Unknown
    }
}

/// The head of the response to a stream request of `size` bytes.
pub open spec fn stream_head(size: usize) -> Seq<u8> {
    ascii_bytes("HTTP/1.1 200 OK\r\nContent-Length: "@) + ascii_bytes(
        decimal_digits(size as nat),
    ) + ascii_bytes("\r\nConnection: keep-alive\r\n\r\n"@)
}

/// The body of a stream of `size` bytes: byte `i` is `i` modulo 256.
pub open spec fn stream_body(size: usize) -> Seq<u8> {
    Seq::new(size as nat, |i: int| (i % 256) as u8)
}

/// The response to `request`: head and body of a stream, the
/// acknowledgement of an upload, or a refusal; nothing for an empty line.
pub open spec fn response_to(request: Request) -> Option<Seq<u8>> {
    match request {
        Request::StreamBytes(size) => Some(stream_head(size) + stream_body(size)),
        Request::Post => Some(
            ascii_bytes(
                "HTTP/1.1 200 OK\r\nContent-Length: 0\r\nConnection: keep-alive\r\n\r\n"@,
            ),
        ),
        Request::Empty => None,
        Request::Unknown => Some(
            ascii_bytes("HTTP/1.1 404 Not Found\r\nContent-Length: 0\r\n\r\n"@),
        ),
    }
}

/// The first line ends at the first line feed, or at the end.
pub proof fn lemma_first_line_len(request: Seq<u8>, d: int)
    requires
        0 <= d <= request.len(),
        forall|k: int| 0 <= k < d ==> request[k] != 10,
        d == request.len() || request[d] == 10,
    ensures
        first_line_len(request) == d,
    decreases d,
{
    if d > 0 {
        let rest = request.skip(1);
        assert forall|k: int| 0 <= k < d - 1 implies rest[k] != 10 by {
            assert(rest[k] == request[k + 1]);
        }
        lemma_first_line_len(rest, d - 1);
    }
}

/// A word ends at the first white space, or at the end.
pub proof fn lemma_word_len(s: Seq<u8>, d: int)
    requires
        0 <= d <= s.len(),
        forall|k: int| 0 <= k < d ==> !is_space(s[k]),
        d == s.len() || is_space(s[d]),
    ensures
        word_len(s) == d,
    decreases d,
{
    if d > 0 {
        let rest = s.skip(1);
        assert forall|k: int| 0 <= k < d - 1 implies !is_space(rest[k]) by {
            assert(rest[k] == s[k + 1]);
        }
        lemma_word_len(rest, d - 1);
    }
}

/// A prefix of a run of digits writes no more than the whole run.
pub proof fn lemma_digits_prefix(s: Seq<u8>, k: int)
    requires
        all_digit_bytes(s),
        0 <= k <= s.len(),
    ensures
        0 <= digits_value(s.take(k)) <= digits_value(s),
    decreases s.len() - k,
{
    lemma_digits_nonnegative(s.take(k));
    if k < s.len() {
        lemma_digits_prefix(s, k + 1);
        let next = s.take(k + 1);
        assert(next.drop_last() =~= s.take(k));
        assert(next.last() == s[k]);
    } else {
        assert(s.take(k) =~= s);
    }
}

/// A run of digits writes a number that is not negative.
pub proof fn lemma_digits_nonnegative(s: Seq<u8>)
    requires
        all_digit_bytes(s),
    ensures
        digits_value(s) >= 0,
    decreases s.len(),
{
    if s.len() > 0 {
        assert(48 <= s[s.len() - 1]);
        lemma_digits_nonnegative(s.drop_last());
    }
}

/// The number that `word` names, or `default`.
fn parse_number(word: &[u8], default: usize) -> (size: usize)
    ensures
        size == number_or(word@, default),
{
    let n = word.len();
    let start: usize = if n > 0 && word[0] == 43 {
        1
    } else {
        0
    };
    let ghost digits = unsigned_part(word@);
    assert(digits =~= word@.skip(start as int));
    if start == n {
        return default;
    }
    let mut value: usize = 0;
    let mut i: usize = start;
    assert(digits.take(0) =~= Seq::<u8>::empty());
    while i < n
        invariant
            start <= i <= n,
            n == word@.len(),
            digits == unsigned_part(word@),
            digits =~= word@.skip(start as int),
            all_digit_bytes(digits.take(i - start)),
            value == digits_value(digits.take(i - start)),
        decreases n - i,
    {
        let b = word[i];
        let ghost k = i - start;
        assert(digits[k] == b);
        if b < 48 || b > 57 {
            return default;
        }
        let d = (b - 48) as usize;
        proof {
            let next = digits.take(k + 1);
            assert(next.drop_last() =~= digits.take(k));
            assert(next.last() == b);
            assert forall|j: int| 0 <= j < next.len() implies 48 <= #[trigger] next[j] <= 57 by {
                if j < k {
                    assert(digits.take(k)[j] == next[j]);
                }
            }
        }
        if value > (usize::MAX - d) / 10 {
            proof {
                if all_digit_bytes(digits) {
                    lemma_digits_prefix(digits, k + 1);
                }
            }
            return default;
        }
        value = value * 10 + d;
        i = i + 1;
    }
    assert(digits.take(n - start) =~= digits);
    value
}

/// Reads what `request` asks for.
pub fn parse_request(request: &[u8]) -> (r: Request)
    ensures
        r == request_meaning(request@),
{
    let n = request.len();
    let mut end: usize = 0;
    while end < n && request[end] != 10
        invariant
            end <= n,
            n == request@.len(),
            forall|k: int| 0 <= k < end ==> request@[k] != 10,
        decreases n - end,
    {
        end = end + 1;
    }
    proof {
        lemma_first_line_len(request@, end as int);
    }
    let line_end = if end > 0 && end < n && request[end - 1] == 13 {
        end - 1
    } else {
        end
    };
    let line = vstd::slice::slice_subrange(request, 0, line_end);
    assert(line@ =~= first_line(request@));
    proof {
        reveal_strlit("GET /stream-bytes/");
        reveal_strlit("POST /post");
    }
    let get = "GET /stream-bytes/";
    let post = "POST /post";
    let mut get_bytes: Vec<u8> = Vec::new();
    crate::decimal::append_ascii(&mut get_bytes, get);
    let mut post_bytes: Vec<u8> = Vec::new();
    crate::decimal::append_ascii(&mut post_bytes, post);
    assert(get_bytes@ =~= get_prefix());
    assert(post_bytes@ =~= post_prefix());
    if has_prefix(line, get_bytes.as_slice()) {
        let rest = vstd::slice::slice_subrange(line, get_bytes.len(), line.len());
        assert(rest@ =~= line@.skip(get_prefix().len() as int));
        let m = rest.len();
        let mut from: usize = 0;
        assert(rest@.skip(0) =~= rest@);
        while from < m && is_ascii_space(rest[from])
            invariant
                from <= m,
                m == rest@.len(),
                first_word(rest@) == first_word(rest@.skip(from as int)),
            decreases m - from,
        {
            proof {
                let tail = rest@.skip(from as int);
                assert(tail[0] == rest@[from as int]);
                assert(tail.skip(1) =~= rest@.skip(from + 1));
            }
            from = from + 1;
        }
        let ghost tail = rest@.skip(from as int);
        let mut to: usize = from;
        while to < m && !is_ascii_space(rest[to])
            invariant
                from <= to <= m,
                m == rest@.len(),
                forall|k: int| from <= k < to ==> !is_space(rest@[k]),
            decreases m - to,
        {
            to = to + 1;
        }
        proof {
            assert forall|k: int| 0 <= k < to - from implies !is_space(tail[k]) by {
                assert(tail[k] == rest@[from + k]);
            }
            if to < m {
                assert(tail[to - from] == rest@[to as int]);
            }
            lemma_word_len(tail, to - from);
            if from < m {
                assert(tail[0] == rest@[from as int]);
            }
        }
        let word = vstd::slice::slice_subrange(rest, from, to);
        assert(word@ =~= first_word(rest@));
        Request::StreamBytes(parse_number(word, DEFAULT_STREAM_SIZE))
    } else if has_prefix(line, post_bytes.as_slice()) {
        Request::Post
    } else if line.len() == 0 {
        Request::Empty
    } else {
        Request::Unknown
    }
}

/// Whether `line` is a Content-Length header, in whatever case.
fn is_content_length_line(line: &[u8]) -> (r: bool)
    ensures
        r == is_length_line(line@),
{
    proof {
        reveal_strlit("content-length:");
    }
    let mut header: Vec<u8> = Vec::new();
    crate::decimal::append_ascii(&mut header, "content-length:");
    assert(header@ =~= length_header());
    if line.len() < header.len() {
        return false;
    }
    let mut i: usize = 0;
    while i < header.len()
        invariant
            i <= header@.len() <= line@.len(),
            header@ == length_header(),
            forall|k: int| 0 <= k < i ==> lower(#[trigger] line@[k]) == header@[k],
        decreases header@.len() - i,
    {
        let b = line[i];
        let folded = if 65 <= b && b <= 90 {
            b + 32
        } else {
            b
        };
        if folded != header[i] {
            assert(lower(line@[i as int]) != length_header()[i as int]);
            return false;
        }
        i = i + 1;
    }
    true
}

/// The content length that `request` announces.
pub fn content_length(request: &[u8]) -> (length: usize)
    ensures
        length == content_length_of(request@),
{
    let n = request.len();
    let mut start: usize = 0;
    assert(request@.skip(0) =~= request@);
    while start < n
        invariant
            start <= n,
            n == request@.len(),
            content_length_of(request@) == content_length_of(request@.skip(start as int)),
        decreases n - start,
    {
        let ghost rest = request@.skip(start as int);
        let mut end: usize = start;
        while end < n && request[end] != 10
            invariant
                start <= end <= n,
                n == request@.len(),
                forall|k: int| start <= k < end ==> request@[k] != 10,
            decreases n - end,
        {
            end = end + 1;
        }
        proof {
            assert forall|k: int| 0 <= k < end - start implies rest[k] != 10 by {
                assert(rest[k] == request@[start + k]);
            }
            if end < n {
                assert(rest[end - start] == request@[end as int]);
            }
            lemma_first_line_len(rest, end - start);
        }
        let line_end = if end > start && end < n && request[end - 1] == 13 {
            end - 1
        } else {
            end
        };
        let line = vstd::slice::slice_subrange(request, start, line_end);
        proof {
            if end > start {
                assert(rest[end - start - 1] == request@[end - 1]);
            }
            assert(line@ =~= first_line(rest));
        }
        if is_content_length_line(line) {
            proof {
                reveal_strlit("content-length:");
                assert(length_header().len() == 15);
            }
            let value = vstd::slice::slice_subrange(line, 15, line.len());
            assert(value@ =~= line@.skip(15));
            let (from, to) = trim(value);
            return parse_number(vstd::slice::slice_subrange(value, from, to), 0);
        }
        if end >= n {
            return 0;
        }
        proof {
            assert(rest.skip(end - start + 1) =~= request@.skip(end + 1));
        }
        start = end + 1;
    }
    proof {
        let rest = request@.skip(start as int);
        assert(rest.len() == 0);
        assert(first_line_len(rest) == 0);
        assert(first_line(rest) =~= Seq::<u8>::empty());
        reveal_strlit("content-length:");
        assert(length_header().len() == 15);
    }
    0
}

/// The body of a stream of `size` bytes.
pub fn generate_stream_body(size: usize) -> (body: Vec<u8>)
    ensures
        body@ == stream_body(size),
{
    let mut body: Vec<u8> = Vec::new();
    let mut i: usize = 0;
    while i < size
        invariant
            i <= size,
            body@.len() == i,
            forall|k: int| 0 <= k < i ==> body@[k] == (k % 256) as u8,
        decreases size - i,
    {
        body.push((i % 256) as u8);
        i = i + 1;
    }
    assert(body@ =~= stream_body(size));
    body
}

/// The response to `request`, if it gets one.
pub fn respond(request: Request) -> (response: Option<Vec<u8>>)
    ensures
        match response {
            Some(bytes) => response_to(request) == Some(bytes@),
            None => response_to(request) is None,
        },
{
    proof {
        reveal_strlit("HTTP/1.1 200 OK\r\nContent-Length: ");
        reveal_strlit("\r\nConnection: keep-alive\r\n\r\n");
        reveal_strlit("HTTP/1.1 200 OK\r\nContent-Length: 0\r\nConnection: keep-alive\r\n\r\n");
        reveal_strlit("HTTP/1.1 404 Not Found\r\nContent-Length: 0\r\n\r\n");
    }
    match request {
        Request::StreamBytes(size) => {
            let mut bytes: Vec<u8> = Vec::new();
            crate::decimal::append_ascii(&mut bytes, "HTTP/1.1 200 OK\r\nContent-Length: ");
            append_decimal(&mut bytes, size as u64);
            crate::decimal::append_ascii(&mut bytes, "\r\nConnection: keep-alive\r\n\r\n");
            let body = generate_stream_body(size);
            crate::socks5::append_bytes(&mut bytes, body.as_slice());
            Some(bytes)
        },
        Request::Post => {
            let mut bytes: Vec<u8> = Vec::new();
            crate::decimal::append_ascii(
                &mut bytes,
                "HTTP/1.1 200 OK\r\nContent-Length: 0\r\nConnection: keep-alive\r\n\r\n",
            );
            Some(bytes)
        },
        Request::Empty => None,
        Request::Unknown => {
            let mut bytes: Vec<u8> = Vec::new();
            crate::decimal::append_ascii(
                &mut bytes,
                "HTTP/1.1 404 Not Found\r\nContent-Length: 0\r\n\r\n",
            );
            Some(bytes)
        },
    }
}

/// The response to the bytes of one request, if it gets one.
pub fn handle_request(request: &[u8]) -> (response: Option<Vec<u8>>)
    ensures
        match response {
            Some(bytes) => response_to(request_meaning(request@)) == Some(bytes@),
            None => response_to(request_meaning(request@)) is None,
        },
{
    respond(parse_request(request))
}


/// The acknowledgement of an upload is a response that the bandwidth probe
/// takes for complete and intact: it ends with an empty line, and it holds
/// `HTTP/` and `200 OK`.
pub proof fn lemma_acknowledgement_is_intact()
    ensures
        response_to(Request::Post) matches Some(response) && ends_with_blank_line(response)
            && response_intact(response),
{
    reveal_strlit("HTTP/1.1 200 OK\r\nContent-Length: 0\r\nConnection: keep-alive\r\n\r\n");
    reveal_strlit("HTTP/");
    reveal_strlit("200 OK");
    let response = response_to(Request::Post)->0;
    let protocol = "HTTP/"@;
    let status = "200 OK"@;
    assert(vstd::utf8::is_ascii_chars(protocol));
    assert(vstd::utf8::is_ascii_chars(status));
    vstd::utf8::is_ascii_chars_encode_utf8(protocol);
    vstd::utf8::is_ascii_chars_encode_utf8(status);
    assert(response.subrange(0, 5) =~= vstd::utf8::encode_utf8(protocol));
    assert(occurs_at(response, vstd::utf8::encode_utf8(protocol), 0));
    assert(response.subrange(9, 15) =~= vstd::utf8::encode_utf8(status));
    assert(occurs_at(response, vstd::utf8::encode_utf8(status), 9));
    assert(response.subrange(response.len() - 4, response.len() as int) =~= seq![
        13u8,
        10u8,
        13u8,
        10u8,
    ]);
}

} // verus!
