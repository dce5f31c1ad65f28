use network_stable_test::server::bandwidth_server::{
    content_length, generate_stream_body, handle_request, parse_request, respond, Request,
};
use network_stable_test::server::lines::{has_prefix, same_bytes, trim};
use network_stable_test::server::{
    connection_perf_server, dns_stability_server, is_datagram_service, network_jitter_server,
    port_offset, service_port, tcp_stability_server, ServerType,
};

#[test]
fn services_listen_above_the_base_port() {
    let all = [
        ServerType::TcpStability,
        ServerType::Bandwidth,
        ServerType::ConnectionPerf,
        ServerType::DnsStability,
        ServerType::NetworkJitter,
    ];
    let offsets: Vec<u16> = all.iter().map(|s| port_offset(*s)).collect();
    assert_eq!(offsets, vec![1, 2, 3, 4, 5]);
    let ports: Vec<Option<u16>> = all.iter().map(|s| service_port(8000, *s)).collect();
    assert_eq!(ports, vec![Some(8001), Some(8002), Some(8003), Some(8004), Some(8005)]);
    assert_eq!(service_port(65534, ServerType::TcpStability), Some(65535));
    assert_eq!(service_port(65534, ServerType::Bandwidth), None);
    assert_eq!(service_port(65535, ServerType::TcpStability), None);
    let datagram: Vec<bool> = all.iter().map(|s| is_datagram_service(*s)).collect();
    assert_eq!(datagram, vec![false, false, false, true, false]);
}

#[test]
fn trimming_cuts_white_space_at_both_ends() {
    assert_eq!(trim(b"  PING \r\n"), (2, 6));
    assert_eq!(trim(b"PING"), (0, 4));
    assert_eq!(trim(b""), (0, 0));
    let (start, end) = trim(b" \t\r\n");
    assert_eq!(start, end);
    assert_eq!(trim(b"a b"), (0, 3));
    assert_eq!(trim(b"\x0b\x0cx\x0b"), (2, 3));
    assert!(has_prefix(b"PING-1", b"PING-"));
    assert!(has_prefix(b"PING-", b""));
    assert!(!has_prefix(b"PIN", b"PING-"));
    assert!(!has_prefix(b"PONG-1", b"PING-"));
    assert!(same_bytes(b"abc", b"abc"));
    assert!(!same_bytes(b"abc", b"abd"));
    assert!(!same_bytes(b"abc", b"ab"));
}

#[test]
fn heartbeat_service_echoes_the_number() {
    assert_eq!(tcp_stability_server::handle_line(b"PING-1\n"), Some(b"PONG-1\n".to_vec()));
    assert_eq!(tcp_stability_server::handle_line(b"  PING-42\r\n"), Some(b"PONG-42\n".to_vec()));
    assert_eq!(tcp_stability_server::handle_line(b"PING-"), Some(b"PONG-\n".to_vec()));
    assert_eq!(tcp_stability_server::handle_line(b"PING-a b\n"), Some(b"PONG-a b\n".to_vec()));
    assert_eq!(tcp_stability_server::handle_line(b"PING\n"), None);
    assert_eq!(tcp_stability_server::handle_line(b"HELLO\n"), None);
    assert_eq!(tcp_stability_server::handle_line(b"\n"), None);
    assert_eq!(tcp_stability_server::handle_line(b"ping-1\n"), None);
}

#[test]
fn jitter_service_answers_ping() {
    assert_eq!(network_jitter_server::handle_line(b"PING\n"), Some(b"PONG\n".to_vec()));
    assert_eq!(network_jitter_server::handle_line(b" PING \r\n"), Some(b"PONG\n".to_vec()));
    assert_eq!(network_jitter_server::handle_line(b"PING-1\n"), None);
    assert_eq!(network_jitter_server::handle_line(b"PONG\n"), None);
    assert_eq!(network_jitter_server::handle_line(b""), None);
}

#[test]
fn connection_service_answers_the_first_message() {
    assert_eq!(connection_perf_server::handle_message(b"PING\n"), b"PONG\n".to_vec());
    assert_eq!(connection_perf_server::handle_message(b"PING"), b"PONG\n".to_vec());
    assert_eq!(connection_perf_server::handle_message(b"HELLO\n"), b"ERROR\n".to_vec());
    assert_eq!(connection_perf_server::handle_message(b""), b"ERROR\n".to_vec());
    assert_eq!(connection_perf_server::handle_message(&[0xff, b'P']), b"ERROR\n".to_vec());
    assert_eq!(connection_perf_server::greeting(), b"OK\n".to_vec());
}

#[test]
fn dns_response_layout() {
    let question = b"\x06google\x03com\x00\x00\x01\x00\x01";
    let response = dns_stability_server::create_dns_response(0x1234, question).unwrap();
    let mut expected = vec![0x12, 0x34, 0x81, 0x80, 0x00, 0x01, 0x00, 0x01, 0x00, 0x00, 0x00, 0x00];
    expected.extend_from_slice(question);
    expected.extend_from_slice(&[
        0xc0, 0x0c, 0x00, 0x01, 0x00, 0x01, 0x00, 0x00, 0x01, 0x2c, 0x00, 0x04, 8, 8, 8, 8,
    ]);
    assert_eq!(response, expected);
    let empty = dns_stability_server::create_dns_response(0xffff, &[]).unwrap();
    assert_eq!(empty.len(), 28);
    assert_eq!(empty[..2], [0xff, 0xff]);
}

#[test]
fn dns_service_answers_queries_only() {
    let query = network_stable_test::probes::dns_stability::create_dns_query_packet("a.io").unwrap();
    let answer = dns_stability_server::handle_datagram(&query).unwrap();
    assert_eq!(answer[..2], [0x12, 0x34]);
    assert_eq!(answer[2..12], [0x81, 0x80, 0, 1, 0, 1, 0, 0, 0, 0]);
    assert_eq!(answer[12..12 + query.len() - 12], query[12..]);
    assert_eq!(answer[answer.len() - 4..], [8, 8, 8, 8]);
    assert_eq!(answer.len(), query.len() + 16);
    assert_eq!(answer[3] & 0x0f, 0);

    assert_eq!(dns_stability_server::handle_datagram(&query[..11]), None);
    let mut none_asked = query.clone();
    none_asked[5] = 0;
    assert_eq!(dns_stability_server::handle_datagram(&none_asked), None);
    let mut many_asked = query.clone();
    many_asked[4] = 1;
    many_asked[5] = 0;
    assert!(dns_stability_server::handle_datagram(&many_asked).is_some());
    let header_only = [0u8, 7, 1, 0, 0, 1, 0, 0, 0, 0, 0, 0];
    assert_eq!(dns_stability_server::handle_datagram(&header_only).unwrap().len(), 28);
}

#[test]
fn bandwidth_requests_are_read_by_their_first_line() {
    assert_eq!(
        parse_request(b"GET /stream-bytes/2048 HTTP/1.1\r\nHost: h\r\n\r\n"),
        Request::StreamBytes(2048)
    );
    assert_eq!(parse_request(b"GET /stream-bytes/7"), Request::StreamBytes(7));
    assert_eq!(parse_request(b"GET /stream-bytes/ 12 HTTP/1.1\n"), Request::StreamBytes(12));
    assert_eq!(parse_request(b"GET /stream-bytes/+5 x\r\n"), Request::StreamBytes(5));
    assert_eq!(parse_request(b"GET /stream-bytes/abc HTTP/1.1\r\n"), Request::StreamBytes(1024));
    assert_eq!(parse_request(b"GET /stream-bytes/ HTTP/1.1\r\n"), Request::StreamBytes(1024));
    assert_eq!(parse_request(b"GET /stream-bytes/\r\n"), Request::StreamBytes(1024));
    assert_eq!(parse_request(b"GET /stream-bytes/12x HTTP/1.1\r\n"), Request::StreamBytes(1024));
    assert_eq!(
        parse_request(b"GET /stream-bytes/99999999999999999999999999 HTTP/1.1\r\n"),
        Request::StreamBytes(1024)
    );
    assert_eq!(parse_request(b"GET /stream-bytes/0"), Request::StreamBytes(0));
    assert_eq!(
        parse_request(b"POST /post HTTP/1.1\r\nContent-Length: 4\r\n\r\nabcd"),
        Request::Post
    );
    assert_eq!(parse_request(b"POST /postal"), Request::Post);
    assert_eq!(parse_request(b"\r\nGET /stream-bytes/5"), Request::Empty);
    assert_eq!(parse_request(b"\n"), Request::Empty);
    assert_eq!(parse_request(b""), Request::Empty);
    assert_eq!(parse_request(b"GET / HTTP/1.1\r\n"), Request::Unknown);
    assert_eq!(parse_request(b"get /stream-bytes/5"), Request::Unknown);
    assert_eq!(parse_request(b"\rGET"), Request::Unknown);
}

#[test]
fn stream_bytes_count_up_modulo_256() {
    let body = generate_stream_body(600);
    assert_eq!(body.len(), 600);
    for (i, b) in body.iter().enumerate() {
        assert_eq!(*b as usize, i % 256);
    }
    assert!(generate_stream_body(0).is_empty());
}

#[test]
fn bandwidth_responses() {
    let response = respond(Request::StreamBytes(3)).unwrap();
    assert_eq!(
        response,
        b"HTTP/1.1 200 OK\r\nContent-Length: 3\r\nConnection: keep-alive\r\n\r\n\x00\x01\x02".to_vec()
    );
    assert_eq!(
        respond(Request::Post).unwrap(),
        b"HTTP/1.1 200 OK\r\nContent-Length: 0\r\nConnection: keep-alive\r\n\r\n".to_vec()
    );
    assert_eq!(
        respond(Request::Unknown).unwrap(),
        b"HTTP/1.1 404 Not Found\r\nContent-Length: 0\r\n\r\n".to_vec()
    );
    assert_eq!(respond(Request::Empty), None);
    let streamed = handle_request(b"GET /stream-bytes/1024 HTTP/1.1\r\n\r\n").unwrap();
    assert!(streamed.starts_with(b"HTTP/1.1 200 OK\r\nContent-Length: 1024\r\n"));
    assert_eq!(streamed.len(), 65 + 1024);
    assert_eq!(handle_request(b"\r\n"), None);
}

#[test]
fn the_probe_accepts_what_the_server_answers() {
    let acknowledged = handle_request(b"POST /post HTTP/1.1\r\nContent-Length: 0\r\n\r\n").unwrap();
    assert!(network_stable_test::probes::bandwidth::verify_response_integrity(&acknowledged));
    assert!(network_stable_test::probes::bandwidth::is_download_complete(&acknowledged, 1024));
    let answer = tcp_stability_server::handle_line(
        &network_stable_test::probes::tcp_stability::heartbeat(7),
    );
    assert_eq!(answer, Some(b"PONG-7\n".to_vec()));
    let pong = network_jitter_server::handle_line(
        &network_stable_test::probes::network_jitter::ping_payload(),
    );
    assert_eq!(pong, Some(b"PONG\n".to_vec()));
    let query = network_stable_test::probes::dns_stability::create_dns_query_packet("x.y").unwrap();
    let response = dns_stability_server::handle_datagram(&query).unwrap();
    assert!(network_stable_test::probes::dns_stability::check_dns_response(&response, response.len())
        .is_ok());
}

#[test]
fn content_length_is_read_from_the_first_such_header() {
    assert_eq!(content_length(b"POST /post HTTP/1.1\r\nContent-Length: 4\r\n\r\nabcd"), 4);
    assert_eq!(content_length(b"POST /post HTTP/1.1\r\nHost: h\r\ncontent-length:7\n\n"), 7);
    assert_eq!(content_length(b"CONTENT-LENGTH:   12  \r\n"), 12);
    assert_eq!(content_length(b"Content-Length: 1\r\nContent-Length: 2\r\n"), 1);
    assert_eq!(content_length(b"POST /post HTTP/1.1\r\n\r\n"), 0);
    assert_eq!(content_length(b"Content-Length: abc\r\nContent-Length: 2\r\n"), 0);
    assert_eq!(content_length(b"Content-Length:\r\n"), 0);
    assert_eq!(content_length(b"X-Content-Length: 5\r\n"), 0);
    assert_eq!(content_length(b"Content-Length: 5"), 5);
    assert_eq!(content_length(b"Content-Length: 5\r"), 5);
    assert_eq!(content_length(b""), 0);
}
