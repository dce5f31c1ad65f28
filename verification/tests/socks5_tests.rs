use network_stable_test::socks5::{
    auth_request, connect_request, fits_length_byte, greeting, parse_address,
    udp_associate_request, Host, IpAddress, Negotiation, RelayAddress, SocketAddress,
    Socks5Client, Socks5UdpRelay, Step,
};
use network_stable_test::NetworkTestError;

fn proxy_address(text: &str) -> SocketAddress {
    let (host, port) = parse_address(text).unwrap();
    let octets: Vec<u8> = host.split('.').map(|part| part.parse::<u8>().unwrap()).collect();
    SocketAddress { ip: IpAddress::V4([octets[0], octets[1], octets[2], octets[3]]), port }
}

fn client() -> Socks5Client {
    Socks5Client::new(proxy_address("127.0.0.1:1080"))
}

fn relay() -> Socks5UdpRelay {
    Socks5UdpRelay::new(RelayAddress { host: Host::V4([10, 0, 0, 1]), port: 4000 })
}

fn exchange(step: Step) -> (Vec<u8>, usize) {
    match step {
        Step::Exchange { send, expect } => (send, expect),
        other => panic!("expected an exchange, got {:?}", describe(&other)),
    }
}

fn describe(step: &Step) -> String {
    match step {
        Step::Exchange { send, expect } => format!("Exchange({:?}, {})", send, expect),
        Step::Connected => "Connected".to_string(),
        Step::Associated(a) => format!("Associated({:?})", a),
        Step::Failed(e) => format!("Failed({:?})", e),
    }
}

fn failure(step: Step) -> String {
    match step {
        Step::Failed(NetworkTestError::Socks5(text)) => text,
        other => panic!("expected a SOCKS5 failure, got {}", describe(&other)),
    }
}

fn at_reply_head(client: &Socks5Client) -> Negotiation {
    let (mut negotiation, _) = client.begin_connect(&Host::domain("example.com"), 80);
    let (_, expect) = exchange(negotiation.advance(&[0x05, 0x00]));
    assert_eq!(expect, 4);
    negotiation
}

#[test]
fn test_parse_address() {
    let client = client();

    let (host, port) = client.parse_address("example.com:80").unwrap();
    assert_eq!(host, "example.com");
    assert_eq!(port, 80);

    let (host, port) = client.parse_address("192.168.1.1:443").unwrap();
    assert_eq!(host, "192.168.1.1");
    assert_eq!(port, 443);
}

#[test]
fn parse_address_splits_at_the_rightmost_colon() {
    let (host, port) = parse_address("::1:53").unwrap();
    assert_eq!(host, "::1");
    assert_eq!(port, 53);
    let (host, port) = parse_address("a:b:c:65535").unwrap();
    assert_eq!(host, "a:b:c");
    assert_eq!(port, 65535);
    let (host, port) = parse_address(":0").unwrap();
    assert_eq!(host, "");
    assert_eq!(port, 0);
    let (host, port) = parse_address("h\u{e9}te:+0080").unwrap();
    assert_eq!(host, "h\u{e9}te");
    assert_eq!(port, 80);
}

#[test]
fn parse_address_rejects_what_has_no_colon() {
    match parse_address("example.com") {
        Err(NetworkTestError::Config(text)) => {
            assert_eq!(text, "Invalid address format: example.com")
        }
        other => panic!("unexpected {:?}", other),
    }
}

#[test]
fn parse_address_rejects_a_bad_port() {
    for (input, port) in [
        ("host:abc", "abc"),
        ("host:65536", "65536"),
        ("host:", ""),
        ("host:+", "+"),
        ("host:-1", "-1"),
        ("host: 80", " 80"),
        ("host:8 0", "8 0"),
        ("host:99999999999999999999999", "99999999999999999999999"),
    ] {
        match parse_address(input) {
            Err(NetworkTestError::Config(text)) => {
                assert_eq!(text, format!("Invalid port: {}", port))
            }
            other => panic!("unexpected {:?} for {}", other, input),
        }
    }
}

#[test]
fn parse_address_reads_back_what_was_written() {
    for host in ["example.com", "10.1.2.3", "fe80::1", "", "a:b"] {
        for port in [0u16, 1, 9, 10, 80, 443, 1080, 9999, 10000, 65535] {
            let text = format!("{}:{}", host, port);
            let (h, p) = parse_address(&text).unwrap();
            assert_eq!(h, host);
            assert_eq!(p, port);
        }
    }
}

#[test]
fn client_defaults_and_builders() {
    let c = client();
    assert_eq!(c.timeout_ns(), 5_000_000_000);
    assert!(!c.offers_credentials());
    assert_eq!(c.proxy_addr().port, 1080);
    match c.proxy_addr().ip {
        IpAddress::V4(o) => assert_eq!(o, [127, 0, 0, 1]),
        IpAddress::V6(_) => panic!("expected IPv4"),
    }
    let c = c.with_timeout(10_000_000_000).with_auth("u".to_string(), "p".to_string());
    assert_eq!(c.timeout_ns(), 10_000_000_000);
    assert!(c.offers_credentials());
}

#[test]
fn greeting_offers_one_method() {
    assert_eq!(greeting(false), vec![0x05, 0x01, 0x00]);
    assert_eq!(greeting(true), vec![0x05, 0x01, 0x02]);
}

#[test]
fn connect_request_for_each_address_type() {
    assert_eq!(
        connect_request(&Host::V4([192, 168, 1, 1]), 443),
        vec![0x05, 0x01, 0x00, 0x01, 192, 168, 1, 1, 0x01, 0xbb]
    );
    let mut expected = vec![0x05, 0x01, 0x00, 0x04];
    let octets: [u8; 16] = [0x20, 0x01, 0x0d, 0xb8, 0, 0, 0, 0, 0, 0, 0, 0, 0, 0, 0, 1];
    expected.extend_from_slice(&octets);
    expected.extend_from_slice(&[0x00, 0x35]);
    assert_eq!(connect_request(&Host::V6(octets), 53), expected);
    let mut expected = vec![0x05, 0x01, 0x00, 0x03, 0x0b];
    expected.extend_from_slice(b"example.com");
    expected.extend_from_slice(&[0x00, 0x50]);
    assert_eq!(connect_request(&Host::domain("example.com"), 80), expected);
}

#[test]
fn a_name_must_fit_its_length_byte() {
    assert!(Host::domain("").is_valid());
    assert!(Host::domain(&"a".repeat(255)).is_valid());
    assert!(!Host::domain(&"a".repeat(256)).is_valid());
    assert!(!Host::domain(&"a".repeat(300)).is_valid());
    assert!(Host::V4([0; 4]).is_valid());
    assert!(Host::V6([0; 16]).is_valid());
    assert!(fits_length_byte(""));
    assert!(fits_length_byte(&"p".repeat(255)));
    assert!(!fits_length_byte(&"p".repeat(256)));
    assert!(!fits_length_byte(&"\u{e9}".repeat(128)));
    let request = connect_request(&Host::domain(&"a".repeat(255)), 1);
    assert_eq!(request[4], 255);
    assert_eq!(request.len(), 3 + 2 + 255 + 2);
    let request = auth_request(&"u".repeat(255), &"p".repeat(255));
    assert_eq!(request[1], 255);
    assert_eq!(request[257], 255);
    assert_eq!(request.len(), 3 + 510);
}

#[test]
fn auth_request_is_length_prefixed() {
    assert_eq!(auth_request("u", "p"), vec![0x01, 0x01, b'u', 0x01, b'p']);
    assert_eq!(
        auth_request("user", "secret"),
        vec![0x01, 4, b'u', b's', b'e', b'r', 6, b's', b'e', b'c', b'r', b'e', b't']
    );
    assert_eq!(auth_request("", ""), vec![0x01, 0, 0]);
}

#[test]
fn udp_associate_request_names_no_source() {
    assert_eq!(udp_associate_request(), vec![0x05, 0x03, 0x00, 0x01, 0, 0, 0, 0, 0, 0]);
}

#[test]
fn connect_happy_path() {
    let client = client();
    let (mut negotiation, first) = client.begin_connect(&Host::domain("example.com"), 80);
    let (send, expect) = exchange(first);
    assert_eq!(send, vec![0x05, 0x01, 0x00]);
    assert_eq!(expect, 2);
    assert_eq!(negotiation.expected(), 2);

    let (send, expect) = exchange(negotiation.advance(&[0x05, 0x00]));
    let mut request = vec![0x05, 0x01, 0x00, 0x03, 0x0b];
    request.extend_from_slice(b"example.com");
    request.extend_from_slice(&[0x00, 0x50]);
    assert_eq!(send, request);
    assert_eq!(expect, 4);

    let (send, expect) = exchange(negotiation.advance(&[0x05, 0x00, 0x00, 0x01]));
    assert!(send.is_empty());
    assert_eq!(expect, 6);
    assert!(!negotiation.is_finished());

    match negotiation.advance(&[10, 0, 0, 1, 0x1f, 0x90]) {
        Step::Connected => {}
        other => panic!("unexpected {}", describe(&other)),
    }
    assert!(negotiation.is_finished());
}

#[test]
fn connect_with_authentication() {
    let client = client().with_auth("u".to_string(), "p".to_string());
    let (mut negotiation, first) = client.begin_connect(&Host::V4([1, 2, 3, 4]), 80);
    let (send, expect) = exchange(first);
    assert_eq!(send, vec![0x05, 0x01, 0x02]);
    assert_eq!(expect, 2);

    let (send, expect) = exchange(negotiation.advance(&[0x05, 0x02]));
    assert_eq!(send, vec![0x01, 0x01, b'u', 0x01, b'p']);
    assert_eq!(expect, 2);

    let (send, expect) = exchange(negotiation.advance(&[0x01, 0x00]));
    assert_eq!(send, vec![0x05, 0x01, 0x00, 0x01, 1, 2, 3, 4, 0x00, 0x50]);
    assert_eq!(expect, 4);
}

#[test]
fn proxy_may_waive_the_offered_authentication() {
    let client = client().with_auth("u".to_string(), "p".to_string());
    let (mut negotiation, _) = client.begin_connect(&Host::V4([1, 2, 3, 4]), 80);
    let (send, _) = exchange(negotiation.advance(&[0x05, 0x00]));
    assert_eq!(send[..3], [0x05, 0x01, 0x00]);
}

#[test]
fn method_reply_failures() {
    let client = client();
    let (mut n, _) = client.begin_connect(&Host::V4([1, 2, 3, 4]), 80);
    assert_eq!(failure(n.advance(&[0x04, 0x00])), "invalid version");
    assert!(n.is_finished());
    let (mut n, _) = client.begin_connect(&Host::V4([1, 2, 3, 4]), 80);
    assert_eq!(failure(n.advance(&[0x05, 0xff])), "no acceptable methods");
    let (mut n, _) = client.begin_connect(&Host::V4([1, 2, 3, 4]), 80);
    assert_eq!(failure(n.advance(&[0x05, 0x07])), "unknown method 7");
    let (mut n, _) = client.begin_connect(&Host::V4([1, 2, 3, 4]), 80);
    assert_eq!(failure(n.advance(&[0x05, 0x02])), "Username required for authentication");
}

#[test]
fn authentication_failures() {
    let client = client().with_auth("u".to_string(), "p".to_string());
    let (mut n, _) = client.begin_connect(&Host::V4([1, 2, 3, 4]), 80);
    exchange(n.advance(&[0x05, 0x02]));
    assert_eq!(failure(n.advance(&[0x05, 0x00])), "Invalid authentication response version");
    let (mut n, _) = client.begin_connect(&Host::V4([1, 2, 3, 4]), 80);
    exchange(n.advance(&[0x05, 0x02]));
    assert_eq!(failure(n.advance(&[0x01, 0x01])), "Authentication failed");
}

#[test]
fn reply_codes_map_to_their_texts() {
    let client = client();
    let expected = [
        (1u8, "General SOCKS server failure"),
        (2, "Connection not allowed by ruleset"),
        (3, "Network unreachable"),
        (4, "Host unreachable"),
        (5, "Connection refused"),
        (6, "TTL expired"),
        (7, "Command not supported"),
        (8, "Address type not supported"),
        (9, "unknown error 9"),
        (255, "unknown error 255"),
    ];
    for (code, text) in expected {
        let mut n = at_reply_head(&client);
        assert_eq!(failure(n.advance(&[0x05, code, 0x00, 0x01])), text);
        assert!(n.is_finished());
    }
}

#[test]
fn reply_head_failures() {
    let client = client();
    let mut n = at_reply_head(&client);
    assert_eq!(
        failure(n.advance(&[0x04, 0x00, 0x00, 0x01])),
        "Invalid SOCKS version in connect response"
    );
    let mut n = at_reply_head(&client);
    assert_eq!(failure(n.advance(&[0x05, 0x00, 0x00, 0x05])), "Unknown address type: 5");
}

#[test]
fn bound_address_is_drained_by_its_type() {
    let client = client();
    let mut n = at_reply_head(&client);
    let (send, expect) = exchange(n.advance(&[0x05, 0x00, 0x00, 0x04]));
    assert!(send.is_empty());
    assert_eq!(expect, 18);
    assert!(matches!(n.advance(&[0u8; 18]), Step::Connected));

    let mut n = at_reply_head(&client);
    let (_, expect) = exchange(n.advance(&[0x05, 0x00, 0x00, 0x03]));
    assert_eq!(expect, 1);
    let (send, expect) = exchange(n.advance(&[4]));
    assert!(send.is_empty());
    assert_eq!(expect, 6);
    assert!(matches!(n.advance(b"host\x00\x50"), Step::Connected));
    assert!(n.is_finished());
}

#[test]
fn udp_associate_yields_the_relay_address() {
    let client = client();
    let (mut n, first) = client.begin_udp_associate();
    let (send, _) = exchange(first);
    assert_eq!(send, vec![0x05, 0x01, 0x00]);
    let (send, expect) = exchange(n.advance(&[0x05, 0x00]));
    assert_eq!(send, vec![0x05, 0x03, 0x00, 0x01, 0, 0, 0, 0, 0, 0]);
    assert_eq!(expect, 4);
    let (_, expect) = exchange(n.advance(&[0x05, 0x00, 0x00, 0x01]));
    assert_eq!(expect, 6);
    match n.advance(&[10, 1, 2, 3, 0x12, 0x34]) {
        Step::Associated(addr) => {
            assert_eq!(addr.port, 0x1234);
            assert!(matches!(addr.host, Host::V4(o) if o == [10, 1, 2, 3]));
        }
        other => panic!("unexpected {}", describe(&other)),
    }
    assert!(n.is_finished());
}

#[test]
fn udp_associate_yields_an_ipv6_relay_address() {
    let client = client();
    let (mut n, _) = client.begin_udp_associate();
    exchange(n.advance(&[0x05, 0x00]));
    let (_, expect) = exchange(n.advance(&[0x05, 0x00, 0x00, 0x04]));
    assert_eq!(expect, 18);
    let mut tail = [0u8; 18];
    tail[15] = 1;
    tail[16] = 0x00;
    tail[17] = 0x35;
    match n.advance(&tail) {
        Step::Associated(addr) => {
            assert_eq!(addr.port, 53);
            assert!(matches!(
                addr.host,
                Host::V6(o) if o == [0, 0, 0, 0, 0, 0, 0, 0, 0, 0, 0, 0, 0, 0, 0, 1]
            ));
        }
        other => panic!("unexpected {}", describe(&other)),
    }
}

#[test]
fn udp_associate_yields_a_relay_by_name() {
    let client = client();
    let (mut n, _) = client.begin_udp_associate();
    exchange(n.advance(&[0x05, 0x00]));
    let (send, expect) = exchange(n.advance(&[0x05, 0x00, 0x00, 0x03]));
    assert!(send.is_empty());
    assert_eq!(expect, 1);
    let (send, expect) = exchange(n.advance(&[13]));
    assert!(send.is_empty());
    assert_eq!(expect, 15);
    match n.advance(b"relay.example\x1f\x90") {
        Step::Associated(addr) => {
            assert_eq!(addr.port, 8080);
            assert!(matches!(addr.host, Host::Domain(name) if name == b"relay.example"));
        }
        other => panic!("unexpected {}", describe(&other)),
    }
    assert!(n.is_finished());

    let (mut n, _) = client.begin_udp_associate();
    exchange(n.advance(&[0x05, 0x00]));
    exchange(n.advance(&[0x05, 0x00, 0x00, 0x03]));
    let (_, expect) = exchange(n.advance(&[0]));
    assert_eq!(expect, 2);
    match n.advance(&[0x00, 0x35]) {
        Step::Associated(addr) => {
            assert_eq!(addr.port, 53);
            assert!(matches!(addr.host, Host::Domain(name) if name.is_empty()));
        }
        other => panic!("unexpected {}", describe(&other)),
    }
}

#[test]
fn udp_associate_reply_failures() {
    let client = client();
    let (mut n, _) = client.begin_udp_associate();
    exchange(n.advance(&[0x05, 0x00]));
    assert_eq!(
        failure(n.advance(&[0x05, 0x00, 0x00, 0x05])),
        "Unsupported address type for UDP relay: 5"
    );
    let (mut n, _) = client.begin_udp_associate();
    exchange(n.advance(&[0x05, 0x00]));
    assert_eq!(failure(n.advance(&[0x05, 0x07, 0x00, 0x01])), "Command not supported");
    assert!(n.is_finished());
    let (mut n, _) = client.begin_udp_associate();
    exchange(n.advance(&[0x05, 0x00]));
    assert_eq!(
        failure(n.advance(&[0x01, 0x00, 0x00, 0x01])),
        "Invalid SOCKS version in UDP associate response"
    );
}

#[test]
fn udp_encapsulation_layout() {
    let packet = relay().encapsulate_udp_packet(&[0xaa, 0xbb], &Host::V4([8, 8, 8, 8]), 53);
    assert_eq!(packet, vec![0, 0, 0, 0x01, 8, 8, 8, 8, 0x00, 0x35, 0xaa, 0xbb]);
    let packet = relay().encapsulate_udp_packet(&[1], &Host::domain("dns.example"), 5353);
    let mut expected = vec![0, 0, 0, 0x03, 11];
    expected.extend_from_slice(b"dns.example");
    expected.extend_from_slice(&[0x14, 0xe9, 1]);
    assert_eq!(packet, expected);
}

fn round_trip(host: Host, port: u16, payload: &[u8]) {
    let relay = relay();
    let mut buffer = relay.encapsulate_udp_packet(payload, &host, port);
    let n = buffer.len();
    buffer.extend_from_slice(&[0xee; 7]);
    let total = buffer.len();
    let (len, origin, origin_port) = relay.decapsulate_udp_packet(&mut buffer, n).unwrap();
    assert_eq!(len, payload.len());
    assert_eq!(&buffer[..len], payload);
    assert_eq!(buffer.len(), total);
    assert_eq!(origin_port, port);
    match (host, origin) {
        (Host::V4(a), Host::V4(b)) => assert_eq!(a, b),
        (Host::V6(a), Host::V6(b)) => assert_eq!(a, b),
        (Host::Domain(a), Host::Domain(b)) => assert_eq!(a, b),
        (a, b) => panic!("{:?} came back as {:?}", a, b),
    }
}

#[test]
fn udp_round_trip_for_every_address_type() {
    round_trip(Host::V4([8, 8, 8, 8]), 53, b"query");
    round_trip(Host::V4([0, 0, 0, 0]), 0, b"");
    round_trip(Host::V6([0xfe, 0x80, 0, 0, 0, 0, 0, 0, 0, 0, 0, 0, 0, 0, 0, 1]), 65535, b"x");
    round_trip(Host::V6([0; 16]), 1, b"");
    round_trip(Host::domain("example.com"), 443, b"payload bytes");
    round_trip(Host::domain("a"), 7, b"xy");
    round_trip(Host::domain(&"n".repeat(255)), 7, b"");
}

#[test]
fn udp_decapsulation_leaves_the_rest_of_the_buffer() {
    let relay = relay();
    let mut buffer = vec![0, 0, 0, 1, 9, 9, 9, 9, 0, 7, b'a', b'b', b'c', 0x55, 0x66];
    let (len, _, port) = relay.decapsulate_udp_packet(&mut buffer, 13).unwrap();
    assert_eq!(len, 3);
    assert_eq!(port, 7);
    assert_eq!(buffer, vec![b'a', b'b', b'c', 1, 9, 9, 9, 9, 0, 7, b'a', b'b', b'c', 0x55, 0x66]);
}

#[test]
fn udp_header_is_read_without_moving_anything() {
    let relay = relay();
    let buffer = vec![0, 0, 0, 3, 2, b'h', b'i', 0x01, 0x00, b'p', b'q'];
    let (header_len, origin, port) = relay.parse_udp_header(&buffer, buffer.len()).unwrap();
    assert_eq!(header_len, 9);
    assert_eq!(port, 256);
    assert!(matches!(origin, Host::Domain(name) if name == b"hi"));
}

fn udp_failure(bytes: &[u8]) -> String {
    let relay = relay();
    let mut buffer = bytes.to_vec();
    let before = buffer.clone();
    let n = buffer.len();
    match relay.decapsulate_udp_packet(&mut buffer, n) {
        Err(NetworkTestError::Connection(text)) => {
            assert_eq!(buffer, before);
            text
        }
        other => panic!("unexpected {:?}", other),
    }
}

#[test]
fn udp_decapsulation_failures() {
    assert_eq!(udp_failure(&[0, 0, 0, 1, 1, 2, 3, 4, 0]), "Invalid SOCKS5 UDP packet: too short");
    assert_eq!(udp_failure(&[]), "Invalid SOCKS5 UDP packet: too short");
    assert_eq!(
        udp_failure(&[0, 1, 0, 1, 1, 2, 3, 4, 0, 5]),
        "Invalid SOCKS5 UDP packet: bad header"
    );
    assert_eq!(
        udp_failure(&[1, 0, 0, 1, 1, 2, 3, 4, 0, 5]),
        "Invalid SOCKS5 UDP packet: bad header"
    );
    assert_eq!(udp_failure(&[0, 0, 1, 1, 1, 2, 3, 4, 0, 5]), "Fragmentation not supported");
    assert_eq!(udp_failure(&[0, 0, 0, 2, 1, 2, 3, 4, 0, 5]), "Unsupported address type: 2");
    assert_eq!(
        udp_failure(&[0, 0, 0, 3, 9, b'a', b'b', b'c', 0, 5]),
        "Invalid domain UDP packet: too short"
    );
    assert_eq!(
        udp_failure(&[0, 0, 0, 4, 1, 2, 3, 4, 5, 6, 7, 8, 9, 10, 11, 12, 13, 14, 15, 16, 0]),
        "Invalid IPv6 UDP packet"
    );
}

#[test]
fn short_domain_datagram_is_refused() {
    let relay = relay();
    let mut buffer = relay.encapsulate_udp_packet(b"", &Host::domain("a"), 1);
    assert_eq!(buffer.len(), 8);
    let n = buffer.len();
    assert!(relay.decapsulate_udp_packet(&mut buffer, n).is_err());
}

#[test]
fn errors_describe_themselves() {
    assert_eq!(NetworkTestError::Connection("x".into()).describe(), "Connection error: x");
    assert_eq!(NetworkTestError::Socks5("y".into()).describe(), "SOCKS5 error: y");
    assert_eq!(NetworkTestError::Timeout("z".into()).describe(), "Timeout error: z");
    assert_eq!(NetworkTestError::Config("w".into()).describe(), "Configuration error: w");
    let io = std::io::Error::new(std::io::ErrorKind::Other, "boom");
    assert_eq!(NetworkTestError::Io(io).describe(), "IO error: boom");
    assert!(NetworkTestError::Timeout("z".into()).is_timeout());
    assert!(!NetworkTestError::Connection("z".into()).is_timeout());
}

#[test]
fn a_bad_target_is_refused_after_the_greeting() {
    let client = client();
    let (mut n, first) = client.begin_refused("Invalid port: abc".to_string());
    let (send, expect) = exchange(first);
    assert_eq!(send, vec![0x05, 0x01, 0x00]);
    assert_eq!(expect, 2);
    match n.advance(&[0x05, 0x00]) {
        Step::Failed(NetworkTestError::Config(text)) => assert_eq!(text, "Invalid port: abc"),
        other => panic!("unexpected {}", describe(&other)),
    }
    assert!(n.is_finished());

    let (mut n, _) = client.begin_refused("Invalid port: abc".to_string());
    assert_eq!(failure(n.advance(&[0x05, 0xff])), "no acceptable methods");

    let client = client.with_auth("u".to_string(), "p".to_string());
    assert!(client.is_valid());
    let (mut n, _) = client.begin_refused("Invalid address format: x".to_string());
    let (send, _) = exchange(n.advance(&[0x05, 0x02]));
    assert_eq!(send, vec![0x01, 0x01, b'u', 0x01, b'p']);
    match n.advance(&[0x01, 0x00]) {
        Step::Failed(NetworkTestError::Config(text)) => {
            assert_eq!(text, "Invalid address format: x")
        }
        other => panic!("unexpected {}", describe(&other)),
    }
}
