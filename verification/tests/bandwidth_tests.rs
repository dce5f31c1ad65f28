use network_stable_test::probes::bandwidth::{
    calculate_average_speed, contains_bytes, create_http_request, create_upload_head,
    generate_test_data, get_host_from_addr, is_download_complete, speed,
    verify_response_integrity, Awaiting, BandwidthAction, BandwidthEvent, BandwidthRun,
    BandwidthTest, SpeedSample,
};
use network_stable_test::score::bandwidth_score;
use network_stable_test::NetworkTestError;

const SEC: u64 = 1_000_000_000;
const MS: u64 = 1_000_000;

fn ready(chunk: usize, duration: u64) -> (BandwidthRun, BandwidthAction) {
    let test = BandwidthTest::new("127.0.0.1:1080", "httpbin.org:80", chunk, duration);
    let (mut run, action) = test.start();
    assert!(matches!(action, BandwidthAction::Connect));
    match run.step(BandwidthEvent::Connected { now: 0 }) {
        BandwidthAction::Request { bytes } => assert_eq!(
            bytes,
            format!(
                "GET /stream-bytes/{} HTTP/1.1\r\nHost: httpbin.org\r\nConnection: keep-alive\r\nUser-Agent: NetworkStabilityTest/1.0\r\n\r\n",
                chunk
            )
            .into_bytes()
        ),
        _ => panic!("expected the stream request"),
    }
    let action = run.step(BandwidthEvent::Written { now: MS });
    (run, action)
}

fn expect_upload(action: BandwidthAction, chunk: usize) {
    match action {
        BandwidthAction::Upload { head, body } => {
            assert_eq!(
                head,
                format!(
                    "POST /post HTTP/1.1\r\nHost: httpbin.org\r\nContent-Length: {}\r\nConnection: keep-alive\r\n\r\n",
                    chunk
                )
                .into_bytes()
            );
            assert_eq!(body.len(), chunk);
        }
        _ => panic!("expected an upload"),
    }
}

#[test]
fn bandwidth_settings_are_kept() {
    let test = BandwidthTest::new("127.0.0.1:1080", "httpbin.org:80", 1024, 60);
    assert_eq!(test.proxy_addr(), "127.0.0.1:1080");
    assert_eq!(test.target_addr(), "httpbin.org:80");
    assert_eq!(test.chunk_size(), 1024);
    assert_eq!(test.test_duration_sec(), 60);
}

#[test]
fn host_is_what_stands_before_the_last_colon() {
    assert_eq!(get_host_from_addr("httpbin.org:80"), "httpbin.org");
    assert_eq!(get_host_from_addr("httpbin.org"), "httpbin.org");
    assert_eq!(get_host_from_addr("::1:80"), "::1");
    assert_eq!(get_host_from_addr(":80"), "");
}

#[test]
fn request_texts() {
    assert_eq!(
        create_http_request(1024, "h"),
        "GET /stream-bytes/1024 HTTP/1.1\r\nHost: h\r\nConnection: keep-alive\r\nUser-Agent: NetworkStabilityTest/1.0\r\n\r\n"
    );
    assert_eq!(
        create_upload_head(0, "h"),
        "POST /post HTTP/1.1\r\nHost: h\r\nContent-Length: 0\r\nConnection: keep-alive\r\n\r\n"
    );
}

#[test]
fn test_data_has_the_chunk_size_and_is_random() {
    assert_eq!(generate_test_data(0).len(), 0);
    assert_eq!(generate_test_data(1024).len(), 1024);
    assert_ne!(generate_test_data(64), generate_test_data(64));
}

#[test]
fn byte_search() {
    assert!(contains_bytes(b"HTTP/1.1 200 OK", b"200 OK"));
    assert!(contains_bytes(b"abc", b""));
    assert!(contains_bytes(b"", b""));
    assert!(!contains_bytes(b"", b"a"));
    assert!(!contains_bytes(b"ab", b"abc"));
    assert!(contains_bytes(b"aab", b"ab"));
    assert!(!contains_bytes(b"HTTP/1.1 200 O", b"200 OK"));
}

#[test]
fn integrity_needs_a_protocol_and_a_good_status() {
    assert!(verify_response_integrity(b"HTTP/1.1 200 OK\r\n\r\n"));
    assert!(verify_response_integrity(b"HTTP/1.1 201 Created\r\n\r\n"));
    assert!(verify_response_integrity(b"HTTP/1.0 204 No Content\r\n\r\n"));
    assert!(!verify_response_integrity(b"HTTP/1.1 500 Error\r\n\r\n"));
    assert!(!verify_response_integrity(b"200 OK"));
    assert!(!verify_response_integrity(b""));
    assert!(!verify_response_integrity(b"HTTP/1.1 404 Not Found\r\n\r\n"));
}

#[test]
fn download_is_complete_at_a_blank_line_or_twice_the_chunk() {
    assert!(is_download_complete(b"HTTP/1.1 200 OK\r\n\r\n", 1024));
    assert!(!is_download_complete(b"HTTP/1.1 200 OK\r\n", 1024));
    assert!(!is_download_complete(b"\r\n\r", 1024));
    assert!(is_download_complete(b"\r\n\r\n", 1024));
    assert!(is_download_complete(b"12345678", 4));
    assert!(!is_download_complete(b"1234567", 4));
    assert!(is_download_complete(b"", 0));
}

#[test]
fn speed_is_bytes_per_second() {
    assert_eq!(speed(1024, SEC), 1024);
    assert_eq!(speed(1024, 500 * MS), 2048);
    assert_eq!(speed(1, 3 * SEC), 0);
    assert_eq!(speed(1000, 3), 333_333_333_333);
    assert_eq!(speed(10, 0), 0);
    assert_eq!(speed(usize::MAX, 1), u64::MAX);
}

#[test]
fn average_speed_is_the_mean_of_the_samples() {
    let sample = |bps| SpeedSample { timestamp: 0, bytes_per_second: bps, chunk_size: 1, duration: 1 };
    assert_eq!(calculate_average_speed(&vec![]), 0);
    assert_eq!(calculate_average_speed(&vec![sample(100), sample(200), sample(301)]), 200);
}

#[test]
fn a_round_is_sampled_twice() {
    let (mut run, action) = ready(1024, 60);
    expect_upload(action, 1024);
    assert_eq!(run.awaiting(), Awaiting::Upload);
    assert!(matches!(run.step(BandwidthEvent::Written { now: 3 * MS }), BandwidthAction::Read));
    let action = run.step(BandwidthEvent::Received { now: 4 * MS, data: b"HTTP/1.1 200 OK\r\n".to_vec() });
    assert!(matches!(action, BandwidthAction::Read));
    let action = run.step(BandwidthEvent::Received {
        now: 5 * MS,
        data: b"Content-Length: 0\r\n\r\n".to_vec(),
    });
    assert!(matches!(action, BandwidthAction::Wait { millis: 100 }));
    expect_upload(run.step(BandwidthEvent::Elapsed { now: 105 * MS }), 1024);
    let result = run.into_result();
    assert_eq!(result.upload_samples.len(), 1);
    assert_eq!(result.download_samples.len(), 1);
    assert_eq!(result.total_bytes_sent, 1024);
    assert_eq!(result.total_bytes_received, 38);
    assert_eq!(result.upload_samples[0].timestamp, MS);
    assert_eq!(result.upload_samples[0].duration, 2 * MS);
    assert_eq!(result.upload_samples[0].chunk_size, 1024);
    assert_eq!(result.upload_samples[0].bytes_per_second, 512_000);
    assert_eq!(result.download_samples[0].timestamp, 3 * MS);
    assert_eq!(result.download_samples[0].duration, 2 * MS);
    assert_eq!(result.download_samples[0].chunk_size, 38);
    assert_eq!(result.download_samples[0].bytes_per_second, 19000);
    assert_eq!(result.average_upload_speed, 512_000);
    assert_eq!(result.average_download_speed, 19000);
    assert_eq!(result.data_integrity_errors, 0);
    assert_eq!(result.connection_interruptions, 0);
    assert_eq!(result.test_duration_sec, 60);
    assert_eq!(bandwidth_score(&result), 100_000);
}

#[test]
fn a_damaged_response_still_counts_its_bytes() {
    let (mut run, _) = ready(16, 60);
    run.step(BandwidthEvent::Written { now: 2 * MS });
    let action = run.step(BandwidthEvent::Received {
        now: 3 * MS,
        data: b"HTTP/1.1 500 Error\r\n\r\n".to_vec(),
    });
    assert!(matches!(action, BandwidthAction::Wait { millis: 100 }));
    expect_upload(run.step(BandwidthEvent::Elapsed { now: 103 * MS }), 16);
    run.step(BandwidthEvent::Written { now: 104 * MS });
    run.step(BandwidthEvent::Received { now: 105 * MS, data: b"HTTP/1.1 200 OK\r\n\r\n".to_vec() });
    let result = run.into_result();
    assert_eq!(result.data_integrity_errors, 1);
    assert_eq!(result.download_samples.len(), 2);
    assert_eq!(result.download_samples[0].chunk_size, 22);
    assert_eq!(result.total_bytes_received, 22 + 19);
    assert_eq!(result.total_bytes_sent, 32);
    assert_eq!(bandwidth_score(&result), 75_000);
}

#[test]
fn download_ends_at_twice_the_chunk_or_when_the_read_ends() {
    let (mut run, _) = ready(4, 60);
    run.step(BandwidthEvent::Written { now: 2 * MS });
    assert!(matches!(
        run.step(BandwidthEvent::Received { now: 3 * MS, data: vec![1, 2, 3] }),
        BandwidthAction::Read
    ));
    assert!(matches!(
        run.step(BandwidthEvent::Received { now: 4 * MS, data: vec![4, 5, 6, 7, 8] }),
        BandwidthAction::Wait { millis: 100 }
    ));
    run.step(BandwidthEvent::Elapsed { now: 104 * MS });
    run.step(BandwidthEvent::Written { now: 105 * MS });
    assert!(matches!(
        run.step(BandwidthEvent::ReadEnded { now: 5 * SEC }),
        BandwidthAction::Wait { millis: 100 }
    ));
    let result = run.into_result();
    assert_eq!(result.download_samples.len(), 2);
    assert_eq!(result.download_samples[0].chunk_size, 8);
    assert_eq!(result.download_samples[1].chunk_size, 0);
    assert_eq!(result.data_integrity_errors, 2);
}

#[test]
fn an_interruption_reconnects_and_asks_for_the_stream_again() {
    let (mut run, _) = ready(8, 60);
    run.step(BandwidthEvent::Written { now: 2 * MS });
    assert!(matches!(run.step(BandwidthEvent::ReadFailed { now: 3 * MS }), BandwidthAction::Connect));
    assert_eq!(run.awaiting(), Awaiting::Reconnect);
    assert!(matches!(
        run.step(BandwidthEvent::Connected { now: 4 * MS }),
        BandwidthAction::Request { .. }
    ));
    assert!(matches!(
        run.step(BandwidthEvent::Written { now: 5 * MS }),
        BandwidthAction::Wait { millis: 100 }
    ));
    expect_upload(run.step(BandwidthEvent::Elapsed { now: 105 * MS }), 8);
    let error = NetworkTestError::Connection("reset".into());
    assert!(matches!(
        run.step(BandwidthEvent::WriteFailed { now: 106 * MS, error }),
        BandwidthAction::Connect
    ));
    let error = NetworkTestError::Connection("refused".into());
    assert!(matches!(
        run.step(BandwidthEvent::ConnectFailed { now: 107 * MS, error }),
        BandwidthAction::Finish
    ));
    assert_eq!(run.awaiting(), Awaiting::Done);
    let result = run.into_result();
    assert_eq!(result.connection_interruptions, 2);
    assert_eq!(result.upload_samples.len(), 1);
    assert_eq!(result.download_samples.len(), 0);
    assert_eq!(bandwidth_score(&result), 71_428);
}

#[test]
fn a_failure_before_the_first_round_is_fatal() {
    let test = BandwidthTest::new("127.0.0.1:1080", "httpbin.org:80", 8, 60);
    let (mut run, _) = test.start();
    let error = NetworkTestError::Socks5("Host unreachable".into());
    match run.step(BandwidthEvent::ConnectFailed { now: 0, error }) {
        BandwidthAction::Abort(NetworkTestError::Socks5(text)) => assert_eq!(text, "Host unreachable"),
        _ => panic!("expected an abort"),
    }
    let (mut run, _) = test.start();
    run.step(BandwidthEvent::Connected { now: 0 });
    let error = NetworkTestError::Connection("broken pipe".into());
    match run.step(BandwidthEvent::WriteFailed { now: 1, error }) {
        BandwidthAction::Abort(NetworkTestError::Connection(text)) => assert_eq!(text, "broken pipe"),
        _ => panic!("expected an abort"),
    }
}

#[test]
fn bandwidth_run_ends_at_the_deadline() {
    let (mut run, action) = ready(4, 1);
    expect_upload(action, 4);
    run.step(BandwidthEvent::Written { now: 2 * MS });
    run.step(BandwidthEvent::ReadEnded { now: 3 * MS });
    assert!(matches!(run.step(BandwidthEvent::Elapsed { now: SEC }), BandwidthAction::Finish));
    let result = run.into_result();
    assert_eq!(result.upload_samples.len(), 1);
    assert_eq!(bandwidth_score(&result), 50_000);
}

#[test]
fn no_sample_scores_zero() {
    let test = BandwidthTest::new("p:1", "t:2", 8, 0);
    let (mut run, _) = test.start();
    run.step(BandwidthEvent::Connected { now: 0 });
    assert!(matches!(run.step(BandwidthEvent::Written { now: 0 }), BandwidthAction::Finish));
    assert_eq!(bandwidth_score(&run.into_result()), 0);
}
