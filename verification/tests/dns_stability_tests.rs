use network_stable_test::probes::dns_stability::{
    check_dns_response, create_dns_query_packet, DnsAction, DnsEvent, DnsStabilityRun,
    DnsStabilityTest, DNS_SERVER,
};
use network_stable_test::probes::round_robin::{classify_failure, Awaiting, QueryOutcome};
use network_stable_test::score::{calculate_dns_score, calculate_domain_consistency};
use network_stable_test::NetworkTestError;

const SEC: u64 = 1_000_000_000;
const MS: u64 = 1_000_000;

fn names(list: &[&str]) -> Vec<String> {
    list.iter().map(|s| s.to_string()).collect()
}

fn started(domains: &[&str], duration: u64) -> (DnsStabilityRun, DnsAction) {
    let (mut run, action) =
        DnsStabilityTest::new("127.0.0.1:1080", names(domains), 1000, duration).start();
    match action {
        DnsAction::Associate => {
            assert!(run.is_opening());
            let action = run.step(DnsEvent::Associated { now: 0 });
            assert!(!run.is_opening());
            (run, action)
        }
        other => (run, other),
    }
}

fn tick(run: &mut DnsStabilityRun, now: u64) -> usize {
    match run.step(DnsEvent::Ticked { now }) {
        DnsAction::Query { index, packet } => {
            assert_eq!(packet, create_dns_query_packet(run.domain(index)).unwrap());
            index
        }
        _ => panic!("expected a query"),
    }
}

#[test]
fn dns_settings_are_kept() {
    let test = DnsStabilityTest::new("127.0.0.1:1080", names(&["a"]), 250, 60);
    assert_eq!(test.proxy_addr(), "127.0.0.1:1080");
    assert_eq!(test.query_interval_ms(), 250);
    assert_eq!(test.test_duration_sec(), 60);
    assert_eq!(DNS_SERVER, "8.8.8.8:53");
}

#[test]
fn query_packet_layout() {
    let packet = create_dns_query_packet("google.com").unwrap();
    let mut expected = vec![0x12, 0x34, 0x01, 0x00, 0x00, 0x01, 0, 0, 0, 0, 0, 0];
    expected.push(6);
    expected.extend_from_slice(b"google");
    expected.push(3);
    expected.extend_from_slice(b"com");
    expected.extend_from_slice(&[0, 0, 1, 0, 1]);
    assert_eq!(packet, expected);
}

#[test]
fn query_packet_keeps_empty_labels() {
    let header = [0x12, 0x34, 0x01, 0x00, 0x00, 0x01, 0, 0, 0, 0, 0, 0];
    let tail = [0, 0, 1, 0, 1];
    let body = |packet: Vec<u8>| {
        assert_eq!(packet[..12], header);
        assert_eq!(packet[packet.len() - 5..], tail);
        packet[12..packet.len() - 5].to_vec()
    };
    assert_eq!(body(create_dns_query_packet("").unwrap()), vec![0]);
    assert_eq!(body(create_dns_query_packet("a").unwrap()), vec![1, b'a']);
    assert_eq!(body(create_dns_query_packet("a.").unwrap()), vec![1, b'a', 0]);
    assert_eq!(body(create_dns_query_packet(".a").unwrap()), vec![0, 1, b'a']);
    assert_eq!(body(create_dns_query_packet("a..b").unwrap()), vec![1, b'a', 0, 1, b'b']);
    assert_eq!(body(create_dns_query_packet("www.a.io").unwrap()), b"\x03www\x01a\x02io".to_vec());
}

#[test]
fn query_packet_refuses_a_long_label() {
    let long = "a".repeat(64);
    for domain in [long.clone(), format!("www.{}.com", long), format!("www.{}", long)] {
        match create_dns_query_packet(&domain) {
            Err(NetworkTestError::Config(text)) => assert_eq!(text, "Domain part too long"),
            other => panic!("unexpected {:?}", other),
        }
    }
    let fits = "a".repeat(63);
    let packet = create_dns_query_packet(&format!("{}.com", fits)).unwrap();
    assert_eq!(packet[12], 63);
}

#[test]
fn response_check() {
    let mut response = [0u8; 512];
    response[3] = 0x80;
    assert!(check_dns_response(&response, 12).is_ok());
    assert!(check_dns_response(&response, 40).is_ok());
    match check_dns_response(&response, 11) {
        Err(NetworkTestError::Connection(text)) => assert_eq!(text, "Invalid DNS response"),
        other => panic!("unexpected {:?}", other),
    }
    response[3] = 0x83;
    match check_dns_response(&response, 12) {
        Err(NetworkTestError::Connection(text)) => {
            assert_eq!(text, "DNS query failed with code: 3")
        }
        other => panic!("unexpected {:?}", other),
    }
    response[3] = 0x0f;
    match check_dns_response(&response, 12) {
        Err(NetworkTestError::Connection(text)) => {
            assert_eq!(text, "DNS query failed with code: 15")
        }
        other => panic!("unexpected {:?}", other),
    }
}

#[test]
fn failures_are_told_from_timeouts_by_kind() {
    assert_eq!(classify_failure(&NetworkTestError::Timeout("t".into())), QueryOutcome::TimedOut);
    assert_eq!(
        classify_failure(&NetworkTestError::Connection("timeout".into())),
        QueryOutcome::Failed
    );
    assert_eq!(classify_failure(&NetworkTestError::Socks5("x".into())), QueryOutcome::Failed);
    assert_eq!(classify_failure(&NetworkTestError::Config("x".into())), QueryOutcome::Failed);
    let io = std::io::Error::new(std::io::ErrorKind::TimedOut, "timed out");
    assert_eq!(classify_failure(&NetworkTestError::Io(io)), QueryOutcome::Failed);
}

#[test]
fn no_domains_no_queries() {
    let (run, action) = started(&[], 60);
    assert!(matches!(action, DnsAction::Finish));
    assert_eq!(run.awaiting(), Awaiting::Done);
    let result = run.result();
    assert_eq!(result.total_queries, 0);
    assert_eq!(result.successful_queries, 0);
    assert_eq!(result.failed_queries, 0);
    assert_eq!(result.timeout_queries, 0);
    assert!(result.domain_results.is_empty());
    assert_eq!(result.average_query_time, 0);
    assert_eq!(result.min_query_time, 0);
    assert_eq!(result.max_query_time, 0);
    assert_eq!(result.success_rate, 0);
}

#[test]
fn domains_are_queried_in_turn() {
    let (mut run, action) = started(&["a", "b", "c"], 3);
    assert!(matches!(action, DnsAction::WaitTick { interval_ms: 1000 }));
    let mut order = Vec::new();
    let mut now = 0;
    loop {
        order.push(tick(&mut run, now));
        let outcome = QueryOutcome::Success(20 * MS);
        now += SEC;
        match run.step(DnsEvent::Settled { now, outcome }) {
            DnsAction::WaitTick { interval_ms } => assert_eq!(interval_ms, 1000),
            DnsAction::Finish => break,
            _ => panic!("unexpected action"),
        }
    }
    assert_eq!(order, vec![0, 1, 2]);
    let result = run.result();
    assert_eq!(result.total_queries, 3);
    assert_eq!(result.domain_results.len(), 3);
    for (entry, name) in result.domain_results.iter().zip(["a", "b", "c"]) {
        assert_eq!(entry.domain, name);
        assert_eq!(entry.total_queries, 1);
        assert_eq!(entry.successful_queries, 1);
        assert_eq!(entry.failed_queries, 0);
        assert_eq!(entry.average_query_time, 20 * MS);
        assert_eq!(entry.query_times, vec![20 * MS]);
    }
    assert_eq!(result.success_rate, 1_000_000);
    assert_eq!(calculate_dns_score(&result), 100_000);
}

#[test]
fn counters_add_up() {
    let (mut run, _) = started(&["a.example", "b.example"], 3600);
    let outcomes = [
        QueryOutcome::Success(10 * MS),
        QueryOutcome::Failed,
        QueryOutcome::Success(30 * MS),
        QueryOutcome::TimedOut,
        QueryOutcome::Success(50 * MS),
        QueryOutcome::Success(70 * MS),
        QueryOutcome::TimedOut,
    ];
    let mut now = 0;
    for (k, outcome) in outcomes.iter().enumerate() {
        assert_eq!(tick(&mut run, now), k % 2);
        now += 100 * MS;
        assert!(matches!(
            run.step(DnsEvent::Settled { now, outcome: *outcome }),
            DnsAction::WaitTick { .. }
        ));
    }
    let result = run.result();
    assert_eq!(result.total_queries, 7);
    assert_eq!(result.successful_queries, 4);
    assert_eq!(result.failed_queries, 1);
    assert_eq!(result.timeout_queries, 2);
    assert_eq!(
        result.successful_queries + result.failed_queries + result.timeout_queries,
        result.total_queries
    );
    assert_eq!(result.average_query_time, 40 * MS);
    assert_eq!(result.min_query_time, 10 * MS);
    assert_eq!(result.max_query_time, 70 * MS);
    assert_eq!(result.success_rate, 571_428);
    let a = &result.domain_results[0];
    assert_eq!((a.total_queries, a.successful_queries, a.failed_queries), (4, 3, 1));
    assert_eq!(a.query_times, vec![10 * MS, 30 * MS, 50 * MS]);
    assert_eq!(a.average_query_time, 30 * MS);
    let b = &result.domain_results[1];
    assert_eq!((b.total_queries, b.successful_queries, b.failed_queries), (3, 1, 2));
    assert_eq!(b.query_times, vec![70 * MS]);
    // rates 750000 and 333333 ppm: mean 541666.5, deviation 208333.5
    assert_eq!(calculate_domain_consistency(&result), 100_000 - 38_461);
    // success 57.142, speed 100, timeouts 0 (28.571 % timed out), consistency 61.539
    assert_eq!(calculate_dns_score(&result), (57_142 * 40 + 100_000 * 30 + 61_539 * 10) / 100);
}

#[test]
fn a_query_under_way_is_counted() {
    let (mut run, _) = started(&["a"], 60);
    tick(&mut run, 0);
    let result = run.result();
    assert_eq!(result.total_queries, 1);
    assert_eq!(result.successful_queries + result.failed_queries + result.timeout_queries, 0);
    assert_eq!(result.domain_results[0].total_queries, 1);
}

#[test]
fn a_domain_named_twice_has_one_entry() {
    let (mut run, _) = started(&["a", "b", "a"], 3600);
    let mut now = 0;
    for k in 0..6 {
        assert_eq!(tick(&mut run, now), k % 3);
        now += MS;
        run.step(DnsEvent::Settled { now, outcome: QueryOutcome::Success(MS) });
    }
    let result = run.result();
    assert_eq!(result.domain_results.len(), 2);
    assert_eq!(result.domain_results[0].domain, "a");
    assert_eq!(result.domain_results[0].total_queries, 4);
    assert_eq!(result.domain_results[1].domain, "b");
    assert_eq!(result.domain_results[1].total_queries, 2);
}

#[test]
fn a_domain_that_cannot_be_asked_for_counts_as_failed() {
    let long = "x".repeat(70);
    let (mut run, _) = started(&[&long, "ok.example"], 3600);
    assert!(matches!(run.step(DnsEvent::Ticked { now: 0 }), DnsAction::WaitTick { .. }));
    assert_eq!(tick(&mut run, SEC), 1);
    run.step(DnsEvent::Settled { now: SEC + MS, outcome: QueryOutcome::Success(MS) });
    let result = run.result();
    assert_eq!(result.total_queries, 2);
    assert_eq!(result.failed_queries, 1);
    assert_eq!(result.successful_queries, 1);
    assert_eq!(result.domain_results[0].failed_queries, 1);
}

#[test]
fn dns_run_ends_at_the_deadline() {
    let (run, action) = started(&["a"], 0);
    assert!(matches!(action, DnsAction::Finish));
    assert_eq!(run.result().total_queries, 0);
    let (mut run, _) = started(&["a"], 1);
    tick(&mut run, 0);
    assert!(matches!(
        run.step(DnsEvent::Settled { now: SEC, outcome: QueryOutcome::TimedOut }),
        DnsAction::Finish
    ));
    let result = run.result();
    assert_eq!(result.timeout_queries, 1);
    // success 0, speed 100 (no query time), timeouts 0, one domain: consistency 100
    assert_eq!(calculate_dns_score(&result), 40_000);
}

#[test]
fn the_association_is_opened_once_at_the_start() {
    let test = DnsStabilityTest::new("127.0.0.1:1080", names(&["a", "b"]), 1000, 60);
    let (mut run, action) = test.start();
    assert!(matches!(action, DnsAction::Associate));
    assert!(matches!(
        run.step(DnsEvent::Associated { now: 5 * MS }),
        DnsAction::WaitTick { interval_ms: 1000 }
    ));
    for k in 0..4 {
        assert_eq!(tick(&mut run, k * SEC), (k % 2) as usize);
        let action = run.step(DnsEvent::Settled {
            now: k * SEC + MS,
            outcome: QueryOutcome::Success(MS),
        });
        assert!(matches!(action, DnsAction::WaitTick { .. }));
    }
    assert_eq!(run.result().total_queries, 4);
}

#[test]
fn a_failed_association_is_fatal() {
    let test = DnsStabilityTest::new("127.0.0.1:1080", names(&["a"]), 1000, 60);
    let (mut run, _) = test.start();
    let action = run.step(DnsEvent::AssociateFailed {
        now: MS,
        reason: "SOCKS5 error: Command not supported".into(),
    });
    match action {
        DnsAction::Abort(NetworkTestError::Connection(text)) => assert_eq!(
            text,
            "Failed to create UDP association: SOCKS5 error: Command not supported"
        ),
        _ => panic!("expected an abort"),
    }
    assert_eq!(run.awaiting(), Awaiting::Done);
    assert_eq!(run.result().total_queries, 0);
}

#[test]
fn an_association_that_comes_too_late_ends_the_run() {
    let test = DnsStabilityTest::new("127.0.0.1:1080", names(&["a"]), 1000, 1);
    let (mut run, _) = test.start();
    assert!(matches!(run.step(DnsEvent::Associated { now: 2 * SEC }), DnsAction::Finish));
    assert_eq!(run.result().total_queries, 0);
}

#[test]
fn a_dns_run_accepts_only_what_it_waits_for() {
    let test = DnsStabilityTest::new("127.0.0.1:1080", names(&["a"]), 1000, 60);
    let (mut run, _) = test.start();
    assert!(run.accepts(&DnsEvent::Associated { now: 0 }));
    assert!(!run.accepts(&DnsEvent::Ticked { now: 0 }));
    run.step(DnsEvent::Associated { now: 0 });
    assert!(!run.accepts(&DnsEvent::Associated { now: 0 }));
    assert!(run.accepts(&DnsEvent::Ticked { now: 0 }));
    assert!(!run.accepts(&DnsEvent::Settled { now: 0, outcome: QueryOutcome::Failed }));
    run.step(DnsEvent::Ticked { now: 0 });
    assert!(run.accepts(&DnsEvent::Settled { now: 0, outcome: QueryOutcome::Failed }));
    assert!(!run.accepts(&DnsEvent::Ticked { now: 0 }));
}
