use network_stable_test::metrics::{
    elapsed_seconds, BandwidthMetrics, DnsStabilityMetrics, Metrics, MetricsCollector,
    TcpStabilityMetrics, Timestamp,
};
use network_stable_test::probes::tcp_stability::TcpStabilityResult;
use network_stable_test::report::{OutputFormat, Report};
use network_stable_test::score::{
    overall_score, rating, rating_name, tcp_stability_score, uptime_ppm, Rating,
};

fn tcp_metrics(score: u64) -> TcpStabilityMetrics {
    TcpStabilityMetrics {
        test_duration: 300_000_000_000,
        heartbeat_interval: 30_000_000_000,
        total_heartbeats: 10,
        successful_heartbeats: 9,
        failed_heartbeats: 1,
        reconnections: 1,
        total_downtime: 2_000_000_000,
        uptime_percentage: 993_333,
        average_rtt: 20_000_000,
        min_rtt: 10_000_000,
        max_rtt: 30_000_000,
        rtt_variance: 0,
        stability_score: score,
        connection_drops: Vec::new(),
    }
}

fn bandwidth_metrics(score: u64) -> BandwidthMetrics {
    BandwidthMetrics {
        test_duration: 60_000_000_000,
        chunk_size: 1024,
        total_bytes_sent: 10_240,
        total_bytes_received: 380,
        average_upload_speed: 512_000,
        average_download_speed: 19_000,
        max_upload_speed: 600_000,
        max_download_speed: 20_000,
        min_upload_speed: 400_000,
        min_download_speed: 18_000,
        speed_consistency_score: 90_000,
        connection_interruptions: 0,
        data_integrity_errors: 0,
        bandwidth_score: score,
    }
}

fn dns_metrics(score: u64) -> DnsStabilityMetrics {
    DnsStabilityMetrics {
        test_duration: 60_000_000_000,
        query_interval: 1_000_000_000,
        domains_tested: 3,
        total_queries: 60,
        successful_queries: 60,
        failed_queries: 0,
        timeout_queries: 0,
        success_rate: 1_000_000,
        timeout_rate: 0,
        average_query_time: 20_000_000,
        min_query_time: 10_000_000,
        max_query_time: 30_000_000,
        query_time_variance: 0,
        domain_consistency_score: 100_000,
        dns_score: score,
        per_domain_metrics: Vec::new(),
    }
}

fn session() -> Metrics {
    Metrics::started(
        "session-1".to_string(),
        "127.0.0.1:1080".to_string(),
        Timestamp { secs: 1_700_000_000, nanos: 250_000_000 },
    )
}

#[test]
fn overall_score_weighs_the_probes_that_ran() {
    assert_eq!(overall_score(None, None, None, None, None), None);
    assert_eq!(overall_score(Some(80_000), None, None, None, None), Some(80_000));
    assert_eq!(overall_score(Some(80_000), None, None, Some(60_000), None), Some(72_500));
    assert_eq!(
        overall_score(Some(100_000), Some(100_000), Some(100_000), Some(100_000), Some(100_000)),
        Some(100_000)
    );
    assert_eq!(
        overall_score(Some(90_000), Some(80_000), Some(70_000), Some(60_000), Some(50_000)),
        Some(71_500)
    );
    assert_eq!(overall_score(None, Some(1), Some(2), None, None), Some(1));
    assert_eq!(overall_score(Some(0), Some(0), Some(0), Some(0), Some(0)), Some(0));
}

#[test]
fn rating_bands() {
    assert_eq!(rating(100_000), Rating::Excellent);
    assert_eq!(rating(90_000), Rating::Excellent);
    assert_eq!(rating(89_999), Rating::Good);
    assert_eq!(rating(80_000), Rating::Good);
    assert_eq!(rating(79_999), Rating::Fair);
    assert_eq!(rating(70_000), Rating::Fair);
    assert_eq!(rating(69_999), Rating::Poor);
    assert_eq!(rating(60_000), Rating::Poor);
    assert_eq!(rating(59_999), Rating::VeryPoor);
    assert_eq!(rating(0), Rating::VeryPoor);
    assert_eq!(rating_name(Rating::Excellent), "Excellent");
    assert_eq!(rating_name(Rating::Good), "Good");
    assert_eq!(rating_name(Rating::Fair), "Fair");
    assert_eq!(rating_name(Rating::Poor), "Poor");
    assert_eq!(rating_name(Rating::VeryPoor), "Very Poor");
}

#[test]
fn uptime_in_parts_per_million() {
    assert_eq!(uptime_ppm(300, 0), 1_000_000);
    assert_eq!(uptime_ppm(300, 2_000_000_000), 993_333);
    assert_eq!(uptime_ppm(300, 300_000_000_000), 0);
    assert_eq!(uptime_ppm(300, 400_000_000_000), 0);
    assert_eq!(uptime_ppm(0, 0), 0);
    assert_eq!(uptime_ppm(u64::MAX, 1), 999_999);
}

#[test]
fn a_fresh_record() {
    let metrics = session();
    assert_eq!(metrics.session_id, "session-1");
    assert_eq!(metrics.proxy_config.proxy_address, "127.0.0.1:1080");
    assert_eq!(metrics.proxy_config.proxy_type, "SOCKS5");
    assert!(!metrics.proxy_config.auth_required);
    assert_eq!(metrics.proxy_config.connection_timeout, 5_000_000_000);
    assert_eq!(metrics.test_end_time, None);
    assert_eq!(metrics.overall_score, None);
    assert_eq!(metrics.count_tests_run(), 0);
    assert_eq!(metrics.get_test_duration(), None);
    assert!(metrics.tcp_stability.is_none());
    assert!(metrics.bandwidth.is_none());
    assert!(metrics.connection_perf.is_none());
    assert!(metrics.dns_stability.is_none());
    assert!(metrics.network_jitter.is_none());
}

#[test]
fn a_session_that_begins_now() {
    let first = Metrics::new("127.0.0.1:1080".to_string());
    let second = Metrics::new("127.0.0.1:1080".to_string());
    assert_eq!(first.session_id.len(), 36);
    for (i, c) in first.session_id.chars().enumerate() {
        match i {
            8 | 13 | 18 | 23 => assert_eq!(c, '-'),
            14 => assert_eq!(c, '4'),
            _ => assert!(c.is_ascii_digit() || ('a'..='f').contains(&c), "{} at {}", c, i),
        }
    }
    assert_ne!(first.session_id, second.session_id);
    assert!(first.test_start_time.secs > 1_600_000_000);
    assert!(first.test_start_time.nanos < 1_000_000_000);
    assert_eq!(first.proxy_config.proxy_type, "SOCKS5");
    let mut first = first;
    first.finalize();
    let end = first.test_end_time.unwrap();
    assert!(end.secs >= first.test_start_time.secs);
    assert!(first.get_test_duration().unwrap() < 60);
    assert_eq!(first.overall_score, None);
}

#[test]
fn whole_seconds_between_two_times() {
    let at = |secs, nanos| Timestamp { secs, nanos };
    assert_eq!(elapsed_seconds(at(10, 0), at(10, 0)), 0);
    assert_eq!(elapsed_seconds(at(10, 0), at(11, 0)), 1);
    assert_eq!(elapsed_seconds(at(10, 500_000_000), at(11, 499_999_999)), 0);
    assert_eq!(elapsed_seconds(at(10, 500_000_000), at(11, 500_000_000)), 1);
    assert_eq!(elapsed_seconds(at(11, 0), at(10, 0)), 0);
    assert_eq!(elapsed_seconds(at(-5, 0), at(5, 0)), 10);
    assert_eq!(elapsed_seconds(at(i64::MIN, 0), at(i64::MAX, 999_999_999)), u64::MAX);
}

#[test]
fn finalizing_sets_the_end_and_the_overall_score() {
    let mut metrics = session();
    metrics.tcp_stability = Some(tcp_metrics(80_000));
    metrics.dns_stability = Some(dns_metrics(60_000));
    metrics.finalize_at(Timestamp { secs: 1_700_000_301, nanos: 0 });
    assert_eq!(metrics.test_end_time, Some(Timestamp { secs: 1_700_000_301, nanos: 0 }));
    assert_eq!(metrics.get_test_duration(), Some(300));
    assert_eq!(metrics.overall_score, Some(72_500));
    assert_eq!(metrics.count_tests_run(), 2);
    assert_eq!(metrics.session_id, "session-1");

    let summary = metrics.get_summary();
    assert_eq!(summary.session_id, "session-1");
    assert_eq!(summary.proxy_address, "127.0.0.1:1080");
    assert_eq!(summary.test_duration, Some(300));
    assert_eq!(summary.overall_score, Some(72_500));
    assert_eq!(summary.tests_run, 2);
    assert_eq!(summary.tcp_stability_score, Some(80_000));
    assert_eq!(summary.bandwidth_score, None);
    assert_eq!(summary.connection_perf_score, None);
    assert_eq!(summary.dns_stability_score, Some(60_000));
    assert_eq!(summary.network_quality_score, None);
}

#[test]
fn the_overall_score_stays_where_no_probe_ran() {
    let mut metrics = session();
    metrics.overall_score = Some(12_345);
    metrics.calculate_overall_score();
    assert_eq!(metrics.overall_score, Some(12_345));
    metrics.bandwidth = Some(bandwidth_metrics(50_000));
    metrics.calculate_overall_score();
    assert_eq!(metrics.overall_score, Some(50_000));
}

#[test]
fn the_collector_gathers_and_finalizes() {
    let mut collector = MetricsCollector::from_metrics(session());
    collector.set_tcp_stability_metrics(tcp_metrics(100_000));
    collector.set_bandwidth_metrics(bandwidth_metrics(50_000));
    collector.set_dns_stability_metrics(dns_metrics(100_000));
    assert_eq!(collector.get_metrics().count_tests_run(), 3);
    assert_eq!(collector.get_summary().tests_run, 3);
    assert_eq!(collector.get_summary().overall_score, None);
    let metrics = collector.finalize();
    assert!(metrics.test_end_time.is_some());
    // (100 * 25 + 50 * 20 + 100 * 15) / 60
    assert_eq!(metrics.overall_score, Some(83_333));

    let collector = MetricsCollector::new("10.0.0.1:1080".to_string());
    assert_eq!(collector.get_metrics().proxy_config.proxy_address, "10.0.0.1:1080");
    assert_eq!(collector.get_metrics().session_id.len(), 36);
}

#[test]
fn a_report_is_json_on_standard_output_unless_told_otherwise() {
    let report = Report::new(session());
    assert_eq!(report.format(), OutputFormat::Json);
    assert_eq!(*report.output_file(), None);
    assert_eq!(report.metrics().session_id, "session-1");
    let report = report.with_format(OutputFormat::Html).with_output_file("out/report.html".into());
    assert_eq!(report.format(), OutputFormat::Html);
    assert_eq!(*report.output_file(), Some("out/report.html".to_string()));
    assert_eq!(report.metrics().session_id, "session-1");
    assert_eq!(report.get_rating(95_000), "Excellent");
    assert_eq!(report.get_rating(85_500), "Good");
    assert_eq!(report.get_rating(70_000), "Fair");
    assert_eq!(report.get_rating(65_000), "Poor");
    assert_eq!(report.get_rating(10_000), "Very Poor");
}

fn tcp_result(total: u64, successful: u64, reconnections: u64) -> TcpStabilityResult {
    TcpStabilityResult {
        total_heartbeats: total,
        successful_heartbeats: successful,
        failed_heartbeats: total.saturating_sub(successful),
        reconnections,
        total_downtime: 0,
        average_rtt: 0,
        max_rtt: 0,
        min_rtt: 0,
        connection_drops: Vec::new(),
    }
}

#[test]
fn tcp_scores_by_the_formula() {
    assert_eq!(tcp_stability_score(&tcp_result(0, 0, 0)), 0);
    assert_eq!(tcp_stability_score(&tcp_result(10, 10, 0)), 100_000);
    assert_eq!(tcp_stability_score(&tcp_result(10, 5, 0)), 50_000);
    assert_eq!(tcp_stability_score(&tcp_result(10, 10, 10)), 50_000);
    assert_eq!(tcp_stability_score(&tcp_result(3, 1, 0)), 33_333);
    assert_eq!(tcp_stability_score(&tcp_result(10, 9, 1)), 81_818);
    assert_eq!(tcp_stability_score(&tcp_result(u64::MAX, u64::MAX, u64::MAX)), 0);
    assert_eq!(tcp_stability_score(&tcp_result(u64::MAX, u64::MAX, 0)), 100_000);
}

#[test]
fn scores_stay_between_zero_and_one_hundred() {
    for total in [0u64, 1, 2, 7, 1000, u64::MAX] {
        for successful in [0u64, 1, 5, 1000, u64::MAX] {
            for reconnections in [0u64, 1, 9, u64::MAX] {
                let result = tcp_result(total, successful, reconnections);
                assert!(tcp_stability_score(&result) <= 100_000);
            }
        }
    }
    let scores = [None, Some(0u64), Some(1), Some(99_999), Some(100_000)];
    for a in scores {
        for b in scores {
            for c in scores {
                for d in scores {
                    for e in scores {
                        if let Some(overall) = overall_score(a, b, c, d, e) {
                            assert!(overall <= 100_000);
                        }
                    }
                }
            }
        }
    }
}

#[test]
fn equal_results_score_equal() {
    let first = tcp_result(17, 13, 2);
    let second = first.clone();
    assert_eq!(tcp_stability_score(&first), tcp_stability_score(&second));
    assert_eq!(tcp_stability_score(&first), tcp_stability_score(&first));
    assert_eq!(
        overall_score(Some(1), Some(2), None, Some(4), None),
        overall_score(Some(1), Some(2), None, Some(4), None)
    );
}
