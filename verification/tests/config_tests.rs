use network_stable_test::config::{Config, OutputFormat};
use network_stable_test::decimal::{format_decimal, parse_decimal};

#[test]
fn default_settings() {
    let config = Config::default();
    assert_eq!(config.proxy.host, "127.0.0.1");
    assert_eq!(config.proxy.port, 1080);
    assert_eq!(config.proxy.username, None);
    assert_eq!(config.proxy.password, None);
    assert_eq!(config.proxy.timeout_ms, 5000);
    assert_eq!(config.tests.tcp_stability.heartbeat_interval_ms, 30000);
    assert_eq!(config.tests.tcp_stability.test_duration_sec, 300);
    assert_eq!(config.tests.tcp_stability.max_retries, 3);
    assert_eq!(config.tests.tcp_stability.targets, vec!["8.8.8.8:53", "1.1.1.1:53"]);
    assert_eq!(config.tests.bandwidth.chunk_size, 1024);
    assert_eq!(config.tests.bandwidth.test_duration_sec, 60);
    assert_eq!(config.tests.bandwidth.targets, vec!["httpbin.org:80"]);
    assert!(config.tests.bandwidth.upload_test);
    assert!(config.tests.bandwidth.download_test);
    assert_eq!(config.tests.connection_perf.concurrent_connections, 10);
    assert_eq!(config.tests.connection_perf.total_connections, 100);
    assert_eq!(config.tests.connection_perf.connection_timeout_ms, 5000);
    assert_eq!(config.tests.connection_perf.targets, vec!["8.8.8.8:53"]);
    assert_eq!(
        config.tests.dns_stability.domains,
        vec!["google.com", "github.com", "cloudflare.com"]
    );
    assert_eq!(config.tests.dns_stability.query_interval_ms, 1000);
    assert_eq!(config.tests.dns_stability.test_duration_sec, 60);
    assert_eq!(config.tests.network_jitter.ping_interval_ms, 1000);
    assert_eq!(config.tests.network_jitter.test_duration_sec, 60);
    assert_eq!(config.tests.network_jitter.targets, vec!["8.8.8.8:53", "1.1.1.1:53"]);
    assert_eq!(config.reporting.output_format, OutputFormat::Json);
    assert_eq!(config.reporting.output_file, None);
    assert!(config.reporting.real_time_metrics);
    assert!(!config.reporting.detailed_logs);
}

#[test]
fn decimal_text() {
    assert_eq!(format_decimal(0), "0");
    assert_eq!(format_decimal(9), "9");
    assert_eq!(format_decimal(10), "10");
    assert_eq!(format_decimal(65535), "65535");
    assert_eq!(format_decimal(u64::MAX), "18446744073709551615");
    assert_eq!(parse_decimal("0", 10), Some(0));
    assert_eq!(parse_decimal("10", 10), Some(10));
    assert_eq!(parse_decimal("11", 10), None);
    assert_eq!(parse_decimal("+7", 10), Some(7));
    assert_eq!(parse_decimal("007", 10), Some(7));
    assert_eq!(parse_decimal("", 10), None);
    assert_eq!(parse_decimal("+", 10), None);
    assert_eq!(parse_decimal("++1", 10), None);
    assert_eq!(parse_decimal("1+", 10), None);
    assert_eq!(parse_decimal("-1", 10), None);
    assert_eq!(parse_decimal("\u{663}", 10), None);
    assert_eq!(parse_decimal("18446744073709551615", u64::MAX), Some(u64::MAX));
    assert_eq!(parse_decimal("18446744073709551616", u64::MAX), None);
    assert_eq!(parse_decimal("5", 3), None);
    for n in [0u64, 1, 99, 100, 12345, u64::MAX] {
        assert_eq!(parse_decimal(&format_decimal(n), u64::MAX), Some(n));
    }
}
