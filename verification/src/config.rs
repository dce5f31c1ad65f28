//! The settings of a run: the proxy, the five probes and the report.

use vstd::prelude::*;
use vstd::string::StringExecFns;

verus! {

/// All settings of a run.
#[derive(Debug, Clone)]
pub struct Config {
    pub proxy: ProxyConfig,
    pub tests: TestConfig,
    pub reporting: ReportingConfig,
}

/// Where the proxy is and how to log in.
#[derive(Debug, Clone)]
pub struct ProxyConfig {
    pub host: String,
    pub port: u16,
    pub username: Option<String>,
    pub password: Option<String>,
    pub timeout_ms: u64,
}

/// The settings of the five probes.
#[derive(Debug, Clone)]
pub struct TestConfig {
    pub tcp_stability: TcpStabilityConfig,
    pub bandwidth: BandwidthConfig,
    pub connection_perf: ConnectionPerfConfig,
    pub dns_stability: DnsStabilityConfig,
    pub network_jitter: NetworkJitterConfig,
}

/// Settings of the TCP-stability probe.
#[derive(Debug, Clone)]
pub struct TcpStabilityConfig {
    pub heartbeat_interval_ms: u64,
    pub test_duration_sec: u64,
    pub max_retries: u32,
    pub targets: Vec<String>,
}

/// Settings of the bandwidth probe.
#[derive(Debug, Clone)]
pub struct BandwidthConfig {
    pub chunk_size: usize,
    pub test_duration_sec: u64,
    pub targets: Vec<String>,
    pub upload_test: bool,
    pub download_test: bool,
}

/// Settings of the connection-performance probe.
#[derive(Debug, Clone)]
pub struct ConnectionPerfConfig {
    pub concurrent_connections: usize,
    pub total_connections: usize,
    pub connection_timeout_ms: u64,
    pub targets: Vec<String>,
}

/// Settings of the DNS probe.
#[derive(Debug, Clone)]
pub struct DnsStabilityConfig {
    pub domains: Vec<String>,
    pub query_interval_ms: u64,
    pub test_duration_sec: u64,
}

/// Settings of the jitter probe.
#[derive(Debug, Clone)]
pub struct NetworkJitterConfig {
    pub ping_interval_ms: u64,
    pub test_duration_sec: u64,
    pub targets: Vec<String>,
}

/// Settings of the report.
#[derive(Debug, Clone)]
pub struct ReportingConfig {
    pub output_format: OutputFormat,
    pub output_file: Option<String>,
    pub real_time_metrics: bool,
    pub detailed_logs: bool,
}

/// The report formats that a configuration can name.
#[derive(Debug, Clone, Copy, PartialEq, Eq, Structural)]
pub enum OutputFormat {
    Json,
    Csv,
    Text,
}

/// The characters of each text of a list.
pub open spec fn texts(list: Vec<String>) -> Seq<Seq<char>> {
    Seq::new(list@.len(), |i: int| list@[i]@)
}

/// A list of one text.
fn one(a: &str) -> (list: Vec<String>)
    ensures
        texts(list) == seq![a@],
{
    let mut list: Vec<String> = Vec::new();
    list.push(String::from_str(a));
    assert(texts(list) =~= seq![a@]);
    list
}

/// A list of two texts.
fn two(a: &str, b: &str) -> (list: Vec<String>)
    ensures
        texts(list) == seq![a@, b@],
{
    let mut list: Vec<String> = Vec::new();
    list.push(String::from_str(a));
    list.push(String::from_str(b));
    assert(texts(list) =~= seq![a@, b@]);
    list
}

/// A list of three texts.
fn three(a: &str, b: &str, c: &str) -> (list: Vec<String>)
    ensures
        texts(list) == seq![a@, b@, c@],
{
    let mut list: Vec<String> = Vec::new();
    list.push(String::from_str(a));
    list.push(String::from_str(b));
    list.push(String::from_str(c));
    assert(texts(list) =~= seq![a@, b@, c@]);
    list
}

impl Config {
    /// Whether `self` holds the default settings: a local proxy on port 1080
    /// without credentials, the five probes against public resolvers and
    /// well-known hosts, and a JSON report on standard output.
    pub open spec fn is_default(&self) -> bool {
        &&& self.proxy.host@ == "127.0.0.1"@
        &&& self.proxy.port == 1080
        &&& self.proxy.username is None
        &&& self.proxy.password is None
        &&& self.proxy.timeout_ms == 5000
        &&& self.tests.tcp_stability.heartbeat_interval_ms == 30000
        &&& self.tests.tcp_stability.test_duration_sec == 300
        &&& self.tests.tcp_stability.max_retries == 3
        &&& texts(self.tests.tcp_stability.targets) == seq!["8.8.8.8:53"@, "1.1.1.1:53"@]
        &&& self.tests.bandwidth.chunk_size == 1024
        &&& self.tests.bandwidth.test_duration_sec == 60
        &&& texts(self.tests.bandwidth.targets) == seq!["httpbin.org:80"@]
        &&& self.tests.bandwidth.upload_test
        &&& self.tests.bandwidth.download_test
        &&& self.tests.connection_perf.concurrent_connections == 10
        &&& self.tests.connection_perf.total_connections == 100
        &&& self.tests.connection_perf.connection_timeout_ms == 5000
        &&& texts(self.tests.connection_perf.targets) == seq!["8.8.8.8:53"@]
        &&& texts(self.tests.dns_stability.domains) == seq![
            "google.com"@,
            "github.com"@,
            "cloudflare.com"@,
        ]
        &&& self.tests.dns_stability.query_interval_ms == 1000
        &&& self.tests.dns_stability.test_duration_sec == 60
        &&& self.tests.network_jitter.ping_interval_ms == 1000
        &&& self.tests.network_jitter.test_duration_sec == 60
        &&& texts(self.tests.network_jitter.targets) == seq!["8.8.8.8:53"@, "1.1.1.1:53"@]
        &&& self.reporting.output_format == OutputFormat::Json
        &&& self.reporting.output_file is None
        &&& self.reporting.real_time_metrics
        &&& !self.reporting.detailed_logs
    }
}

impl Default for Config {
    fn default() -> (c: Config)
        ensures
            c.is_default(),
    {
        Config {
            proxy: ProxyConfig {
                host: String::from_str("127.0.0.1"),
                port: 1080,
                username: None,
                password: None,
                timeout_ms: 5000,
            },
            tests: TestConfig {
                tcp_stability: TcpStabilityConfig {
                    heartbeat_interval_ms: 30000,
                    test_duration_sec: 300,
                    max_retries: 3,
                    targets: two("8.8.8.8:53", "1.1.1.1:53"),
                },
                bandwidth: BandwidthConfig {
                    chunk_size: 1024,
                    test_duration_sec: 60,
                    targets: one("httpbin.org:80"),
                    upload_test: true,
                    download_test: true,
                },
                connection_perf: ConnectionPerfConfig {
                    concurrent_connections: 10,
                    total_connections: 100,
                    connection_timeout_ms: 5000,
                    targets: one("8.8.8.8:53"),
                },
                dns_stability: DnsStabilityConfig {
                    domains: three("google.com", "github.com", "cloudflare.com"),
                    query_interval_ms: 1000,
                    test_duration_sec: 60,
                },
                network_jitter: NetworkJitterConfig {
                    ping_interval_ms: 1000,
                    test_duration_sec: 60,
                    targets: two("8.8.8.8:53", "1.1.1.1:53"),
                },
            },
            reporting: ReportingConfig {
                output_format: OutputFormat::Json,
                output_file: None,
                real_time_metrics: true,
                detailed_logs: false,
            },
        }
    }
}

} // verus!
