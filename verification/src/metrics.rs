//! The record of a session: which proxy, when, what each probe measured,
//! and the overall score.
//!
//! Times are counts of nanoseconds, scores are thousandths of a point and
//! rates are parts per million, as in [`crate::score`].

use crate::score::in_range;
use crate::score::overall_score;
use crate::score::overall_score_of;
use vstd::prelude::*;
use vstd::string::StringExecFns;

verus! {

/// Nanoseconds in a second.
pub const NANOS_PER_SEC: i128 = 1_000_000_000;

/// Default time allowed for the connection to the proxy, in nanoseconds.
pub const DEFAULT_CONNECTION_TIMEOUT_NS: u64 = 5_000_000_000;

/// A point in time: seconds since the start of 1970, UTC, and the
/// nanoseconds into that second.
#[derive(Debug, Clone, Copy, PartialEq, Eq, Structural)]
pub struct Timestamp {
    pub secs: i64,
    pub nanos: u32,
}

/// `Utc::now` of chrono, read through `DateTime::timestamp` and
/// `DateTime::timestamp_subsec_nanos`: the time of the system clock.
/// Nothing is claimed of it. The call fails where the system clock stands
/// before 1970.
#[verifier::external_body]
fn now_utc() -> Timestamp {
    let now = chrono::Utc::now();
    Timestamp { secs: now.timestamp(), nanos: now.timestamp_subsec_nanos() }
}

/// Whether `c` is a hexadecimal digit in lower case.
pub open spec fn is_lower_hex(c: char) -> bool {
    ('0' <= c && c <= '9') || ('a' <= c && c <= 'f')
}

/// Whether `s` has the form of a random identifier: 36 characters, hyphens
/// after the groups of 8, 4, 4 and 4, the version digit `4` at the head of
/// the third group, and hexadecimal digits in lower case elsewhere.
pub open spec fn is_session_id(s: Seq<char>) -> bool {
    &&& s.len() == 36
    &&& forall|i: int| 0 <= i < 36 ==> fits_session_id(i, #[trigger] s[i])
}

/// Whether `c` can stand at index `i` of a random identifier.
pub open spec fn fits_session_id(i: int, c: char) -> bool {
    if i == 8 || i == 13 || i == 18 || i == 23 {
        c == '-'
    } else if i == 14 {
        c == '4'
    } else {
        is_lower_hex(c)
    }
}

/// `Uuid::new_v4` of uuid, written out by its `Display`: a fresh random
/// identifier of version 4 in the hyphenated lower-case form. Which digits
/// come is not claimed. The call fails where the operating system gives no
/// random bytes.
#[verifier::external_body]
fn new_session_id() -> (id: String)
    ensures
        is_session_id(id@),
{
    uuid::Uuid::new_v4().to_string()
}

/// The nanoseconds from the start of 1970 to `t`.
pub open spec fn nanos_of(t: Timestamp) -> int {
    t.secs * NANOS_PER_SEC + t.nanos
}

/// The whole seconds from `start` to `end`: zero where `end` is not later,
/// and no more than the greatest `u64`.
pub open spec fn seconds_between(start: Timestamp, end: Timestamp) -> u64 {
    let elapsed = nanos_of(end) - nanos_of(start);
    if elapsed <= 0 {
        0
    } else if elapsed / (NANOS_PER_SEC as int) > u64::MAX {
        u64::MAX
    } else {
        (elapsed / (NANOS_PER_SEC as int)) as u64
    }
}

/// The whole seconds from `start` to `end`.
pub fn elapsed_seconds(start: Timestamp, end: Timestamp) -> (r: u64)
    ensures
        r == seconds_between(start, end),
{
    let from = (start.secs as i128) * NANOS_PER_SEC + (start.nanos as i128);
    let to = (end.secs as i128) * NANOS_PER_SEC + (end.nanos as i128);
    let elapsed = to - from;
    if elapsed <= 0 {
        0
    } else {
        let seconds = elapsed / NANOS_PER_SEC;
        if seconds > u64::MAX as i128 {
            u64::MAX
        } else {
            seconds as u64
        }
    }
}

/// The proxy of a session.
#[derive(Debug, Clone)]
pub struct ProxyMetrics {
    pub proxy_address: String,
    pub proxy_type: String,
    pub auth_required: bool,
    pub connection_timeout: u64,
}

/// What the TCP-stability probe measured.
#[derive(Debug, Clone)]
pub struct TcpStabilityMetrics {
    pub test_duration: u64,
    pub heartbeat_interval: u64,
    pub total_heartbeats: u64,
    pub successful_heartbeats: u64,
    pub failed_heartbeats: u64,
    pub reconnections: u64,
    pub total_downtime: u128,
    pub uptime_percentage: u64,
    pub average_rtt: u64,
    pub min_rtt: u64,
    pub max_rtt: u64,
    pub rtt_variance: u64,
    pub stability_score: u64,
    pub connection_drops: Vec<ConnectionDropMetrics>,
}

/// One loss of the tunnel.
#[derive(Debug, Clone)]
pub struct ConnectionDropMetrics {
    pub timestamp: Timestamp,
    pub duration: u64,
    pub reason: String,
}

/// What the bandwidth probe measured. Speeds are bytes per second.
#[derive(Debug, Clone)]
pub struct BandwidthMetrics {
    pub test_duration: u64,
    pub chunk_size: usize,
    pub total_bytes_sent: u128,
    pub total_bytes_received: u128,
    pub average_upload_speed: u64,
    pub average_download_speed: u64,
    pub max_upload_speed: u64,
    pub max_download_speed: u64,
    pub min_upload_speed: u64,
    pub min_download_speed: u64,
    pub speed_consistency_score: u64,
    pub connection_interruptions: u64,
    pub data_integrity_errors: u64,
    pub bandwidth_score: u64,
}

/// What the connection-performance probe measured.
#[derive(Debug, Clone)]
pub struct ConnectionPerfMetrics {
    pub total_attempts: usize,
    pub successful_connections: usize,
    pub failed_connections: usize,
    pub success_rate: u64,
    pub average_connection_time: u64,
    pub min_connection_time: u64,
    pub max_connection_time: u64,
    pub median_connection_time: u64,
    pub p95_connection_time: u64,
    pub p99_connection_time: u64,
    pub connection_time_variance: u64,
    pub max_concurrent_successful: usize,
    pub performance_score: u64,
    pub concurrent_results: Vec<ConcurrentMetrics>,
}

/// One concurrency level of the connection-performance probe.
#[derive(Debug, Clone)]
pub struct ConcurrentMetrics {
    pub concurrent_level: usize,
    pub successful_connections: usize,
    pub failed_connections: usize,
    pub success_rate: u64,
    pub average_time: u64,
    pub total_time: u64,
}

/// What the DNS probe measured.
#[derive(Debug, Clone)]
pub struct DnsStabilityMetrics {
    pub test_duration: u64,
    pub query_interval: u64,
    pub domains_tested: usize,
    pub total_queries: u64,
    pub successful_queries: u64,
    pub failed_queries: u64,
    pub timeout_queries: u64,
    pub success_rate: u64,
    pub timeout_rate: u64,
    pub average_query_time: u64,
    pub min_query_time: u64,
    pub max_query_time: u64,
    pub query_time_variance: u64,
    pub domain_consistency_score: u64,
    pub dns_score: u64,
    /// One entry for each distinct domain.
    pub per_domain_metrics: Vec<DomainMetrics>,
}

/// What the DNS probe measured of one domain.
#[derive(Debug, Clone)]
pub struct DomainMetrics {
    pub domain: String,
    pub total_queries: u64,
    pub successful_queries: u64,
    pub failed_queries: u64,
    pub success_rate: u64,
    pub average_query_time: u64,
    pub min_query_time: u64,
    pub max_query_time: u64,
}

/// What the jitter probe measured.
#[derive(Debug, Clone)]
pub struct NetworkJitterMetrics {
    pub test_duration: u64,
    pub ping_interval: u64,
    pub targets_tested: usize,
    pub total_pings: u64,
    pub successful_pings: u64,
    pub failed_pings: u64,
    pub timeout_pings: u64,
    pub packet_loss_rate: u64,
    pub average_rtt: u64,
    pub median_rtt: u64,
    pub min_rtt: u64,
    pub max_rtt: u64,
    pub p95_rtt: u64,
    pub p99_rtt: u64,
    pub jitter: u64,
    pub rtt_variance: u64,
    pub latency_consistency_score: u64,
    pub target_consistency_score: u64,
    pub network_quality_score: u64,
    /// One entry for each distinct target.
    pub per_target_metrics: Vec<TargetMetrics>,
}

/// What the jitter probe measured of one target.
#[derive(Debug, Clone)]
pub struct TargetMetrics {
    pub target: String,
    pub total_pings: u64,
    pub successful_pings: u64,
    pub failed_pings: u64,
    pub packet_loss_rate: u64,
    pub average_rtt: u64,
    pub jitter: u64,
}

/// The record of a session.
#[derive(Debug, Clone)]
pub struct Metrics {
    pub session_id: String,
    pub test_start_time: Timestamp,
    pub test_end_time: Option<Timestamp>,
    pub proxy_config: ProxyMetrics,
    pub tcp_stability: Option<TcpStabilityMetrics>,
    pub bandwidth: Option<BandwidthMetrics>,
    pub connection_perf: Option<ConnectionPerfMetrics>,
    pub dns_stability: Option<DnsStabilityMetrics>,
    pub network_jitter: Option<NetworkJitterMetrics>,
    pub overall_score: Option<u64>,
}

/// The short form of the record of a session.
#[derive(Debug, Clone)]
pub struct MetricsSummary {
    pub session_id: String,
    pub proxy_address: String,
    pub test_duration: Option<u64>,
    pub overall_score: Option<u64>,
    pub tests_run: usize,
    pub tcp_stability_score: Option<u64>,
    pub bandwidth_score: Option<u64>,
    pub connection_perf_score: Option<u64>,
    pub dns_stability_score: Option<u64>,
    pub network_quality_score: Option<u64>,
}

impl Metrics {
    /// The score of the TCP-stability probe, where it ran.
    pub open spec fn tcp_score(&self) -> Option<u64> {
        match self.tcp_stability {
            Some(m) => Some(m.stability_score),
            None => None,
        }
    }

    /// The score of the bandwidth probe, where it ran.
    pub open spec fn bandwidth_score(&self) -> Option<u64> {
        match self.bandwidth {
            Some(m) => Some(m.bandwidth_score),
            None => None,
        }
    }

    /// The score of the connection-performance probe, where it ran.
    pub open spec fn connection_score(&self) -> Option<u64> {
        match self.connection_perf {
            Some(m) => Some(m.performance_score),
            None => None,
        }
    }

    /// The score of the DNS probe, where it ran.
    pub open spec fn dns_score(&self) -> Option<u64> {
        match self.dns_stability {
            Some(m) => Some(m.dns_score),
            None => None,
        }
    }

    /// The score of the jitter probe, where it ran.
    pub open spec fn jitter_score(&self) -> Option<u64> {
        match self.network_jitter {
            Some(m) => Some(m.network_quality_score),
            None => None,
        }
    }

    /// How many probes ran.
    pub open spec fn tests_run(&self) -> int {
        (if self.tcp_stability is Some {
            1int
        } else {
            0int
        }) + (if self.bandwidth is Some {
            1int
        } else {
            0int
        }) + (if self.connection_perf is Some {
            1int
        } else {
            0int
        }) + (if self.dns_stability is Some {
            1int
        } else {
            0int
        }) + (if self.network_jitter is Some {
            1int
        } else {
            0int
        })
    }

    /// The overall score that the scores on record make.
    pub open spec fn overall(&self) -> Option<int> {
        overall_score_of(
            self.tcp_score(),
            self.bandwidth_score(),
            self.connection_score(),
            self.dns_score(),
            self.jitter_score(),
        )
    }

    /// Whether `self` is the record of a session that has just begun: a
    /// SOCKS5 proxy at `proxy_address` without authentication, five seconds
    /// to connect, and nothing measured.
    pub open spec fn is_fresh(&self, proxy_address: Seq<char>) -> bool {
        &&& self.proxy_config.proxy_address@ == proxy_address
        &&& self.proxy_config.proxy_type@ == "SOCKS5"@
        &&& !self.proxy_config.auth_required
        &&& self.proxy_config.connection_timeout == DEFAULT_CONNECTION_TIMEOUT_NS
        &&& self.test_end_time is None
        &&& self.tcp_stability is None
        &&& self.bandwidth is None
        &&& self.connection_perf is None
        &&& self.dns_stability is None
        &&& self.network_jitter is None
        &&& self.overall_score is None
    }

    /// The record of a session that begins now, under a fresh random
    /// session id.
    pub fn new(proxy_address: String) -> (m: Metrics)
        ensures
            m.is_fresh(proxy_address@),
            is_session_id(m.session_id@),
    {
        Metrics::started(new_session_id(), proxy_address, now_utc())
    }

    /// The record of the session `session_id` that began at `start`.
    pub fn started(session_id: String, proxy_address: String, start: Timestamp) -> (m: Metrics)
        ensures
            m.is_fresh(proxy_address@),
            m.session_id == session_id,
            m.test_start_time == start,
    {
        Metrics {
            session_id,
            test_start_time: start,
            test_end_time: None,
            proxy_config: ProxyMetrics {
                proxy_address,
                proxy_type: String::from_str("SOCKS5"),
                auth_required: false,
                connection_timeout: DEFAULT_CONNECTION_TIMEOUT_NS,
            },
            tcp_stability: None,
            bandwidth: None,
            connection_perf: None,
            dns_stability: None,
            network_jitter: None,
            overall_score: None,
        }
    }

    /// Ends the session now: the end time is set to the time of the system
    /// clock, and the overall score is computed.
    pub fn finalize(&mut self)
        ensures
            final(self).test_end_time is Some,
            final(self).overall_score == match old(self).overall() {
                Some(s) => Some(s as u64),
                None => old(self).overall_score,
            },
            *final(self) == (Metrics {
                test_end_time: final(self).test_end_time,
                overall_score: final(self).overall_score,
                ..*old(self)
            }),
    {
        self.finalize_at(now_utc());
    }

    /// Ends the session at `end`, and computes the overall score.
    pub fn finalize_at(&mut self, end: Timestamp)
        ensures
            *final(self) == (Metrics {
                test_end_time: Some(end),
                overall_score: match old(self).overall() {
                    Some(s) => Some(s as u64),
                    None => old(self).overall_score,
                },
                ..*old(self)
            }),
    {
        self.test_end_time = Some(end);
        self.calculate_overall_score();
    }

    /// Computes the overall score from the scores on record. Where no
    /// probe ran, the overall score stays as it was.
    pub fn calculate_overall_score(&mut self)
        ensures
            *final(self) == (Metrics {
                overall_score: match old(self).overall() {
                    Some(s) => Some(s as u64),
                    None => old(self).overall_score,
                },
                ..*old(self)
            }),
            in_range(old(self).tcp_score()) && in_range(old(self).bandwidth_score()) && in_range(
                old(self).connection_score(),
            ) && in_range(old(self).dns_score()) && in_range(old(self).jitter_score()) && old(
                self,
            ).tests_run() > 0 ==> in_range(final(self).overall_score),
    {
        let tcp = match &self.tcp_stability {
            Some(m) => Some(m.stability_score),
            None => None,
        };
        let bandwidth = match &self.bandwidth {
            Some(m) => Some(m.bandwidth_score),
            None => None,
        };
        let connection = match &self.connection_perf {
            Some(m) => Some(m.performance_score),
            None => None,
        };
        let dns = match &self.dns_stability {
            Some(m) => Some(m.dns_score),
            None => None,
        };
        let jitter = match &self.network_jitter {
            Some(m) => Some(m.network_quality_score),
            None => None,
        };
        match overall_score(tcp, bandwidth, connection, dns, jitter) {
            Some(score) => {
                self.overall_score = Some(score);
            },
            None => {},
        }
    }

    /// The whole seconds that the session lasted, once it has ended.
    pub fn get_test_duration(&self) -> (r: Option<u64>)
        ensures
            r == match self.test_end_time {
                Some(end) => Some(seconds_between(self.test_start_time, end)),
                None => None,
            },
    {
        match self.test_end_time {
            Some(end) => Some(elapsed_seconds(self.test_start_time, end)),
            None => None,
        }
    }

    /// How many probes ran.
    pub fn count_tests_run(&self) -> (n: usize)
        ensures
            n == self.tests_run(),
    {
        let mut count: usize = 0;
        if self.tcp_stability.is_some() {
            count = count + 1;
        }
        if self.bandwidth.is_some() {
            count = count + 1;
        }
        if self.connection_perf.is_some() {
            count = count + 1;
        }
        if self.dns_stability.is_some() {
            count = count + 1;
        }
        if self.network_jitter.is_some() {
            count = count + 1;
        }
        count
    }

    /// The short form of the record.
    pub fn get_summary(&self) -> (s: MetricsSummary)
        ensures
            s.session_id == self.session_id,
            s.proxy_address == self.proxy_config.proxy_address,
            s.test_duration == match self.test_end_time {
                Some(end) => Some(seconds_between(self.test_start_time, end)),
                None => None,
            },
            s.overall_score == self.overall_score,
            s.tests_run == self.tests_run(),
            s.tcp_stability_score == self.tcp_score(),
            s.bandwidth_score == self.bandwidth_score(),
            s.connection_perf_score == self.connection_score(),
            s.dns_stability_score == self.dns_score(),
            s.network_quality_score == self.jitter_score(),
    {
        MetricsSummary {
            session_id: self.session_id.clone(),
            proxy_address: self.proxy_config.proxy_address.clone(),
            test_duration: self.get_test_duration(),
            overall_score: self.overall_score,
            tests_run: self.count_tests_run(),
            tcp_stability_score: match &self.tcp_stability {
                Some(m) => Some(m.stability_score),
                None => None,
            },
            bandwidth_score: match &self.bandwidth {
                Some(m) => Some(m.bandwidth_score),
                None => None,
            },
            connection_perf_score: match &self.connection_perf {
                Some(m) => Some(m.performance_score),
                None => None,
            },
            dns_stability_score: match &self.dns_stability {
                Some(m) => Some(m.dns_score),
                None => None,
            },
            network_quality_score: match &self.network_jitter {
                Some(m) => Some(m.network_quality_score),
                None => None,
            },
        }
    }
}

/// Gathers the measurements of a session.
pub struct MetricsCollector {
    metrics: Metrics,
}

impl MetricsCollector {
    /// The record so far.
    pub closed spec fn spec_metrics(&self) -> Metrics {
        self.metrics
    }

    /// A collector for a session that begins now.
    pub fn new(proxy_address: String) -> (c: MetricsCollector)
        ensures
            c.spec_metrics().is_fresh(proxy_address@),
            is_session_id(c.spec_metrics().session_id@),
    {
        MetricsCollector { metrics: Metrics::new(proxy_address) }
    }

    /// A collector that goes on from `metrics`.
    pub fn from_metrics(metrics: Metrics) -> (c: MetricsCollector)
        ensures
            c.spec_metrics() == metrics,
    {
        MetricsCollector { metrics }
    }

    /// Records what the TCP-stability probe measured.
    pub fn set_tcp_stability_metrics(&mut self, metrics: TcpStabilityMetrics)
        ensures
            final(self).spec_metrics() == (Metrics {
                tcp_stability: Some(metrics),
                ..old(self).spec_metrics()
            }),
    {
        self.metrics.tcp_stability = Some(metrics);
    }

    /// Records what the bandwidth probe measured.
    pub fn set_bandwidth_metrics(&mut self, metrics: BandwidthMetrics)
        ensures
            final(self).spec_metrics() == (Metrics {
                bandwidth: Some(metrics),
                ..old(self).spec_metrics()
            }),
    {
        self.metrics.bandwidth = Some(metrics);
    }

    /// Records what the connection-performance probe measured.
    pub fn set_connection_perf_metrics(&mut self, metrics: ConnectionPerfMetrics)
        ensures
            final(self).spec_metrics() == (Metrics {
                connection_perf: Some(metrics),
                ..old(self).spec_metrics()
            }),
    {
        self.metrics.connection_perf = Some(metrics);
    }

    /// Records what the DNS probe measured.
    pub fn set_dns_stability_metrics(&mut self, metrics: DnsStabilityMetrics)
        ensures
            final(self).spec_metrics() == (Metrics {
                dns_stability: Some(metrics),
                ..old(self).spec_metrics()
            }),
    {
        self.metrics.dns_stability = Some(metrics);
    }

    /// Records what the jitter probe measured.
    pub fn set_network_jitter_metrics(&mut self, metrics: NetworkJitterMetrics)
        ensures
            final(self).spec_metrics() == (Metrics {
                network_jitter: Some(metrics),
                ..old(self).spec_metrics()
            }),
    {
        self.metrics.network_jitter = Some(metrics);
    }

    /// Ends the session now and hands out its record, with the overall
    /// score computed.
    pub fn finalize(self) -> (m: Metrics)
        ensures
            m.test_end_time is Some,
            m == (Metrics {
                test_end_time: m.test_end_time,
                overall_score: match self.spec_metrics().overall() {
                    Some(s) => Some(s as u64),
                    None => self.spec_metrics().overall_score,
                },
                ..self.spec_metrics()
            }),
    {
        let mut metrics = self.metrics;
        metrics.finalize();
        metrics
    }

    /// The record so far.
    pub fn get_metrics(&self) -> (m: &Metrics)
        ensures
            *m == self.spec_metrics(),
    {
        &self.metrics
    }

    /// The short form of the record so far.
    pub fn get_summary(&self) -> (s: MetricsSummary)
        ensures
            s.session_id == self.spec_metrics().session_id,
            s.proxy_address == self.spec_metrics().proxy_config.proxy_address,
            s.overall_score == self.spec_metrics().overall_score,
            s.tests_run == self.spec_metrics().tests_run(),
            s.tcp_stability_score == self.spec_metrics().tcp_score(),
            s.bandwidth_score == self.spec_metrics().bandwidth_score(),
            s.connection_perf_score == self.spec_metrics().connection_score(),
            s.dns_stability_score == self.spec_metrics().dns_score(),
            s.network_quality_score == self.spec_metrics().jitter_score(),
            s.test_duration == match self.spec_metrics().test_end_time {
                Some(end) => Some(seconds_between(self.spec_metrics().test_start_time, end)),
                None => None,
            },
    {
        self.metrics.get_summary()
    }
}

} // verus!
