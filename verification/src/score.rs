//! The scoring rules: what each probe's result is worth on a scale from 0
//! to 100, and what a run is worth overall.
//!
//! Scores are kept in thousandths of a point, rates in parts per million,
//! and every division rounds down.

use crate::clock::NANOS_PER_MILLI;
use crate::clock::NANOS_PER_SEC;
use crate::probes::bandwidth::BandwidthResult;
use crate::probes::bandwidth::SpeedSample;
use crate::probes::connection_perf::ConnectionPerfResult;
use crate::probes::dns_stability::DnsStabilityResult;
use crate::probes::network_jitter::NetworkJitterResult;
use crate::probes::network_jitter::TargetJitterResult;
use crate::probes::tcp_stability::TcpStabilityResult;
use crate::stats::coefficient_of_variation;
use crate::stats::share;
use crate::stats::variation;
use crate::stats::variation_at_most;
use crate::stats::variation_within;
use vstd::prelude::*;

verus! {

/// One point, in the unit of scores.
pub const POINT: u64 = 1000;

/// The full score of 100 points.
pub const FULL: u64 = 100_000;

/// `x`, but no less than zero and no more than the full score.
pub open spec fn clamp(x: int) -> int {
    if x < 0 {
        0
    } else if x > FULL {
        FULL as int
    } else {
        x
    }
}

/// What is left of the full score after `x` is taken off, but no less
/// than zero.
pub open spec fn remainder(x: int) -> int {
    if x >= FULL {
        0
    } else if x <= 0 {
        FULL as int
    } else {
        FULL - x
    }
}

/// Four part scores under four weights that add up to 100.
pub open spec fn weighted(a: int, wa: int, b: int, wb: int, c: int, wc: int, d: int, wd: int)
    -> int {
    clamp((a * wa + b * wb + c * wc + d * wd) / 100)
}

/// Four part scores under four weights.
fn weigh(a: u64, wa: u64, b: u64, wb: u64, c: u64, wc: u64, d: u64, wd: u64) -> (r: u64)
    requires
        a <= FULL,
        b <= FULL,
        c <= FULL,
        d <= FULL,
        wa + wb + wc + wd == 100,
    ensures
        r == weighted(a as int, wa as int, b as int, wb as int, c as int, wc as int, d as int, wd as int),
        r <= FULL,
{
    assert(a * wa <= FULL * wa && b * wb <= FULL * wb && c * wc <= FULL * wc && d * wd <= FULL
        * wd) by (nonlinear_arith)
        requires
            a <= FULL,
            b <= FULL,
            c <= FULL,
            d <= FULL,
            wa >= 0,
            wb >= 0,
            wc >= 0,
            wd >= 0,
    ;
    let sum = a * wa + b * wb + c * wc + d * wd;
    sum / 100
}

/// The score of a TCP-stability result: the share of heartbeats that
/// succeeded, times `1 / (1 + 0.1 * reconnections)`, times 100; zero where
/// no heartbeat was sent.
pub open spec fn tcp_stability_score_of(successful: int, total: int, reconnections: int) -> int {
    if total <= 0 {
        0
    } else {
        clamp(FULL * 10 * successful / (total * (10 + reconnections)))
    }
}

/// The share of the probe's duration in which the tunnel stood, in parts
/// per million; zero where the tunnel was down for as long as the probe
/// lasted, or longer.
pub open spec fn uptime_of(duration_sec: int, downtime_ns: int) -> int {
    let duration_ns = duration_sec * NANOS_PER_SEC;
    if duration_ns > downtime_ns {
        (duration_ns - downtime_ns) * 1_000_000 / duration_ns
    } else {
        0
    }
}

/// The score of a TCP-stability result.
pub fn tcp_stability_score(result: &TcpStabilityResult) -> (score: u64)
    ensures
        score == tcp_stability_score_of(
            result.successful_heartbeats as int,
            result.total_heartbeats as int,
            result.reconnections as int,
        ),
        score <= FULL,
{
    if result.total_heartbeats == 0 {
        return 0;
    }
    let successful = result.successful_heartbeats as u128;
    let total = result.total_heartbeats as u128;
    let steadiness = 10 + result.reconnections as u128;
    assert(FULL * 10 * successful <= 1_000_000 * u64::MAX) by (nonlinear_arith)
        requires
            successful <= u64::MAX,
            FULL == 100_000,
    ;
    let numerator = (FULL as u128) * 10 * successful;
    match total.checked_mul(steadiness) {
        Some(denominator) => {
            assert(total * steadiness > 0) by (nonlinear_arith)
                requires
                    total >= 1,
                    steadiness >= 10,
            ;
            let quotient = numerator / denominator;
            if quotient > FULL as u128 {
                FULL
            } else {
                quotient as u64
            }
        },
        None => {
            assert(numerator as int / (total * steadiness) == 0) by (nonlinear_arith)
                requires
                    0 <= numerator <= u128::MAX,
                    total * steadiness > u128::MAX,
            ;
            0
        },
    }
}

/// The share of the probe's duration in which the tunnel stood.
pub fn uptime_ppm(duration_sec: u64, downtime_ns: u128) -> (r: u64)
    ensures
        r == uptime_of(duration_sec as int, downtime_ns as int),
        r <= 1_000_000,
{
    assert(duration_sec * NANOS_PER_SEC <= u64::MAX * 1_000_000_000) by (nonlinear_arith)
        requires
            duration_sec <= u64::MAX,
            NANOS_PER_SEC == 1_000_000_000,
    ;
    let duration_ns = (duration_sec as u128) * (NANOS_PER_SEC as u128);
    if duration_ns > downtime_ns {
        let up = duration_ns - downtime_ns;
        assert(up * 1_000_000 <= u128::MAX) by (nonlinear_arith)
            requires
                up <= u64::MAX * 1_000_000_000,
        ;
        let scaled = up * 1_000_000;
        assert(scaled / duration_ns <= 1_000_000) by (nonlinear_arith)
            requires
                scaled == up * 1_000_000,
                0 <= up <= duration_ns,
                duration_ns > 0,
        ;
        (scaled / duration_ns) as u64
    } else {
        0
    }
}

/// The score of a bandwidth result with `samples` samples, uploads and
/// downloads together: `1 / (1 + 0.2 * interruptions)`, times the share of
/// samples that count no damage, times 100; zero where there is no sample.
pub open spec fn bandwidth_score_of(samples: int, errors: int, interruptions: int) -> int {
    if samples <= 0 || errors >= samples {
        0
    } else {
        clamp(FULL * 5 * (samples - errors) / ((5 + interruptions) * samples))
    }
}

/// The score of a bandwidth result.
pub fn bandwidth_score(result: &BandwidthResult) -> (score: u64)
    ensures
        score == bandwidth_score_of(
            (result.upload_samples@.len() + result.download_samples@.len()) as int,
            result.data_integrity_errors as int,
            result.connection_interruptions as int,
        ),
        score <= FULL,
{
    let samples = result.upload_samples.len() as u128 + result.download_samples.len() as u128;
    let errors = result.data_integrity_errors as u128;
    if samples == 0 || errors >= samples {
        return 0;
    }
    let intact = samples - errors;
    assert(FULL * 5 * intact <= 500_000 * (2 * u64::MAX)) by (nonlinear_arith)
        requires
            intact <= 2 * u64::MAX,
            FULL == 100_000,
    ;
    let numerator = (FULL as u128) * 5 * intact;
    let steadiness = 5 + result.connection_interruptions as u128;
    match steadiness.checked_mul(samples) {
        Some(denominator) => {
            assert(steadiness * samples > 0) by (nonlinear_arith)
                requires
                    samples >= 1,
                    steadiness >= 5,
            ;
            let quotient = numerator / denominator;
            if quotient > FULL as u128 {
                FULL
            } else {
                quotient as u64
            }
        },
        None => {
            assert(numerator as int / (steadiness * samples) == 0) by (nonlinear_arith)
                requires
                    0 <= numerator <= u128::MAX,
                    steadiness * samples > u128::MAX,
            ;
            0
        },
    }
}

/// The part score for the share of `part` in `whole`: 100 points for all
/// of it.
pub open spec fn share_score(part: int, whole: int) -> int {
    clamp(share(part, whole, FULL as int))
}

/// The part score for the share of `part` in `whole`.
fn score_share(part: u64, whole: u64) -> (r: u64)
    ensures
        r == share_score(part as int, whole as int),
        r <= FULL,
{
    if whole == 0 {
        return 0;
    }
    assert(part * FULL <= u64::MAX * FULL) by (nonlinear_arith)
        requires
            part <= u64::MAX,
    ;
    let quotient = (part as u128) * (FULL as u128) / (whole as u128);
    if quotient > FULL as u128 {
        FULL
    } else {
        quotient as u64
    }
}

/// The part score for the mean time of a CONNECT: 100 points up to half a
/// second, 70 up to two seconds, 40 up to five seconds, else 10.
pub open spec fn connect_speed_score(average_ns: int) -> int {
    if average_ns <= 500 * NANOS_PER_MILLI {
        100 * POINT
    } else if average_ns <= 2 * NANOS_PER_SEC {
        70 * POINT
    } else if average_ns <= 5 * NANOS_PER_SEC {
        40 * POINT
    } else {
        10 * POINT
    }
}

/// The part score for how alike the times of the CONNECTs are: 100 points
/// for fewer than two times or a coefficient of variation up to 0.1, 70 for
/// one up to 0.3, else 30.
pub open spec fn connect_consistency_score(times: Seq<u64>) -> int {
    if times.len() <= 1 || variation_at_most(times, 1, 10) {
        100 * POINT
    } else if variation_at_most(times, 3, 10) {
        70 * POINT
    } else {
        30 * POINT
    }
}

/// The part score for the greatest reliable concurrency level: two points
/// for each connection, up to 100.
pub open spec fn concurrency_score(level: int) -> int {
    clamp(level * 2 * POINT)
}

/// The score of a connection-performance result: 0.4 of the success
/// score, 0.3 of the speed score, 0.2 of the consistency score and 0.1 of
/// the concurrency score.
pub open spec fn connection_perf_score_of(
    successful: int,
    attempts: int,
    average_ns: int,
    times: Seq<u64>,
    level: int,
) -> int {
    weighted(
        share_score(successful, attempts),
        40,
        connect_speed_score(average_ns),
        30,
        connect_consistency_score(times),
        20,
        concurrency_score(level),
        10,
    )
}

/// The score of a connection-performance result.
pub fn calculate_performance_score(result: &ConnectionPerfResult) -> (score: u64)
    ensures
        score == connection_perf_score_of(
            result.successful_connections as int,
            result.total_attempts as int,
            result.average_connection_time as int,
            result.connection_times@,
            result.max_concurrent_successful as int,
        ),
        score <= FULL,
{
    let success = score_share(
        result.successful_connections as u64,
        result.total_attempts as u64,
    );
    let average = result.average_connection_time;
    let speed = if average <= 500 * NANOS_PER_MILLI {
        100 * POINT
    } else if average <= 2 * NANOS_PER_SEC {
        70 * POINT
    } else if average <= 5 * NANOS_PER_SEC {
        40 * POINT
    } else {
        10 * POINT
    };
    let times = result.connection_times.as_slice();
    let consistency = if times.len() <= 1 || variation_within(times, 1, 10) {
        100 * POINT
    } else if variation_within(times, 3, 10) {
        70 * POINT
    } else {
        30 * POINT
    };
    let level = result.max_concurrent_successful as u64;
    let concurrency = if level > 50 {
        FULL
    } else {
        level * 2 * POINT
    };
    weigh(success, 40, speed, 30, consistency, 20, concurrency, 10)
}

/// The part score for the mean time of a DNS query: 100 points up to 50
/// milliseconds, 80 up to 200, 60 up to 500, 40 up to a second, else 20.
pub open spec fn query_speed_score(average_ns: int) -> int {
    if average_ns <= 50 * NANOS_PER_MILLI {
        100 * POINT
    } else if average_ns <= 200 * NANOS_PER_MILLI {
        80 * POINT
    } else if average_ns <= 500 * NANOS_PER_MILLI {
        60 * POINT
    } else if average_ns <= NANOS_PER_SEC {
        40 * POINT
    } else {
        20 * POINT
    }
}

/// The part score for how alike the values are: the full score less the
/// coefficient of variation, where one whole of variation costs the full
/// score; zero where the variation is undefined.
pub open spec fn alikeness_score(values: Seq<u64>) -> int {
    match variation(values, FULL as int) {
        Some(v) => remainder(v),
        None => 0,
    }
}

/// The share of `part` in `whole` in parts per million, and no more than
/// the greatest `u64`.
pub open spec fn rate_of(part: int, whole: int) -> u64 {
    if share(part, whole, 1_000_000) > u64::MAX {
        u64::MAX
    } else {
        share(part, whole, 1_000_000) as u64
    }
}

/// The success rates of the domains, in parts per million.
pub open spec fn domain_rates(result: DnsStabilityResult) -> Seq<u64> {
    Seq::new(
        result.domain_results@.len(),
        |i: int|
            rate_of(
                result.domain_results@[i].successful_queries as int,
                result.domain_results@[i].total_queries as int,
            ),
    )
}

/// The part score for how alike the domains fare: the full score for
/// fewer than two domains, else the alikeness of their success rates.
pub open spec fn domain_consistency_score(result: DnsStabilityResult) -> int {
    if result.domain_results@.len() <= 1 {
        FULL as int
    } else {
        alikeness_score(domain_rates(result))
    }
}

/// The score of a DNS result: 0.4 of the success score, 0.3 of the speed
/// score, 0.2 of the timeout score, which loses ten points for each percent
/// of queries that timed out, and 0.1 of the consistency score.
pub open spec fn dns_score_of(result: DnsStabilityResult) -> int {
    weighted(
        clamp((result.success_rate / 10) as int),
        40,
        query_speed_score(result.average_query_time as int),
        30,
        remainder(
            10 * share(result.timeout_queries as int, result.total_queries as int, FULL as int),
        ),
        20,
        domain_consistency_score(result),
        10,
    )
}

/// The part score for how alike the values are.
fn score_alikeness(values: &[u64]) -> (r: u64)
    ensures
        r == alikeness_score(values@),
        r <= FULL,
{
    match coefficient_of_variation(values, FULL as u32) {
        Some(v) => if v >= FULL {
            0
        } else {
            FULL - v
        },
        None => 0,
    }
}

/// The part score for how alike the domains fare.
pub fn calculate_domain_consistency(result: &DnsStabilityResult) -> (r: u64)
    ensures
        r == domain_consistency_score(*result),
        r <= FULL,
{
    if result.domain_results.len() <= 1 {
        return FULL;
    }
    let mut rates: Vec<u64> = Vec::new();
    let mut i: usize = 0;
    while i < result.domain_results.len()
        invariant
            i <= result.domain_results@.len(),
            rates@.len() == i,
            forall|k: int| 0 <= k < i ==> rates@[k] == domain_rates(*result)[k],
        decreases result.domain_results@.len() - i,
    {
        let entry = &result.domain_results[i];
        let rate = rate_ppm(entry.successful_queries, entry.total_queries);
        rates.push(rate);
        i = i + 1;
    }
    assert(rates@ =~= domain_rates(*result));
    score_alikeness(rates.as_slice())
}

/// The share of `part` in `whole` in parts per million.
fn rate_ppm(part: u64, whole: u64) -> (r: u64)
    ensures
        r == rate_of(part as int, whole as int),
{
    if whole == 0 {
        return 0;
    }
    assert(part * 1_000_000 <= u64::MAX * 1_000_000) by (nonlinear_arith)
        requires
            part <= u64::MAX,
    ;
    let rate = (part as u128) * 1_000_000 / (whole as u128);
    if rate > u64::MAX as u128 {
        u64::MAX
    } else {
        rate as u64
    }
}

/// The score of a DNS result.
pub fn calculate_dns_score(result: &DnsStabilityResult) -> (score: u64)
    ensures
        score == dns_score_of(*result),
        score <= FULL,
{
    let success = if result.success_rate / 10 > FULL {
        FULL
    } else {
        result.success_rate / 10
    };
    let average = result.average_query_time;
    let speed = if average <= 50 * NANOS_PER_MILLI {
        100 * POINT
    } else if average <= 200 * NANOS_PER_MILLI {
        80 * POINT
    } else if average <= 500 * NANOS_PER_MILLI {
        60 * POINT
    } else if average <= NANOS_PER_SEC {
        40 * POINT
    } else {
        20 * POINT
    };
    let timeouts = timeout_score(result.timeout_queries, result.total_queries);
    let consistency = calculate_domain_consistency(result);
    weigh(success, 40, speed, 30, timeouts, 20, consistency, 10)
}

/// The part score that loses ten points for each percent of `part` in
/// `whole`.
fn timeout_score(part: u64, whole: u64) -> (r: u64)
    ensures
        r == remainder(10 * share(part as int, whole as int, FULL as int)),
        r <= FULL,
{
    if whole == 0 {
        return FULL;
    }
    assert(part * FULL <= u64::MAX * FULL) by (nonlinear_arith)
        requires
            part <= u64::MAX,
    ;
    let rate = (part as u128) * (FULL as u128) / (whole as u128);
    assert(rate <= u64::MAX * FULL) by (nonlinear_arith)
        requires
            rate == (part * FULL) / (whole as int),
            part * FULL <= u64::MAX * FULL,
            whole >= 1,
            part >= 0,
    ;
    let loss = 10 * rate;
    if loss >= FULL as u128 {
        0
    } else {
        FULL - loss as u64
    }
}

/// The part score for the mean round-trip time: 100 points up to 50
/// milliseconds, 80 up to 150, 60 up to 300, 40 up to 500, else 20.
pub open spec fn latency_score(average_ns: int) -> int {
    if average_ns <= 50 * NANOS_PER_MILLI {
        100 * POINT
    } else if average_ns <= 150 * NANOS_PER_MILLI {
        80 * POINT
    } else if average_ns <= 300 * NANOS_PER_MILLI {
        60 * POINT
    } else if average_ns <= 500 * NANOS_PER_MILLI {
        40 * POINT
    } else {
        20 * POINT
    }
}

/// The part score for the jitter: 100 points up to 10 milliseconds, 80 up
/// to 30, 60 up to 100, 40 up to 200, else 20.
pub open spec fn jitter_score(jitter_ns: int) -> int {
    if jitter_ns <= 10 * NANOS_PER_MILLI {
        100 * POINT
    } else if jitter_ns <= 30 * NANOS_PER_MILLI {
        80 * POINT
    } else if jitter_ns <= 100 * NANOS_PER_MILLI {
        60 * POINT
    } else if jitter_ns <= 200 * NANOS_PER_MILLI {
        40 * POINT
    } else {
        20 * POINT
    }
}

/// The part score for how alike the round-trip times are: the full score
/// for fewer than two samples, else their alikeness.
pub open spec fn latency_consistency_score(samples: Seq<u64>) -> int {
    if samples.len() <= 1 {
        FULL as int
    } else {
        alikeness_score(samples)
    }
}

/// The score of a jitter result: 0.3 of the loss score, which loses ten
/// points for each percent of pings lost, 0.3 of the latency score, 0.25
/// of the jitter score and 0.15 of the consistency score.
pub open spec fn network_quality_score_of(result: NetworkJitterResult) -> int {
    weighted(
        remainder(result.packet_loss_rate as int),
        30,
        latency_score(result.average_rtt as int),
        30,
        jitter_score(result.jitter as int),
        25,
        latency_consistency_score(result.rtt_samples@),
        15,
    )
}

/// The part score for how alike the round-trip times are.
pub fn calculate_latency_consistency(result: &NetworkJitterResult) -> (r: u64)
    ensures
        r == latency_consistency_score(result.rtt_samples@),
        r <= FULL,
{
    if result.rtt_samples.len() <= 1 {
        FULL
    } else {
        score_alikeness(result.rtt_samples.as_slice())
    }
}

/// The score of a jitter result.
pub fn calculate_network_quality_score(result: &NetworkJitterResult) -> (score: u64)
    ensures
        score == network_quality_score_of(*result),
        score <= FULL,
{
    let loss = if result.packet_loss_rate >= FULL {
        0
    } else {
        FULL - result.packet_loss_rate
    };
    let average = result.average_rtt;
    let latency = if average <= 50 * NANOS_PER_MILLI {
        100 * POINT
    } else if average <= 150 * NANOS_PER_MILLI {
        80 * POINT
    } else if average <= 300 * NANOS_PER_MILLI {
        60 * POINT
    } else if average <= 500 * NANOS_PER_MILLI {
        40 * POINT
    } else {
        20 * POINT
    };
    let spread = result.jitter;
    let steadiness = if spread <= 10 * NANOS_PER_MILLI {
        100 * POINT
    } else if spread <= 30 * NANOS_PER_MILLI {
        80 * POINT
    } else if spread <= 100 * NANOS_PER_MILLI {
        60 * POINT
    } else if spread <= 200 * NANOS_PER_MILLI {
        40 * POINT
    } else {
        20 * POINT
    };
    let consistency = calculate_latency_consistency(result);
    weigh(loss, 30, latency, 30, steadiness, 25, consistency, 15)
}

/// The weight of the TCP-stability score in the overall score, in percent.
pub const WEIGHT_TCP: u64 = 25;

/// The weight of the bandwidth score.
pub const WEIGHT_BANDWIDTH: u64 = 20;

/// The weight of the connection-performance score.
pub const WEIGHT_CONNECTION: u64 = 20;

/// The weight of the DNS score.
pub const WEIGHT_DNS: u64 = 15;

/// The weight of the jitter score.
pub const WEIGHT_JITTER: u64 = 20;

/// What a score adds to the weighted sum: the score times its weight
/// where the probe ran, nothing where it did not.
pub open spec fn term(score: Option<u64>, weight: u64) -> int {
    match score {
        Some(s) => s * weight,
        None => 0,
    }
}

/// What a score adds to the sum of the weights.
pub open spec fn weight_of(score: Option<u64>, weight: u64) -> int {
    match score {
        Some(_) => weight as int,
        None => 0,
    }
}

/// The overall score: the mean of the scores of the probes that ran, each
/// under its weight, over the sum of those weights; none where no probe ran.
pub open spec fn overall_score_of(
    tcp: Option<u64>,
    bandwidth: Option<u64>,
    connection: Option<u64>,
    dns: Option<u64>,
    jitter: Option<u64>,
) -> Option<int> {
    let weights = weight_of(tcp, WEIGHT_TCP) + weight_of(bandwidth, WEIGHT_BANDWIDTH) + weight_of(
        connection,
        WEIGHT_CONNECTION,
    ) + weight_of(dns, WEIGHT_DNS) + weight_of(jitter, WEIGHT_JITTER);
    if weights == 0 {
        None
    } else {
        Some(
            (term(tcp, WEIGHT_TCP) + term(bandwidth, WEIGHT_BANDWIDTH) + term(
                connection,
                WEIGHT_CONNECTION,
            ) + term(dns, WEIGHT_DNS) + term(jitter, WEIGHT_JITTER)) / weights,
        )
    }
}

/// Whether a score, where there is one, is at most the full score.
pub open spec fn in_range(score: Option<u64>) -> bool {
    score matches Some(s) ==> s <= FULL
}

/// The overall score of scores between 0 and 100 is between 0 and 100.
pub proof fn lemma_overall_in_range(
    tcp: Option<u64>,
    bandwidth: Option<u64>,
    connection: Option<u64>,
    dns: Option<u64>,
    jitter: Option<u64>,
)
    requires
        in_range(tcp),
        in_range(bandwidth),
        in_range(connection),
        in_range(dns),
        in_range(jitter),
    ensures
        overall_score_of(tcp, bandwidth, connection, dns, jitter) matches Some(s) ==> 0 <= s
            <= FULL,
{
    let weights = weight_of(tcp, WEIGHT_TCP) + weight_of(bandwidth, WEIGHT_BANDWIDTH) + weight_of(
        connection,
        WEIGHT_CONNECTION,
    ) + weight_of(dns, WEIGHT_DNS) + weight_of(jitter, WEIGHT_JITTER);
    let sum = term(tcp, WEIGHT_TCP) + term(bandwidth, WEIGHT_BANDWIDTH) + term(
        connection,
        WEIGHT_CONNECTION,
    ) + term(dns, WEIGHT_DNS) + term(jitter, WEIGHT_JITTER);
    if weights > 0 {
        assert(0 <= sum <= FULL * weights);
        assert(0 <= sum / weights <= FULL) by (nonlinear_arith)
            requires
                0 <= sum <= FULL * weights,
                weights > 0,
        ;
    }
}

/// Adds the term of one score to the sums.
fn add_term(sums: (u128, u64), score: Option<u64>, weight: u64) -> (r: (u128, u64))
    requires
        sums.1 + weight <= 100,
        sums.0 <= sums.1 * u64::MAX,
    ensures
        r.0 == sums.0 + term(score, weight),
        r.1 == sums.1 + weight_of(score, weight),
        r.0 <= r.1 * u64::MAX,
{
    match score {
        Some(s) => {
            assert(s * weight <= weight * u64::MAX) by (nonlinear_arith)
                requires
                    s <= u64::MAX,
                    weight >= 0,
            ;
            (sums.0 + (s as u128) * (weight as u128), sums.1 + weight)
        },
        None => sums,
    }
}

/// The overall score of the scores of the probes that ran.
pub fn overall_score(
    tcp: Option<u64>,
    bandwidth: Option<u64>,
    connection: Option<u64>,
    dns: Option<u64>,
    jitter: Option<u64>,
) -> (r: Option<u64>)
    ensures
        match r {
            Some(s) => overall_score_of(tcp, bandwidth, connection, dns, jitter) == Some(s as int),
            None => overall_score_of(tcp, bandwidth, connection, dns, jitter) is None,
        },
        in_range(tcp) && in_range(bandwidth) && in_range(connection) && in_range(dns) && in_range(
            jitter,
        ) ==> in_range(r),
{
    let sums = add_term((0, 0), tcp, WEIGHT_TCP);
    let sums = add_term(sums, bandwidth, WEIGHT_BANDWIDTH);
    let sums = add_term(sums, connection, WEIGHT_CONNECTION);
    let sums = add_term(sums, dns, WEIGHT_DNS);
    let sums = add_term(sums, jitter, WEIGHT_JITTER);
    if sums.1 == 0 {
        None
    } else {
        proof {
            if in_range(tcp) && in_range(bandwidth) && in_range(connection) && in_range(dns)
                && in_range(jitter) {
                lemma_overall_in_range(tcp, bandwidth, connection, dns, jitter);
            }
            let sum = sums.0 as int;
            let weights = sums.1 as int;
            assert(sum / weights <= u64::MAX) by (nonlinear_arith)
                requires
                    0 <= sum <= weights * u64::MAX,
                    weights > 0,
            ;
        }
        Some((sums.0 / (sums.1 as u128)) as u64)
    }
}

/// The five bands of the overall score.
#[derive(Debug, Clone, Copy, PartialEq, Eq, Structural)]
pub enum Rating {
    Excellent,
    Good,
    Fair,
    Poor,
    VeryPoor,
}

/// The band of a score: excellent from 90 points, good from 80, fair from
/// 70, poor from 60, very poor below.
pub open spec fn rating_of(score: u64) -> Rating {
    if score >= 90 * POINT {
        Rating::Excellent
    } else if score >= 80 * POINT {
        Rating::Good
    } else if score >= 70 * POINT {
        Rating::Fair
    } else if score >= 60 * POINT {
        Rating::Poor
    } else {
        Rating::VeryPoor
    }
}

/// The band of a score.
pub fn rating(score: u64) -> (r: Rating)
    ensures
        r == rating_of(score),
{
    if score >= 90 * POINT {
        Rating::Excellent
    } else if score >= 80 * POINT {
        Rating::Good
    } else if score >= 70 * POINT {
        Rating::Fair
    } else if score >= 60 * POINT {
        Rating::Poor
    } else {
        Rating::VeryPoor
    }
}

/// The name of a band.
pub open spec fn rating_text(rating: Rating) -> Seq<char> {
    match rating {
        Rating::Excellent => "Excellent"@,
        Rating::Good => "Good"@,
        Rating::Fair => "Fair"@,
        Rating::Poor => "Poor"@,
        Rating::VeryPoor => "Very Poor"@,
    }
}

/// The name of a band.
pub fn rating_name(rating: Rating) -> (name: &'static str)
    ensures
        name@ == rating_text(rating),
{
    match rating {
        Rating::Excellent => "Excellent",
        Rating::Good => "Good",
        Rating::Fair => "Fair",
        Rating::Poor => "Poor",
        Rating::VeryPoor => "Very Poor",
    }
}

/// The speeds of the samples.
pub open spec fn sample_speeds(samples: Seq<SpeedSample>) -> Seq<u64> {
    Seq::new(samples.len(), |i: int| samples[i].bytes_per_second)
}

/// How alike the upload speeds of a bandwidth result are: the full score
/// for fewer than two samples, else their alikeness.
pub open spec fn speed_consistency_of(result: BandwidthResult) -> int {
    if result.upload_samples@.len() <= 1 {
        FULL as int
    } else {
        alikeness_score(sample_speeds(result.upload_samples@))
    }
}

/// How alike the upload speeds of a bandwidth result are.
pub fn calculate_speed_consistency(result: &BandwidthResult) -> (r: u64)
    ensures
        r == speed_consistency_of(*result),
        r <= FULL,
{
    if result.upload_samples.len() <= 1 {
        return FULL;
    }
    let mut speeds: Vec<u64> = Vec::new();
    let mut i: usize = 0;
    while i < result.upload_samples.len()
        invariant
            i <= result.upload_samples@.len(),
            speeds@.len() == i,
            forall|k: int| 0 <= k < i ==> speeds@[k] == sample_speeds(result.upload_samples@)[k],
        decreases result.upload_samples@.len() - i,
    {
        speeds.push(result.upload_samples[i].bytes_per_second);
        i = i + 1;
    }
    assert(speeds@ =~= sample_speeds(result.upload_samples@));
    score_alikeness(speeds.as_slice())
}

/// The mean round-trip times of the targets that were reached at least
/// once, in the order of the targets.
pub open spec fn reached_averages(targets: Seq<TargetJitterResult>) -> Seq<u64>
    decreases targets.len(),
{
    if targets.len() == 0 {
        Seq::empty()
    } else if targets.last().successful_pings > 0 {
        reached_averages(targets.drop_last()).push(targets.last().average_rtt)
    } else {
        reached_averages(targets.drop_last())
    }
}

/// How alike the targets fare: the full score for fewer than two targets;
/// zero where no target was reached; the full score where every mean
/// round-trip time is zero; else the alikeness of the mean round-trip
/// times of the targets that were reached.
pub open spec fn target_consistency_of(result: NetworkJitterResult) -> int {
    let averages = reached_averages(result.target_results@);
    if result.target_results@.len() <= 1 {
        FULL as int
    } else if averages.len() == 0 {
        0
    } else if crate::stats::total(averages) == 0 {
        FULL as int
    } else {
        alikeness_score(averages)
    }
}

/// How alike the targets fare.
pub fn calculate_target_consistency(result: &NetworkJitterResult) -> (r: u64)
    ensures
        r == target_consistency_of(*result),
        r <= FULL,
{
    if result.target_results.len() <= 1 {
        return FULL;
    }
    let mut averages: Vec<u64> = Vec::new();
    let mut i: usize = 0;
    while i < result.target_results.len()
        invariant
            i <= result.target_results@.len(),
            averages@ == reached_averages(result.target_results@.subrange(0, i as int)),
        decreases result.target_results@.len() - i,
    {
        proof {
            let next = result.target_results@.subrange(0, i + 1);
            assert(next.drop_last() =~= result.target_results@.subrange(0, i as int));
            assert(next.last() == result.target_results@[i as int]);
        }
        if result.target_results[i].successful_pings > 0 {
            averages.push(result.target_results[i].average_rtt);
        }
        i = i + 1;
    }
    assert(result.target_results@.subrange(0, i as int) =~= result.target_results@);
    if averages.len() == 0 {
        0
    } else if crate::stats::sum(averages.as_slice()) == 0 {
        FULL
    } else {
        score_alikeness(averages.as_slice())
    }
}

/// The score of a TCP-stability result depends on nothing but its
/// counters: results with the same counters have the same score.
pub proof fn lemma_tcp_score_is_pure(a: TcpStabilityResult, b: TcpStabilityResult)
    requires
        a.successful_heartbeats == b.successful_heartbeats,
        a.total_heartbeats == b.total_heartbeats,
        a.reconnections == b.reconnections,
    ensures
        tcp_stability_score_of(
            a.successful_heartbeats as int,
            a.total_heartbeats as int,
            a.reconnections as int,
        ) == tcp_stability_score_of(
            b.successful_heartbeats as int,
            b.total_heartbeats as int,
            b.reconnections as int,
        ),
{
}

/// The score of a DNS result depends on nothing but what the result
/// holds: results that hold the same rates, times and counters, for the
/// probe and for each domain, have the same score.
pub proof fn lemma_dns_score_is_pure(a: DnsStabilityResult, b: DnsStabilityResult)
    requires
        a.success_rate == b.success_rate,
        a.average_query_time == b.average_query_time,
        a.timeout_queries == b.timeout_queries,
        a.total_queries == b.total_queries,
        a.domain_results@.len() == b.domain_results@.len(),
        forall|i: int|
            0 <= i < a.domain_results@.len() ==> (#[trigger] a.domain_results@[i]).successful_queries
                == b.domain_results@[i].successful_queries && a.domain_results@[i].total_queries
                == b.domain_results@[i].total_queries,
    ensures
        dns_score_of(a) == dns_score_of(b),
{
    assert(domain_rates(a) =~= domain_rates(b));
}

/// The score of a jitter result depends on nothing but what the result
/// holds: results that hold the same loss rate, mean round-trip time,
/// jitter and samples have the same score.
pub proof fn lemma_network_quality_score_is_pure(a: NetworkJitterResult, b: NetworkJitterResult)
    requires
        a.packet_loss_rate == b.packet_loss_rate,
        a.average_rtt == b.average_rtt,
        a.jitter == b.jitter,
        a.rtt_samples@ == b.rtt_samples@,
    ensures
        network_quality_score_of(a) == network_quality_score_of(b),
{
}

/// The score of a bandwidth result depends on nothing but how many
/// samples it holds and what it counted.
pub proof fn lemma_bandwidth_score_is_pure(a: BandwidthResult, b: BandwidthResult)
    requires
        a.upload_samples@.len() == b.upload_samples@.len(),
        a.download_samples@.len() == b.download_samples@.len(),
        a.data_integrity_errors == b.data_integrity_errors,
        a.connection_interruptions == b.connection_interruptions,
    ensures
        bandwidth_score_of(
            (a.upload_samples@.len() + a.download_samples@.len()) as int,
            a.data_integrity_errors as int,
            a.connection_interruptions as int,
        ) == bandwidth_score_of(
            (b.upload_samples@.len() + b.download_samples@.len()) as int,
            b.data_integrity_errors as int,
            b.connection_interruptions as int,
        ),
{
}

/// The score of a connection-performance result depends on nothing but
/// its counters, its mean time, its times and its greatest reliable level.
pub proof fn lemma_connection_perf_score_is_pure(a: ConnectionPerfResult, b: ConnectionPerfResult)
    requires
        a.successful_connections == b.successful_connections,
        a.total_attempts == b.total_attempts,
        a.average_connection_time == b.average_connection_time,
        a.connection_times@ == b.connection_times@,
        a.max_concurrent_successful == b.max_concurrent_successful,
    ensures
        connection_perf_score_of(
            a.successful_connections as int,
            a.total_attempts as int,
            a.average_connection_time as int,
            a.connection_times@,
            a.max_concurrent_successful as int,
        ) == connection_perf_score_of(
            b.successful_connections as int,
            b.total_attempts as int,
            b.average_connection_time as int,
            b.connection_times@,
            b.max_concurrent_successful as int,
        ),
{
}

} // verus!
