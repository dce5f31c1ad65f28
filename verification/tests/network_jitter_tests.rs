use network_stable_test::probes::network_jitter::{
    ping_payload, JitterAction, NetworkJitterRun, NetworkJitterTest,
};
use network_stable_test::probes::round_robin::{Awaiting, QueryOutcome, RoundEvent};
use network_stable_test::score::{calculate_latency_consistency, calculate_network_quality_score};

const SEC: u64 = 1_000_000_000;
const MS: u64 = 1_000_000;

fn started(targets: &[&str], duration: u64) -> (NetworkJitterRun, JitterAction) {
    let targets = targets.iter().map(|s| s.to_string()).collect();
    NetworkJitterTest::new("127.0.0.1:1080", targets, 500, duration).start()
}

fn run_with(targets: &[&str], outcomes: &[QueryOutcome]) -> NetworkJitterRun {
    let (mut run, action) = started(targets, 3600);
    assert_eq!(action, JitterAction::WaitTick { interval_ms: 500 });
    let mut now = 0;
    for (k, outcome) in outcomes.iter().enumerate() {
        match run.step(RoundEvent::Ticked { now }) {
            JitterAction::Ping { index } => assert_eq!(index, k % targets.len()),
            other => panic!("unexpected {:?}", other),
        }
        assert_eq!(run.awaiting(), Awaiting::Query);
        now += 500 * MS;
        assert_eq!(
            run.step(RoundEvent::Settled { now, outcome: *outcome }),
            JitterAction::WaitTick { interval_ms: 500 }
        );
    }
    run
}

#[test]
fn jitter_settings_are_kept() {
    let test = NetworkJitterTest::new("127.0.0.1:1080", vec!["a:1".to_string()], 500, 60);
    assert_eq!(test.proxy_addr(), "127.0.0.1:1080");
    assert_eq!(test.ping_interval_ms(), 500);
    assert_eq!(test.test_duration_sec(), 60);
    assert_eq!(ping_payload(), b"PING\n".to_vec());
}

#[test]
fn no_targets_no_pings() {
    let (run, action) = started(&[], 60);
    assert_eq!(action, JitterAction::Finish);
    let result = run.result();
    assert_eq!(result.total_pings, 0);
    assert_eq!(result.packet_loss_rate, 0);
    assert_eq!(result.jitter, 0);
    assert!(result.target_results.is_empty());
}

#[test]
fn a_single_ping_has_no_jitter() {
    let run = run_with(&["8.8.8.8:53"], &[QueryOutcome::Success(30 * MS)]);
    let result = run.result();
    assert_eq!(result.jitter, 0);
    assert_eq!(result.average_rtt, 30 * MS);
    assert_eq!(result.median_rtt, 30 * MS);
    assert_eq!(result.min_rtt, 30 * MS);
    assert_eq!(result.max_rtt, 30 * MS);
    assert_eq!(result.p95_rtt, 30 * MS);
    assert_eq!(result.p99_rtt, 30 * MS);
    assert_eq!(result.target_results[0].jitter, 0);
    assert_eq!(calculate_latency_consistency(&result), 100_000);
    assert_eq!(calculate_network_quality_score(&result), 100_000);
}

#[test]
fn pings_are_tallied_for_each_target() {
    let outcomes = [
        QueryOutcome::Success(10 * MS),
        QueryOutcome::Success(40 * MS),
        QueryOutcome::Failed,
        QueryOutcome::Success(20 * MS),
        QueryOutcome::Success(30 * MS),
        QueryOutcome::TimedOut,
        QueryOutcome::Success(60 * MS),
        QueryOutcome::Success(80 * MS),
    ];
    let run = run_with(&["a:1", "b:2"], &outcomes);
    let result = run.result();
    assert_eq!(result.total_pings, 8);
    assert_eq!(result.successful_pings, 6);
    assert_eq!(result.failed_pings, 1);
    assert_eq!(result.timeout_pings, 1);
    assert_eq!(
        result.successful_pings + result.failed_pings + result.timeout_pings,
        result.total_pings
    );
    assert_eq!(result.rtt_samples, vec![10 * MS, 40 * MS, 20 * MS, 30 * MS, 60 * MS, 80 * MS]);
    assert_eq!(result.average_rtt, 40 * MS);
    assert_eq!(result.min_rtt, 10 * MS);
    assert_eq!(result.max_rtt, 80 * MS);
    assert_eq!(result.median_rtt, 35 * MS);
    assert_eq!(result.p95_rtt, 80 * MS);
    assert_eq!(result.p99_rtt, 80 * MS);
    // gaps 30, 20, 10, 30, 20
    assert_eq!(result.jitter, 22 * MS);
    assert_eq!(result.packet_loss_rate, 250_000);
    assert!(result.min_rtt <= result.median_rtt);
    assert!(result.median_rtt <= result.p95_rtt);
    assert!(result.p99_rtt <= result.max_rtt);

    let a = &result.target_results[0];
    assert_eq!(a.target, "a:1");
    assert_eq!((a.total_pings, a.successful_pings, a.failed_pings), (4, 3, 1));
    assert_eq!(a.rtt_samples, vec![10 * MS, 30 * MS, 60 * MS]);
    assert_eq!(a.average_rtt, 33_333_333);
    assert_eq!(a.jitter, 25 * MS);
    assert_eq!(a.packet_loss_rate, 250_000);
    let b = &result.target_results[1];
    assert_eq!(b.target, "b:2");
    assert_eq!((b.total_pings, b.successful_pings, b.failed_pings), (4, 3, 1));
    assert_eq!(b.rtt_samples, vec![40 * MS, 20 * MS, 80 * MS]);
    assert_eq!(b.jitter, 40 * MS);

    // loss 25 %: loss score 0; latency 100; jitter 80; variation 0.5951: consistency 40.490
    assert_eq!(calculate_latency_consistency(&result), 100_000 - 59_511);
    assert_eq!(
        calculate_network_quality_score(&result),
        (100_000 * 30 + 80_000 * 25 + 40_489 * 15) / 100
    );
}

#[test]
fn lost_pings_cost_ten_points_a_percent() {
    let mut outcomes = vec![QueryOutcome::Success(20 * MS); 49];
    outcomes.push(QueryOutcome::Failed);
    let run = run_with(&["a:1"], &outcomes);
    let result = run.result();
    assert_eq!(result.packet_loss_rate, 20_000);
    // loss score 80, latency 100, jitter 100, consistency 100
    assert_eq!(calculate_network_quality_score(&result), 94_000);
}

#[test]
fn jitter_run_ends_at_the_deadline() {
    let (mut run, _) = started(&["a:1"], 1);
    assert_eq!(run.step(RoundEvent::Ticked { now: 0 }), JitterAction::Ping { index: 0 });
    assert_eq!(run.target(0), "a:1");
    assert_eq!(
        run.step(RoundEvent::Settled { now: SEC, outcome: QueryOutcome::Failed }),
        JitterAction::Finish
    );
    let result = run.result();
    assert_eq!(result.packet_loss_rate, 1_000_000);
    // loss score 0, latency 100 and jitter 100 (nothing measured), no samples: consistency 100
    assert_eq!(calculate_network_quality_score(&result), 30_000 + 25_000 + 15_000);
}
