use network_stable_test::probes::connection_perf::{
    level, max_concurrent_successful, summarize, summarize_level, Awaiting, ConcurrentTestResult,
    ConnectionAttempt, ConnectionPerfTest, Outcome, PerfAction, PerfEvent,
};
use network_stable_test::score::calculate_performance_score;

const MS: u64 = 1_000_000;

fn attempt(outcome: Outcome, millis: u64) -> ConnectionAttempt {
    ConnectionAttempt {
        outcome,
        total_time: millis * MS,
        error: match outcome {
            Outcome::Success => None,
            Outcome::Failed => Some("SOCKS5 error: Connection refused".to_string()),
            Outcome::TimedOut => Some("Connection timeout".to_string()),
        },
        timestamp: 0,
    }
}

fn burst(level: usize, successes: usize) -> Vec<ConnectionAttempt> {
    (0..level)
        .map(|i| if i < successes { attempt(Outcome::Success, 100) } else { attempt(Outcome::Failed, 5) })
        .collect()
}

#[test]
fn connection_perf_settings_are_kept() {
    let test = ConnectionPerfTest::new("127.0.0.1:1080", "8.8.8.8:53", 10, 100);
    assert_eq!(test.proxy_addr(), "127.0.0.1:1080");
    assert_eq!(test.target_addr(), "8.8.8.8:53");
    assert_eq!(test.concurrent_connections(), 10);
    assert_eq!(test.total_connections(), 100);
}

#[test]
fn the_levels_are_fixed() {
    let levels: Vec<usize> = (0..5).map(level).collect();
    assert_eq!(levels, vec![2, 5, 10, 20, 50]);
}

#[test]
fn attempts_come_one_at_a_time_then_the_bursts() {
    let test = ConnectionPerfTest::new("p:1", "t:2", 10, 5);
    let (mut run, action) = test.start();
    let mut actions = vec![action];
    loop {
        let next = match *actions.last().unwrap() {
            PerfAction::Attempt => run.step(PerfEvent::AttemptDone(attempt(Outcome::Success, 10))),
            PerfAction::Wait { .. } => run.step(PerfEvent::Elapsed),
            PerfAction::Burst { level } => run.step(PerfEvent::BurstDone {
                attempts: burst(level, level),
                total_time: 120 * MS,
            }),
            PerfAction::Finish => break,
        };
        actions.push(next);
    }
    assert_eq!(
        actions,
        vec![
            PerfAction::Attempt,
            PerfAction::Wait { millis: 100 },
            PerfAction::Attempt,
            PerfAction::Wait { millis: 100 },
            PerfAction::Attempt,
            PerfAction::Wait { millis: 100 },
            PerfAction::Attempt,
            PerfAction::Wait { millis: 100 },
            PerfAction::Attempt,
            PerfAction::Burst { level: 2 },
            PerfAction::Burst { level: 5 },
            PerfAction::Finish
        ]
    );
    assert_eq!(run.awaiting(), Awaiting::Done);
    let result = run.into_result();
    assert_eq!(result.total_attempts, 5);
    assert_eq!(result.concurrent_test_results.len(), 2);
    assert_eq!(result.max_concurrent_successful, 5);
}

#[test]
fn no_attempts_no_bursts() {
    let test = ConnectionPerfTest::new("p:1", "t:2", 10, 0);
    let (run, action) = test.start();
    assert_eq!(action, PerfAction::Finish);
    let result = run.into_result();
    assert_eq!(result.total_attempts, 0);
    assert_eq!(result.successful_connections, 0);
    assert_eq!(result.average_connection_time, 0);
    assert_eq!(result.min_connection_time, 0);
    assert_eq!(result.max_connection_time, 0);
    assert!(result.concurrent_test_results.is_empty());
}

#[test]
fn one_attempt_is_too_few_for_any_burst() {
    let test = ConnectionPerfTest::new("p:1", "t:2", 10, 1);
    let (mut run, action) = test.start();
    assert_eq!(action, PerfAction::Attempt);
    assert_eq!(run.step(PerfEvent::AttemptDone(attempt(Outcome::TimedOut, 15_000))), PerfAction::Finish);
    let result = run.into_result();
    assert_eq!(result.total_attempts, 1);
    assert_eq!(result.failed_connections, 1);
    assert_eq!(result.timed_out_connections, 1);
}

#[test]
fn level_discovery() {
    let test = ConnectionPerfTest::new("p:1", "t:2", 10, 100);
    let (mut run, mut action) = test.start();
    let mut levels = Vec::new();
    loop {
        action = match action {
            PerfAction::Attempt => run.step(PerfEvent::AttemptDone(attempt(Outcome::Success, 10))),
            PerfAction::Wait { .. } => run.step(PerfEvent::Elapsed),
            PerfAction::Burst { level } => {
                levels.push(level);
                let successes = if level == 50 { 15 } else { level };
                run.step(PerfEvent::BurstDone { attempts: burst(level, successes), total_time: MS })
            }
            PerfAction::Finish => break,
        };
    }
    assert_eq!(levels, vec![2, 5, 10, 20, 50]);
    let result = run.into_result();
    assert_eq!(result.max_concurrent_successful, 20);
    assert_eq!(result.concurrent_test_results[3].successful_connections, 20);
    assert_eq!(result.concurrent_test_results[3].failed_connections, 0);
    assert_eq!(result.concurrent_test_results[4].successful_connections, 15);
    assert_eq!(result.concurrent_test_results[4].failed_connections, 35);
    assert_eq!(result.total_attempts, 100);
    assert_eq!(result.successful_connections, 100);
}

#[test]
fn a_burst_row() {
    let attempts = vec![
        attempt(Outcome::Success, 100),
        attempt(Outcome::Failed, 3),
        attempt(Outcome::Success, 300),
        attempt(Outcome::TimedOut, 15_000),
    ];
    let row = summarize_level(5, &attempts, 400 * MS);
    assert_eq!(
        row,
        ConcurrentTestResult {
            concurrent_level: 5,
            successful_connections: 2,
            failed_connections: 3,
            average_time: 200 * MS,
            total_time: 400 * MS,
        }
    );
    let row = summarize_level(2, &vec![], MS);
    assert_eq!(row.successful_connections, 0);
    assert_eq!(row.failed_connections, 2);
    assert_eq!(row.average_time, 0);
}

#[test]
fn greatest_reliable_level() {
    let row = |level, ok| ConcurrentTestResult {
        concurrent_level: level,
        successful_connections: ok,
        failed_connections: level - ok,
        average_time: 0,
        total_time: 0,
    };
    assert_eq!(max_concurrent_successful(&vec![]), 0);
    assert_eq!(max_concurrent_successful(&vec![row(2, 1), row(5, 4)]), 0);
    assert_eq!(max_concurrent_successful(&vec![row(2, 2), row(5, 4), row(10, 10), row(20, 0)]), 10);
    assert_eq!(max_concurrent_successful(&vec![row(20, 20), row(50, 15)]), 20);
}

#[test]
fn the_summary_of_a_sequence() {
    let attempts = vec![
        attempt(Outcome::Success, 400),
        attempt(Outcome::Failed, 10),
        attempt(Outcome::Success, 200),
        attempt(Outcome::TimedOut, 15_000),
        attempt(Outcome::Success, 300),
        attempt(Outcome::Success, 100),
    ];
    let result = summarize(&attempts, vec![]);
    assert_eq!(result.total_attempts, 6);
    assert_eq!(result.successful_connections, 4);
    assert_eq!(result.failed_connections, 2);
    assert_eq!(result.timed_out_connections, 1);
    assert_eq!(
        result.successful_connections + result.failed_connections,
        result.total_attempts
    );
    assert_eq!(result.connection_times, vec![400 * MS, 200 * MS, 300 * MS, 100 * MS]);
    assert_eq!(result.socks5_handshake_times, result.connection_times);
    assert!(result.target_connect_times.is_empty());
    assert_eq!(result.connection_success_rate, 666_666);
    assert_eq!(result.average_connection_time, 250 * MS);
    assert_eq!(result.min_connection_time, 100 * MS);
    assert_eq!(result.max_connection_time, 400 * MS);
    assert_eq!(result.median_connection_time, 250 * MS);
    assert_eq!(result.p95_connection_time, 400 * MS);
    assert_eq!(result.p99_connection_time, 400 * MS);
    assert_eq!(result.max_concurrent_successful, 0);
    // success 66.666, speed 100, consistency 30, concurrency 0
    assert_eq!(calculate_performance_score(&result), 62_666);
}

#[test]
fn a_perfect_sequence_scores_full() {
    let attempts: Vec<ConnectionAttempt> = (0..50).map(|_| attempt(Outcome::Success, 100)).collect();
    let rows = vec![summarize_level(50, &burst(50, 50), MS)];
    let result = summarize(&attempts, rows);
    assert_eq!(calculate_performance_score(&result), 100_000);
}

#[test]
fn slow_and_uneven_connections_score_low() {
    let attempts = vec![attempt(Outcome::Success, 1_000), attempt(Outcome::Success, 11_000)];
    let rows = vec![summarize_level(2, &burst(2, 2), MS)];
    let result = summarize(&attempts, rows);
    // success 100, speed 10 (6 s on average), consistency 30, concurrency 4
    assert_eq!(calculate_performance_score(&result), 40_000 + 3_000 + 6_000 + 400);
}

#[test]
fn a_burst_reports_no_more_attempts_than_its_level() {
    let test = ConnectionPerfTest::new("p:1", "t:2", 10, 2);
    let (mut run, _) = test.start();
    assert!(run.accepts(&PerfEvent::AttemptDone(attempt(Outcome::Success, 1))));
    assert!(!run.accepts(&PerfEvent::Elapsed));
    run.step(PerfEvent::AttemptDone(attempt(Outcome::Success, 1)));
    assert!(run.accepts(&PerfEvent::Elapsed));
    run.step(PerfEvent::Elapsed);
    assert_eq!(
        run.step(PerfEvent::AttemptDone(attempt(Outcome::Success, 1))),
        PerfAction::Burst { level: 2 }
    );
    assert_eq!(run.attempts().len(), 2);
    assert_eq!(run.attempts()[0].outcome, Outcome::Success);
    assert_eq!(run.attempts()[0].error, None);
    assert!(run.accepts(&PerfEvent::BurstDone { attempts: burst(2, 2), total_time: 1 }));
    assert!(run.accepts(&PerfEvent::BurstDone { attempts: burst(1, 1), total_time: 1 }));
    assert!(!run.accepts(&PerfEvent::BurstDone { attempts: burst(3, 3), total_time: 1 }));
    assert!(!run.accepts(&PerfEvent::Elapsed));
}

#[test]
fn a_finished_run_made_every_attempt() {
    for total in [0usize, 1, 2, 7, 23] {
        let test = ConnectionPerfTest::new("p:1", "t:2", 10, total);
        let (mut run, mut action) = test.start();
        let mut made = 0usize;
        loop {
            action = match action {
                PerfAction::Attempt => {
                    made += 1;
                    let outcome = match made % 3 {
                        0 => Outcome::TimedOut,
                        1 => Outcome::Success,
                        _ => Outcome::Failed,
                    };
                    run.step(PerfEvent::AttemptDone(attempt(outcome, made as u64)))
                }
                PerfAction::Wait { .. } => run.step(PerfEvent::Elapsed),
                PerfAction::Burst { level } => run.step(PerfEvent::BurstDone {
                    attempts: burst(level, level / 2),
                    total_time: MS,
                }),
                PerfAction::Finish => break,
            };
        }
        assert_eq!(made, total);
        let kept: Vec<Option<String>> = run.attempts().iter().map(|a| a.error.clone()).collect();
        assert_eq!(kept.len(), total);
        assert_eq!(kept.iter().filter(|e| e.is_none()).count(), (total + 2) / 3);
        let result = run.into_result();
        assert_eq!(result.total_attempts, total);
        assert_eq!(result.successful_connections + result.failed_connections, total);
        assert_eq!(result.connection_times.len(), result.successful_connections);
        assert_eq!(result.successful_connections, (total + 2) / 3);
        assert_eq!(result.timed_out_connections, total / 3);
    }
}
