use dynamodbbench::collector::{tally, Collector, CollectError, OutcomeKey, Sample};
use dynamodbbench::config::{BenchmarkConfig, ConfigError};
use dynamodbbench::pacer::Pacer;
use dynamodbbench::phase::{Action, PhaseError, PhaseRun};

const MS: u64 = 1_000_000;

struct Run {
    wall_nanos: u64,
    dispatch_times: Vec<u64>,
    max_in_flight: usize,
    phase: PhaseRun,
}

/// Drives one phase in virtual time: every operation takes `delay_nanos`
/// and succeeds with 10 items unless `fail` is set.
fn simulate(rate: u32, concurrency: usize, total: usize, delay_nanos: u64, fail: bool) -> Run {
    let config = BenchmarkConfig::new(rate, concurrency, 0, total).unwrap();
    let mut phase = PhaseRun::new(&config, 1, true);
    let mut now: u64 = 0;
    let mut in_flight: Vec<(u64, u64)> = Vec::new();
    let mut dispatch_times = Vec::new();
    let mut max_in_flight = 0;
    loop {
        match phase.step(now) {
            Action::WaitUntil(t) => {
                while let Some(pos) = earliest(&in_flight) {
                    if in_flight[pos].0 > t {
                        break;
                    }
                    let (finish, issued) = in_flight.remove(pos);
                    now = now.max(finish);
                    phase.complete(sample(issued, finish, fail)).unwrap();
                }
                now = now.max(t);
            }
            Action::Dispatch(index) => {
                assert_eq!(index, 0);
                dispatch_times.push(now);
                in_flight.push((now + delay_nanos, now));
                max_in_flight = max_in_flight.max(in_flight.len());
            }
            Action::AwaitCompletion => {
                let pos = earliest(&in_flight).unwrap();
                let (finish, issued) = in_flight.remove(pos);
                now = now.max(finish);
                phase.complete(sample(issued, finish, fail)).unwrap();
            }
            Action::Done => break,
        }
    }
    Run { wall_nanos: now, dispatch_times, max_in_flight, phase }
}

fn earliest(in_flight: &[(u64, u64)]) -> Option<usize> {
    (0..in_flight.len()).min_by_key(|&i| in_flight[i].0)
}

fn sample(issued: u64, finish: u64, fail: bool) -> Sample {
    Sample {
        issued_nanos: issued,
        elapsed_micros: (finish - issued) / 1000,
        outcome: if fail { Err("throttled".to_string()) } else { Ok(10) },
    }
}

#[test]
fn test_parallel_queries_are_faster() {
    let parallelism = 4;
    let num_queries = 20;
    let delay_ms = 50;
    let serial = simulate(1_000_000_000, 1, num_queries, delay_ms * MS, false);
    let parallel = simulate(1_000_000_000, parallelism, num_queries, delay_ms * MS, false);
    assert!(parallel.wall_nanos < serial.wall_nanos / 2);
    assert!(serial.wall_nanos >= 1000 * MS);
}

#[test]
fn measured_phase_keeps_one_sample_per_operation() {
    for &(concurrency, total) in &[(1usize, 0usize), (1, 7), (3, 20), (8, 5)] {
        let run = simulate(1000, concurrency, total, 5 * MS, false);
        assert_eq!(run.phase.collector.durations.len(), total);
        assert_eq!(run.phase.collector.keys.len(), total);
        assert!(run.max_in_flight <= concurrency);
        assert!(run.phase.is_done());
    }
}

#[test]
fn concurrency_stays_within_limit() {
    let run = simulate(1_000_000_000, 3, 30, 50 * MS, false);
    assert_eq!(run.max_in_flight, 3);
}

#[test]
fn dispatches_are_one_period_apart_at_ten_per_second() {
    let run = simulate(10, 1, 6, 0, false);
    assert_eq!(run.dispatch_times, vec![0, 100 * MS, 200 * MS, 300 * MS, 400 * MS, 500 * MS]);
}

#[test]
fn slow_operations_do_not_shift_the_tick_grid() {
    // Each operation takes 250 ms against a 100 ms period with one permit:
    // a late tick fires at once and the next is due on the grid.
    let run = simulate(10, 1, 3, 250 * MS, false);
    assert_eq!(run.dispatch_times, vec![0, 250 * MS, 500 * MS]);
    let mut pacer = Pacer::new(100 * MS);
    assert_eq!(pacer.tick(0), 0);
    assert_eq!(pacer.tick(250 * MS), 250 * MS);
    assert_eq!(pacer.deadline, 300 * MS);
    assert_eq!(pacer.tick(260 * MS), 300 * MS);
}

#[test]
fn all_failures_are_tallied_under_the_error_key() {
    let run = simulate(1000, 2, 9, 3 * MS, true);
    let histogram = tally(&run.phase.collector.keys);
    assert_eq!(histogram, vec![(OutcomeKey::Error, 9)]);
    assert_eq!(run.phase.collector.errors.len(), 9);
    assert_eq!(run.phase.collector.durations.len(), 9);
}

#[test]
fn warmup_keeps_failures_only() {
    let config = BenchmarkConfig::new(100, 2, 2, 0).unwrap();
    let mut phase = PhaseRun::new(&config, 3, false);
    assert_eq!(phase.step(0), Action::WaitUntil(0));
    assert_eq!(phase.step(0), Action::Dispatch(0));
    assert_eq!(phase.step(0), Action::WaitUntil(10 * MS));
    assert_eq!(phase.step(10 * MS), Action::Dispatch(1));
    assert_eq!(phase.step(10 * MS), Action::AwaitCompletion);
    phase.complete(Sample { issued_nanos: 0, elapsed_micros: 5, outcome: Ok(1) }).unwrap();
    phase
        .complete(Sample { issued_nanos: 0, elapsed_micros: 5, outcome: Err("boom".to_string()) })
        .unwrap();
    assert_eq!(phase.step(11 * MS), Action::Done);
    assert_eq!(phase.collector.errors, vec!["boom".to_string()]);
    assert!(phase.collector.durations.is_empty());
}

#[test]
fn operations_rotate_over_the_partition_values() {
    let config = BenchmarkConfig::new(1_000_000_000, 5, 0, 5).unwrap();
    let mut phase = PhaseRun::new(&config, 2, true);
    let mut indices = Vec::new();
    let mut now = 0;
    loop {
        match phase.step(now) {
            Action::WaitUntil(t) => now = now.max(t),
            Action::Dispatch(i) => indices.push(i),
            Action::AwaitCompletion => {
                phase.complete(Sample { issued_nanos: 0, elapsed_micros: 1, outcome: Ok(0) }).unwrap()
            }
            Action::Done => break,
        }
    }
    assert_eq!(indices, vec![0, 1, 0, 1, 0]);
}

#[test]
fn completion_without_dispatch_is_rejected() {
    let config = BenchmarkConfig::new(10, 1, 0, 1).unwrap();
    let mut phase = PhaseRun::new(&config, 1, true);
    let r = phase.complete(Sample { issued_nanos: 0, elapsed_micros: 1, outcome: Ok(0) });
    assert_eq!(r, Err(PhaseError::NothingInFlight));
    assert_eq!(phase.completed, 0);
}

#[test]
fn invalid_configurations_are_rejected() {
    assert_eq!(BenchmarkConfig::new(0, 1, 0, 1), Err(ConfigError::ZeroRate));
    assert_eq!(BenchmarkConfig::new(2_000_000_000, 1, 0, 1), Err(ConfigError::RateTooHigh));
    assert_eq!(BenchmarkConfig::new(10, 0, 0, 1), Err(ConfigError::ZeroConcurrency));
    let ok = BenchmarkConfig::new(3, 2, 1, 4).unwrap();
    assert_eq!(ok.period_nanos(), 333_333_333);
    assert_eq!(BenchmarkConfig::new(10, 1, 0, 0).unwrap().period_nanos(), 100 * MS);
}

#[test]
fn collector_refuses_more_than_its_capacity() {
    let mut c = Collector::new(1);
    assert_eq!(c.record(Sample { issued_nanos: 0, elapsed_micros: 7, outcome: Ok(2) }), Ok(()));
    let r = c.record(Sample { issued_nanos: 0, elapsed_micros: 8, outcome: Err("x".to_string()) });
    assert_eq!(r, Err(CollectError::Full));
    assert_eq!(c.durations, vec![7]);
    assert_eq!(c.keys, vec![OutcomeKey::Items(2)]);
    assert_eq!(c.recorded(), 1);
    assert!(c.errors.is_empty());
}

#[test]
fn tally_counts_each_key_once() {
    let keys = vec![
        OutcomeKey::Items(3),
        OutcomeKey::Error,
        OutcomeKey::Items(3),
        OutcomeKey::Items(0),
        OutcomeKey::Items(3),
    ];
    assert_eq!(
        tally(&keys),
        vec![(OutcomeKey::Items(3), 3), (OutcomeKey::Error, 1), (OutcomeKey::Items(0), 1)]
    );
    assert!(tally(&Vec::new()).is_empty());
}
