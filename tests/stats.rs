use dynamodbbench::collector::{Collector, OutcomeKey, Sample};
use dynamodbbench::mapping::{bucket_key_split, column_width};
use dynamodbbench::quantile::{quantile, QuantileError};
use dynamodbbench::query::key_condition_expression;
use dynamodbbench::report::{build_report, latency_report, sorted_durations, throughput_milli};

#[test]
fn nearest_rank_on_five_samples() {
    let s = vec![10, 20, 30, 40, 50];
    assert_eq!(quantile(&s, 9, 10), Ok(50));
    assert_eq!(quantile(&s, 5, 10), Ok(30));
    assert_eq!(quantile(&s, 0, 1), Ok(10));
    assert_eq!(quantile(&s, 1, 1), Ok(50));
    assert_eq!(quantile(&s, 1, 5), Ok(10));
    assert_eq!(quantile(&s, 21, 100), Ok(20));
}

#[test]
fn quantile_grows_with_the_fraction() {
    let s = vec![1, 1, 4, 9, 9, 12, 30];
    let mut last = 0;
    for num in 0..=1000 {
        let v = quantile(&s, num, 1000).unwrap();
        assert!(v >= last);
        last = v;
    }
    assert_eq!(last, 30);
}

#[test]
fn quantile_of_nothing_is_an_error() {
    assert_eq!(quantile(&Vec::new(), 1, 2), Err(QuantileError::Empty));
    assert_eq!(quantile(&vec![1], 3, 2), Err(QuantileError::InvalidFraction));
    assert_eq!(quantile(&vec![1], 0, 0), Err(QuantileError::InvalidFraction));
    assert_eq!(latency_report(&Vec::new()), Err(QuantileError::Empty));
}

#[test]
fn latency_report_on_a_thousand_samples() {
    let s: Vec<u64> = (1..=1000).collect();
    let r = latency_report(&s).unwrap();
    assert_eq!((r.min, r.max), (1, 1000));
    assert_eq!((r.p50, r.p90, r.p95, r.p99, r.p999), (500, 900, 950, 990, 999));
}

#[test]
fn durations_are_sorted() {
    assert_eq!(sorted_durations(&vec![5, 1, 4, 1]), vec![1, 1, 4, 5]);
}

#[test]
fn throughput_in_thousandths() {
    assert_eq!(throughput_milli(20, 2_000_000_000), Some(10_000));
    assert_eq!(throughput_milli(1, 3_000_000_000), Some(333));
    assert_eq!(throughput_milli(5, 0), None);
}

#[test]
fn report_over_failed_operations_still_has_latencies() {
    let mut c = Collector::new(3);
    for d in [30, 10, 20] {
        c.record(Sample { issued_nanos: 0, elapsed_micros: d, outcome: Err("e".to_string()) })
            .unwrap();
    }
    let r = build_report(&c, 1_000_000_000).unwrap();
    assert_eq!((r.latency.min, r.latency.p50, r.latency.max), (10, 20, 30));
    assert_eq!(r.throughput_milli, Some(3000));
    assert_eq!(r.histogram, vec![(OutcomeKey::Error, 3)]);
    assert_eq!(r.failures, 3);
    assert!(build_report(&Collector::new(2), 5).is_err());
}

#[test]
fn mapping_keys_split_at_the_last_colon() {
    assert_eq!(bucket_key_split("user.id:60000".as_bytes()), Some(7));
    assert_eq!(bucket_key_split("a:b:15".as_bytes()), Some(3));
    assert_eq!(bucket_key_split("x:1".as_bytes()), Some(1));
    assert_eq!(bucket_key_split(":15".as_bytes()), None);
    assert_eq!(bucket_key_split("abc:".as_bytes()), None);
    assert_eq!(bucket_key_split("abc:1x".as_bytes()), None);
    assert_eq!(bucket_key_split("a\nb:1".as_bytes()), None);
    assert_eq!(bucket_key_split("15".as_bytes()), None);
    assert_eq!(bucket_key_split("é:9".as_bytes()), Some(2));
}

#[test]
fn column_width_pads_the_longest_cell() {
    assert_eq!(column_width(&vec![3, 20, 7]), 24);
    assert_eq!(column_width(&Vec::new()), 4);
}

#[test]
fn key_condition_follows_the_given_bounds() {
    assert_eq!(key_condition_expression(true, true), "#pk = :pk AND #sk BETWEEN :start AND :end");
    assert_eq!(key_condition_expression(true, false), "#pk = :pk AND #sk >= :start");
    assert_eq!(key_condition_expression(false, true), "#pk = :pk AND #sk <= :end");
    assert_eq!(key_condition_expression(false, false), "#pk = :pk");
}
