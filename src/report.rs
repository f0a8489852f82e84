//! The final report: latency percentiles over the sorted durations, the
//! achieved throughput, and the outcome histogram.

use crate::collector::{is_tally_of, tally, Collector, OutcomeKey};
use crate::quantile::{is_sorted, quantile, quantile_of, QuantileError};
use vstd::prelude::*;

verus! {

/// Latencies in microseconds at the reported ranks.
#[derive(Debug, Clone, Copy, PartialEq, Eq, Structural)]
pub struct LatencyReport {
    pub min: u64,
    pub max: u64,
    pub p50: u64,
    pub p90: u64,
    pub p95: u64,
    pub p99: u64,
    pub p999: u64,
}

/// The reported latencies of an ascending, non-empty sequence of durations.
pub open spec fn latency_report_of(s: Seq<u64>) -> LatencyReport {
    LatencyReport {
        min: quantile_of(s, 0, 1),
        max: quantile_of(s, 1, 1),
        p50: quantile_of(s, 50, 100),
        p90: quantile_of(s, 90, 100),
        p95: quantile_of(s, 95, 100),
        p99: quantile_of(s, 99, 100),
        p999: quantile_of(s, 999, 1000),
    }
}

/// Operations per second, in thousandths, of `count` operations over
/// `wall_nanos` nanoseconds (rounded down).
pub open spec fn throughput_milli_of(count: nat, wall_nanos: nat) -> nat
    recommends
        wall_nanos > 0,
{
    (count * 1_000_000_000_000) / wall_nanos
}

/// Everything the benchmark reports.
pub struct Report {
    pub latency: LatencyReport,
    /// `None` when the measurement took no measurable time.
    pub throughput_milli: Option<u128>,
    pub histogram: Vec<(OutcomeKey, u64)>,
    pub failures: usize,
}

/// Relies on `slice::sort_unstable`: the same elements, in ascending order.
#[verifier::external_body]
fn sort_ascending(v: &mut Vec<u64>)
    ensures
        is_sorted(final(v)@),
        final(v)@.to_multiset() == old(v)@.to_multiset(),
{
    v.sort_unstable();
}

/// The durations of `v` in ascending order.
pub fn sorted_durations(v: &Vec<u64>) -> (r: Vec<u64>)
    ensures
        is_sorted(r@),
        r@.to_multiset() == v@.to_multiset(),
{
    let mut r = v.clone();
    assert(r@ =~= v@);
    sort_ascending(&mut r);
    r
}

/// Minimum, maximum and the p50, p90, p95, p99 and p99.9 nearest ranks of
/// an ascending sequence of durations; an error when it is empty.
pub fn latency_report(sorted: &Vec<u64>) -> (r: Result<LatencyReport, QuantileError>)
    ensures
        sorted@.len() == 0 ==> r == Err::<LatencyReport, QuantileError>(QuantileError::Empty),
        sorted@.len() > 0 ==> r == Ok::<LatencyReport, QuantileError>(
            latency_report_of(sorted@),
        ),
{
    if sorted.len() == 0 {
        return Err(QuantileError::Empty);
    }
    let min = quantile(sorted, 0, 1);
    let max = quantile(sorted, 1, 1);
    let p50 = quantile(sorted, 50, 100);
    let p90 = quantile(sorted, 90, 100);
    let p95 = quantile(sorted, 95, 100);
    let p99 = quantile(sorted, 99, 100);
    let p999 = quantile(sorted, 999, 1000);
    match (min, max, p50, p90, p95, p99, p999) {
        (Ok(min), Ok(max), Ok(p50), Ok(p90), Ok(p95), Ok(p99), Ok(p999)) => Ok(
            LatencyReport { min, max, p50, p90, p95, p99, p999 },
        ),
        _ => Err(QuantileError::Empty),
    }
}

/// `count` operations over `wall_nanos` nanoseconds, in thousandths of an
/// operation per second; `None` for a zero duration.
pub fn throughput_milli(count: usize, wall_nanos: u64) -> (r: Option<u128>)
    ensures
        wall_nanos == 0 ==> r is None,
        wall_nanos > 0 ==> r == Some(throughput_milli_of(count as nat, wall_nanos as nat) as u128),
{
    if wall_nanos == 0 {
        return None;
    }
    assert(count as int <= u64::MAX);
    assert((count as int) * 1_000_000_000_000 <= (u64::MAX as int) * 1_000_000_000_000)
        by (nonlinear_arith)
        requires
            0 <= count as int <= u64::MAX,
    ;
    let scaled: u128 = (count as u128) * 1_000_000_000_000;
    Some(scaled / (wall_nanos as u128))
}

/// The report of a finished measurement that took `wall_nanos` nanoseconds
/// from its first tick to its drain; an error when nothing was measured.
pub fn build_report(collector: &Collector, wall_nanos: u64) -> (r: Result<Report, QuantileError>)
    requires
        collector.wf(),
    ensures
        collector.durations@.len() == 0 ==> r == Err::<Report, QuantileError>(
            QuantileError::Empty,
        ),
        collector.durations@.len() > 0 ==> r is Ok,
        r matches Ok(rep) ==> {
            &&& exists|s: Seq<u64>|
                is_sorted(s) && s.to_multiset() == collector.durations@.to_multiset()
                    && rep.latency == latency_report_of(s)
            &&& wall_nanos == 0 ==> rep.throughput_milli is None
            &&& wall_nanos > 0 ==> rep.throughput_milli == Some(
                throughput_milli_of(collector.keys@.len(), wall_nanos as nat) as u128,
            )
            &&& is_tally_of(rep.histogram@, collector.keys@)
            &&& rep.failures == collector.errors@.len()
        },
{
    let sorted = sorted_durations(&collector.durations);
    proof {
        vstd::seq_lib::to_multiset_len(sorted@);
        vstd::seq_lib::to_multiset_len(collector.durations@);
    }
    match latency_report(&sorted) {
        Err(e) => Err(e),
        Ok(latency) => {
            let throughput = throughput_milli(collector.keys.len(), wall_nanos);
            let histogram = tally(&collector.keys);
            Ok(
                Report {
                    latency,
                    throughput_milli: throughput,
                    histogram,
                    failures: collector.errors.len(),
                },
            )
        },
    }
}

} // verus!
