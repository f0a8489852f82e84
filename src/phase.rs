//! One phase of a benchmark, warmup or measurement, as a state machine.
//!
//! The caller asks `step` what to do at a given instant and does it: sleep
//! until an instant, invoke an operation, or wait for one to complete. It
//! reports each completion with `complete`. The machine admits a dispatch
//! only on a tick of its pacer and only while fewer operations than the
//! concurrency limit are in flight, and it is done only once every dispatch
//! has been made and every operation has completed.

use crate::collector::{failure_of, key_of, Collector, Sample};
use crate::config::BenchmarkConfig;
use crate::pacer::{fire_time, following_deadline, Pacer, HORIZON_NANOS};
use vstd::prelude::*;

verus! {

/// What the caller of `step` is to do next.
#[derive(Debug, Clone, Copy, PartialEq, Eq, Structural)]
pub enum Action {
    /// Sleep until this instant (nanoseconds since the phase began), then step.
    WaitUntil(u64),
    /// Invoke the operation with this index now, then step.
    Dispatch(usize),
    /// Wait for an operation in flight to complete, report it, then step.
    AwaitCompletion,
    /// Every operation of the phase has been dispatched and has completed.
    Done,
}

/// Why a completion could not be accepted.
#[derive(Debug, Clone, Copy, PartialEq, Eq, Structural)]
pub enum PhaseError {
    /// A completion was reported while no operation was in flight.
    NothingInFlight,
}

/// The state of one phase.
pub struct PhaseRun {
    /// Operations to dispatch in this phase.
    pub total: usize,
    /// Most operations in flight at once.
    pub limit: usize,
    /// Distinct operations; dispatch `i` invokes operation `i % num_ops`.
    pub num_ops: usize,
    /// Whether completions are kept as samples (measurement) or only their
    /// failures (warmup).
    pub retain: bool,
    /// Operations invoked so far.
    pub dispatched: usize,
    /// Operations invoked and not yet completed: the permits held.
    pub in_flight: usize,
    /// Operations completed so far.
    pub completed: usize,
    /// The instant of a tick taken and not yet used for a dispatch.
    pub pending: Option<u64>,
    /// The latest instant the machine was stepped at.
    pub clock: u64,
    /// The tick schedule of this phase, from its own origin.
    pub pacer: Pacer,
    /// What this phase keeps of its completions.
    pub collector: Collector,
}

impl PhaseRun {
    /// Permits and counters agree, a pending tick is the pacer's last one,
    /// and the collector holds one sample per completion when it retains.
    pub open spec fn wf(&self) -> bool {
        &&& self.limit >= 1
        &&& self.num_ops >= 1
        &&& self.in_flight <= self.limit
        &&& self.dispatched <= self.total
        &&& self.completed + self.in_flight == self.dispatched
        &&& self.pacer.wf()
        &&& self.pending matches Some(f) ==> self.dispatched < self.total && f
            == self.pacer.last_fire
        &&& self.pending is None ==> self.pacer.last_fire <= self.clock
        &&& self.collector.wf()
        &&& self.collector.capacity == if self.retain {
            self.total
        } else {
            0
        }
        &&& self.collector.len() == if self.retain {
            self.completed as nat
        } else {
            0
        }
    }

    /// A phase of `config.measured` operations that keeps every sample when
    /// `retain`, else of `config.warmup` operations that keeps failures only.
    pub fn new(config: &BenchmarkConfig, num_ops: usize, retain: bool) -> (r: PhaseRun)
        requires
            config.valid(),
            num_ops >= 1,
        ensures
            r.wf(),
            r.total == if retain {
                config.measured
            } else {
                config.warmup
            },
            r.limit == config.concurrency,
            r.num_ops == num_ops,
            r.retain == retain,
            r.dispatched == 0,
            r.in_flight == 0,
            r.completed == 0,
            r.pending is None,
            r.clock == 0,
            r.pacer.period == config.period_spec(),
            r.pacer.deadline == 0,
            r.collector.errors@.len() == 0,
    {
        let total = if retain {
            config.measured
        } else {
            config.warmup
        };
        let period = config.period_nanos();
        PhaseRun {
            total,
            limit: config.concurrency,
            num_ops,
            retain,
            dispatched: 0,
            in_flight: 0,
            completed: 0,
            pending: None,
            clock: 0,
            pacer: Pacer::new(period),
            collector: Collector::new(if retain {
                total
            } else {
                0
            }),
        }
    }

    /// Decides what to do at instant `now`: take the next tick, wait for it,
    /// dispatch on it once a permit is free, or wait for completions and
    /// finish when all have come.
    pub fn step(&mut self, now: u64) -> (r: Action)
        requires
            old(self).wf(),
            old(self).clock <= now <= HORIZON_NANOS,
        ensures
            final(self).wf(),
            final(self).clock == now,
            final(self).total == old(self).total,
            final(self).limit == old(self).limit,
            final(self).num_ops == old(self).num_ops,
            final(self).retain == old(self).retain,
            final(self).completed == old(self).completed,
            final(self).collector == old(self).collector,
            final(self).pacer.period == old(self).pacer.period,
            old(self).pending is None && old(self).dispatched < old(self).total ==> {
                let f = fire_time(old(self).pacer.deadline as nat, now as nat);
                &&& r == Action::WaitUntil(f as u64)
                &&& final(self).pending == Some(f as u64)
                &&& final(self).pacer.deadline as nat == following_deadline(
                    old(self).pacer.deadline as nat,
                    f,
                    old(self).pacer.period as nat,
                )
                &&& final(self).dispatched == old(self).dispatched
                &&& final(self).in_flight == old(self).in_flight
            },
            !(old(self).pending is None && old(self).dispatched < old(self).total) ==> {
                &&& final(self).pacer == old(self).pacer
            },
            old(self).pending is Some && now < old(self).pending->0 ==> {
                &&& r == Action::WaitUntil(old(self).pending->0)
                &&& final(self).pending == old(self).pending
                &&& final(self).dispatched == old(self).dispatched
                &&& final(self).in_flight == old(self).in_flight
            },
            old(self).pending is Some && old(self).pending->0 <= now && old(self).in_flight < old(
                self,
            ).limit ==> {
                &&& r == Action::Dispatch((old(self).dispatched % old(self).num_ops) as usize)
                &&& final(self).pending is None
                &&& final(self).dispatched == old(self).dispatched + 1
                &&& final(self).in_flight == old(self).in_flight + 1
            },
            old(self).pending is Some && old(self).pending->0 <= now && old(self).in_flight == old(
                self,
            ).limit ==> {
                &&& r == Action::AwaitCompletion
                &&& final(self).pending == old(self).pending
                &&& final(self).dispatched == old(self).dispatched
                &&& final(self).in_flight == old(self).in_flight
            },
            old(self).pending is None && old(self).dispatched == old(self).total ==> {
                &&& final(self).pending is None
                &&& final(self).dispatched == old(self).dispatched
                &&& final(self).in_flight == old(self).in_flight
                &&& r == if old(self).in_flight > 0 {
                    Action::AwaitCompletion
                } else {
                    Action::Done
                }
            },
            r == Action::Done ==> {
                &&& final(self).dispatched == final(self).total
                &&& final(self).in_flight == 0
                &&& final(self).completed == final(self).total
            },
    {
        self.clock = now;
        match self.pending {
            None => {
                if self.dispatched < self.total {
                    let f = self.pacer.tick(now);
                    self.pending = Some(f);
                    Action::WaitUntil(f)
                } else if self.in_flight > 0 {
                    Action::AwaitCompletion
                } else {
                    Action::Done
                }
            },
            Some(f) => {
                if now < f {
                    Action::WaitUntil(f)
                } else if self.in_flight < self.limit {
                    let index = self.dispatched % self.num_ops;
                    self.dispatched = self.dispatched + 1;
                    self.in_flight = self.in_flight + 1;
                    self.pending = None;
                    Action::Dispatch(index)
                } else {
                    Action::AwaitCompletion
                }
            },
        }
    }

    /// Accepts the result of one operation in flight: frees its permit and
    /// keeps the sample (measurement) or only its failure (warmup).
    pub fn complete(&mut self, sample: Sample) -> (r: Result<(), PhaseError>)
        requires
            old(self).wf(),
        ensures
            final(self).wf(),
            final(self).total == old(self).total,
            final(self).limit == old(self).limit,
            final(self).num_ops == old(self).num_ops,
            final(self).retain == old(self).retain,
            final(self).dispatched == old(self).dispatched,
            final(self).pending == old(self).pending,
            final(self).clock == old(self).clock,
            final(self).pacer == old(self).pacer,
            final(self).collector.capacity == old(self).collector.capacity,
            old(self).in_flight == 0 ==> {
                &&& r == Err::<(), PhaseError>(PhaseError::NothingInFlight)
                &&& final(self).in_flight == 0
                &&& final(self).completed == old(self).completed
                &&& final(self).collector.keys@ == old(self).collector.keys@
                &&& final(self).collector.durations@ == old(self).collector.durations@
                &&& final(self).collector.errors@ == old(self).collector.errors@
            },
            old(self).in_flight > 0 ==> {
                &&& r is Ok
                &&& final(self).in_flight == old(self).in_flight - 1
                &&& final(self).completed == old(self).completed + 1
                &&& final(self).collector.errors@ == old(self).collector.errors@ + failure_of(
                    sample.outcome,
                )
            },
            old(self).in_flight > 0 && old(self).retain ==> {
                &&& final(self).collector.durations@ == old(self).collector.durations@.push(
                    sample.elapsed_micros,
                )
                &&& final(self).collector.keys@ == old(self).collector.keys@.push(
                    key_of(sample.outcome),
                )
            },
            old(self).in_flight > 0 && !old(self).retain ==> {
                &&& final(self).collector.durations@ == old(self).collector.durations@
                &&& final(self).collector.keys@ == old(self).collector.keys@
            },
    {
        if self.in_flight == 0 {
            return Err(PhaseError::NothingInFlight);
        }
        self.in_flight = self.in_flight - 1;
        self.completed = self.completed + 1;
        if self.retain {
            let recorded = self.collector.record(sample);
            assert(recorded is Ok);
        } else {
            self.collector.record_failure(sample.outcome);
        }
        Ok(())
    }

    /// Whether the phase is over: every dispatch made, nothing in flight.
    pub fn is_done(&self) -> (r: bool)
        requires
            self.wf(),
        ensures
            r == (self.dispatched == self.total && self.in_flight == 0),
    {
        self.dispatched == self.total && self.in_flight == 0
    }
}

/// Once a measurement phase is over, it holds exactly one sample per
/// configured operation, with one outcome key for each.
pub proof fn lemma_finished_measurement_has_all_samples(run: PhaseRun)
    requires
        run.wf(),
        run.retain,
        run.dispatched == run.total,
        run.in_flight == 0,
    ensures
        run.collector.durations@.len() == run.total,
        run.collector.keys@.len() == run.total,
{
}

/// In every reachable state no more operations are in flight than the
/// concurrency limit allows.
pub proof fn lemma_in_flight_within_limit(run: PhaseRun)
    requires
        run.wf(),
    ensures
        run.in_flight <= run.limit,
{
}

} // verus!
