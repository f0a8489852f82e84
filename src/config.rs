//! The validated configuration of one benchmark run.

use vstd::prelude::*;

verus! {

/// Nanoseconds in one second.
pub const NANOS_PER_SEC: u64 = 1_000_000_000;

/// Why a configuration was rejected before any dispatch.
#[derive(Debug, Clone, Copy, PartialEq, Eq, Structural)]
pub enum ConfigError {
    /// The target rate is zero operations per second.
    ZeroRate,
    /// The target rate is so high that its period rounds to zero nanoseconds.
    RateTooHigh,
    /// The concurrency limit is zero.
    ZeroConcurrency,
}

/// Target rate, concurrency limit, and the sizes of the two phases.
#[derive(Debug, Clone, Copy, PartialEq, Eq, Structural)]
pub struct BenchmarkConfig {
    /// Operations per second.
    pub rate: u32,
    /// How many operations may be in flight at once.
    pub concurrency: usize,
    /// Operations run, and not measured, before the measurement phase.
    pub warmup: usize,
    /// Operations measured.
    pub measured: usize,
}

impl BenchmarkConfig {
    /// A rate whose period is a positive number of nanoseconds and a
    /// concurrency limit of at least one.
    pub open spec fn valid(self) -> bool {
        1 <= self.rate <= NANOS_PER_SEC && self.concurrency >= 1
    }

    /// The tick period of this configuration, in nanoseconds.
    pub open spec fn period_spec(self) -> nat {
        ((NANOS_PER_SEC as nat) / (self.rate as nat)) as nat
    }

    /// Validates the four values; the first failing check names the error.
    pub fn new(rate: u32, concurrency: usize, warmup: usize, measured: usize) -> (r: Result<
        BenchmarkConfig,
        ConfigError,
    >)
        ensures
            rate == 0 ==> r == Err::<BenchmarkConfig, ConfigError>(ConfigError::ZeroRate),
            rate > NANOS_PER_SEC ==> r == Err::<BenchmarkConfig, ConfigError>(
                ConfigError::RateTooHigh,
            ),
            1 <= rate <= NANOS_PER_SEC && concurrency == 0 ==> r == Err::<
                BenchmarkConfig,
                ConfigError,
            >(ConfigError::ZeroConcurrency),
            1 <= rate <= NANOS_PER_SEC && concurrency >= 1 ==> r == Ok::<
                BenchmarkConfig,
                ConfigError,
            >(BenchmarkConfig { rate, concurrency, warmup, measured }),
            r is Ok ==> r->Ok_0.valid(),
    {
        if rate == 0 {
            Err(ConfigError::ZeroRate)
        } else if rate as u64 > NANOS_PER_SEC {
            Err(ConfigError::RateTooHigh)
        } else if concurrency == 0 {
            Err(ConfigError::ZeroConcurrency)
        } else {
            Ok(BenchmarkConfig { rate, concurrency, warmup, measured })
        }
    }

    /// `1 / rate` seconds, in whole nanoseconds (rounded down).
    pub fn period_nanos(&self) -> (r: u64)
        requires
            self.valid(),
        ensures
            r as nat == self.period_spec(),
            1 <= r <= NANOS_PER_SEC,
    {
        assert((NANOS_PER_SEC as nat) / (self.rate as nat) >= 1) by (nonlinear_arith)
            requires
                1 <= self.rate <= NANOS_PER_SEC,
        ;
        assert((NANOS_PER_SEC as nat) / (self.rate as nat) <= NANOS_PER_SEC) by (nonlinear_arith)
            requires
                1 <= self.rate,
        ;
        NANOS_PER_SEC / (self.rate as u64)
    }
}

} // verus!
