//! Latency and throughput benchmark driver: pacing, admission control,
//! phase execution, result aggregation and nearest-rank percentiles.

pub mod quantile;
pub mod config;
pub mod pacer;
pub mod collector;
pub mod phase;
pub mod report;
pub mod mapping;
pub mod query;
