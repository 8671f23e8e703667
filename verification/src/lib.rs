//! A micro-benchmark harness: named workloads are run one variant at a time,
//! each against a fresh [`BenchmarkRun`] that records wall-clock time, peak
//! memory and named counters, and the suite keeps what came back in call order.

mod clock;
pub mod config;
pub mod elapsed;
pub mod emit;
pub mod isolation;
pub mod json;
pub mod memory;
pub mod metrics;
pub mod pairs;
pub mod report;
pub mod result;
pub mod run;
pub mod schema;
pub mod suite;

pub use config::BenchmarkConfig;
pub use elapsed::Elapsed;
pub use emit::Emit;
pub use isolation::{classify, execute, ChildStatus, ExecutionFailure};
pub use json::Json;
pub use memory::{read_resident_bytes, PeakMemory};
pub use metrics::Metrics;
pub use report::Report;
pub use result::{BenchmarkResult, Timing};
pub use run::BenchmarkRun;
pub use suite::Benchmark;
