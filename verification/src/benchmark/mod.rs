//! Measuring how long recommendations take on synthetic catalogues.
pub mod clock;
pub mod runner;
pub mod synthetic;

pub use runner::{
    run_benchmark, run_benchmark_with_config, summarize_samples, BenchmarkConfig, BenchmarkRow,
    BENCHMARK_MAX_DEPTH, BENCHMARK_RECOMMENDATION_LIMIT, BENCHMARK_REPETITIONS, BENCHMARK_VOLUMES,
};
pub use synthetic::build_synthetic_store;
