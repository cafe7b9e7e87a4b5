//! A load generator's verified core: run configuration, the batch plan and
//! stop decisions, the shared statistics record, and latency statistics.

pub mod config;
pub mod endpoint;
pub mod engine;
pub mod latency;
pub mod stats;
pub mod text;
