//! Entities, value types and pure rules of the task tracker and the session
//! metrics.

pub mod cycle;
pub mod cycle_report;
pub mod dependency;
pub mod log;
pub mod metrics;
pub mod migrate;
pub mod error;
pub mod project;
pub mod report;
pub mod status;
pub mod task;
pub mod task_metrics;
pub mod task_size;
pub mod token_usage;
pub mod tool_stats;
pub mod value;
