//! Domain logic of the seogi harness-measurement tool: task, status and
//! cycle rules, metric calculations and report formatting.

pub mod analyzers;
pub mod config;
pub mod digest;
pub mod domain;
pub mod ident;
pub mod json;
pub mod listing;
pub mod log_reader;
pub mod metrics_files;
pub mod models;
pub mod notify;
pub mod pattern;
pub mod query;
pub mod text;
pub mod time;
pub mod timing;
pub mod transcript;
pub mod workflow;
