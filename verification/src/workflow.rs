//! The decisions the command workflows take between reads and writes of
//! the store.

pub mod cycle;
pub mod cycle_report;
