//! A small time-tracking library: named stopwatch timers with completed
//! interval records, an optional in-progress run, and a registry that keeps
//! at most one "active" timer selected.

pub mod error;
pub mod json;
pub mod record;
pub mod state;
pub mod timer;
