//! Core of a background agent that watches dashboard/tab test-result feeds
//! and raises an alert exactly once per transition into a failing state.
//!
//! The verified library holds the subscription model, the per-key status
//! cache, the edge-triggered alert decision, and the scheduler state machine.
//! The surrounding application performs the HTTP fetches, the sleeping, and
//! the delivery of notifications, feeding plain values in and out.

pub mod status;
pub mod subscription;
pub mod text;
pub mod watcher;
