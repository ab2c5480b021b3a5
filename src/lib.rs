//! Telemetry extraction and rolling history for a terminal system monitor.
//!
//! The library turns the textual report of a hardware sampler into a
//! structured `Metrics` value and a per-cluster table, reads the machine's
//! identity from `key: value` reports, keeps a bounded history of package
//! power, merges producer events on a bounded queue that keeps only the
//! newest snapshot, decides the sampler's retry delay, and holds the
//! consumer-side application state.

pub mod app;
pub mod clusters;
pub mod event;
pub mod history;
pub mod metrics;
pub mod sampler;
pub mod soc;
pub mod text;
