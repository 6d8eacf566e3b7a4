//! Verified core of a live host-telemetry monitor.
//!
//! The library holds the sampling engine's logic: turning raw OS counters
//! into display-ready metric snapshots (rates, percentages, formatted
//! strings) and deciding how a snapshot is applied to the UI mirror state.
//! All I/O — reading the counters and driving the actual UI — lives outside
//! the library.

pub mod filter;
pub mod identity;
pub mod process;
pub mod publish;
pub mod rate;
pub mod rounding;
pub mod snapshot;
pub mod text;
