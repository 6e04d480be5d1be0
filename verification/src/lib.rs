//! Bridge between the `coz` causal profiler and `tracing`.
//!
//! Spans become throughput counter pairs and events become progress
//! counters. The bridge keeps the tables that tie span names to identities and
//! identities to counters, and every callback has a contract over a
//! mathematical view of those tables.

pub mod bridge;
pub mod counters;
pub mod identity;
pub mod interest;
pub mod laws;
pub mod model;
pub mod tables;
pub mod trace;

pub use bridge::{SpanError, TracingCozBridge};
