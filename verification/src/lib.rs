//! Rolling latency statistics with a verified publish/snapshot protocol.
//!
//! Each monitored endpoint owns an [`stats::EndpointStats`]: a fixed-capacity
//! circular window of its most recent latency samples together with a
//! streaming aggregate over its entire history. Derived statistics
//! (last, min, max, mean, standard deviation, p95, p99) are exposed with
//! lazy recomputation, and published to readers through a
//! [`snapshot::SnapshotStore`] that never exposes a torn snapshot. A
//! [`worker::ProbeWorker`] holds one endpoint's place in the
//! measure-record-publish cycle, [`render`] and [`text`] compute everything
//! the table drawing needs, and [`laws`] states what holds of arbitrary
//! histories.
//!
//! Latencies are carried as whole microseconds.

use vstd::prelude::*;

pub mod aggregate;
pub mod buffer;
pub mod laws;
pub mod model;
pub mod render;
pub mod snapshot;
pub mod sorting;
pub mod stats;
pub mod text;
pub mod worker;

verus! {

/// Default number of samples retained in an endpoint's window.
pub const CAPACITY: usize = 128;

/// Largest admissible window capacity; keeps every slot and rank
/// computation inside `usize` on any platform.
pub const CAPACITY_LIMIT: usize = 0x100_0000;

/// Largest admissible latency sample, in microseconds (about 16.7 seconds).
/// Keeping samples below this bound lets every aggregate computation stay
/// exact in 128-bit arithmetic.
pub const MAX_SAMPLE_MICROS: u64 = 0xFF_FFFF;

/// Largest number of samples an aggregate may absorb; together with
/// [`MAX_SAMPLE_MICROS`] this keeps the variance numerator below `2^128`.
pub const MAX_SAMPLE_COUNT: u64 = 0x100_0000_0000;

} // verus!
