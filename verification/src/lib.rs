//! A predictive prefetcher for address access streams.
//!
//! The engine watches a stream of integer addresses, classifies the recent
//! access history as sequential, strided, repeated or unknown, keeps a
//! per-address pattern descriptor table, and emits bounded batches of
//! predicted next addresses whenever a descriptor's confidence clears an
//! adaptive threshold. Hits and misses against earlier predictions feed the
//! confidence model, closing the learning loop.
//!
//! Confidence values and thresholds are fixed-point numbers in thousandths:
//! `1000` stands for full confidence (`1.0`).

use vstd::prelude::*;

pub mod classify;
pub mod delivery;
pub mod engine;
pub mod laws;
pub mod pattern;

pub use delivery::PredictionBatch;
pub use engine::{ConfigError, PredictivePrefetcher};
pub use pattern::{AccessPattern, PatternType};

verus! {

/// Fixed-point scale: `1000` represents a confidence of `1.0`.
pub const CONFIDENCE_SCALE: u32 = 1000;

} // verus!
