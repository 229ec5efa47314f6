//! Core logic of a student-information backend: a bounded, time-expiring
//! cache with in-flight request coalescing, and a fan-out aggregator that
//! merges per-subject attendance events into per-date summaries while
//! tolerating partial upstream failure.

use vstd::prelude::*;

pub mod aggregate;
pub mod api;
pub mod assoc;
pub mod cache;
pub mod config;
pub mod coordinator;
pub mod date;
pub mod errors;
pub mod flow;
pub mod keys;
pub mod login;
pub mod models;
pub mod reshape;
pub mod text;

verus! {

/// Milliseconds each cache entry stays fresh: five minutes.
pub const CACHE_TTL_MILLIS: u64 = 300000;

/// Most entries a single cache may hold at once.
pub const CACHE_MAX_CAPACITY: usize = 1000;

} // verus!
