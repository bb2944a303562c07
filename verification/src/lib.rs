//! Locating frames of digitiser data in an append-only, time-ordered message log.
//!
//! The log is searched without an index: a coarse-to-fine backward search over
//! trailing offsets finds a staging position near a target timestamp, a forward
//! scan groups the records that follow into frames and keeps those of the accepted
//! digitisers, and a cache merges trace and event-list records of the same frame.
//! The searches are written as step functions: the caller performs each requested
//! fetch and hands the outcome back, so that it decides how and when to wait.
pub mod assoc;
pub mod bounds;
pub mod cache;
pub mod cli_structs;
pub mod data;
pub mod engine;
pub mod finder;
pub mod messages;
pub mod output;
pub mod tabs;
pub mod timestamp;
pub mod tui;

pub use timestamp::Timestamp;

use vstd::prelude::*;

verus! {

/// Number of a digitiser channel.
pub type Channel = u32;

/// Number of a digitiser.
pub type DigitizerId = u8;

/// One sample of signal intensity.
pub type Intensity = u16;

/// Index of a time bin within a frame.
pub type Time = u32;

} // verus!
