//! Summing a fixed integer interval, sequentially and by partitioning it into
//! contiguous blocks whose partial sums are combined afterwards.
//!
//! The arithmetic lives here and is verified; running the block sums on
//! separate threads is left to the caller.
use vstd::prelude::*;

pub mod partition;
pub mod range_sum;
pub mod strategy;
pub mod total;

verus! {

/// The first integer of the summed interval.
pub const RANGE_START: u64 = 1_000_000;

/// The last integer of the summed interval. The blocks of the partitioned
/// strategies cover `[RANGE_START, RANGE_LAST)` and leave it out, so it is
/// added once after their partial sums are combined.
pub const RANGE_LAST: u64 = 5_000_000;

} // verus!
