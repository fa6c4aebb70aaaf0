//! The fixed interval and the four ways of summing it: one sequential pass,
//! four blocks, eight blocks, and eight blocks summed chunk by chunk into a
//! shared accumulator.
use vstd::prelude::*;
use crate::partition::{is_partition, lemma_partition_sum, partition, Block};
use crate::range_sum::{lemma_range_sum_closed_form, lemma_range_sum_split, range_sum, sum_range};
use crate::total::{lemma_sum_order_independent, seq_sum};
use crate::{RANGE_LAST, RANGE_START};

verus! {

/// The sum of every integer from `RANGE_START` to `RANGE_LAST` inclusive.
pub const RANGE_TOTAL: u128 = 12_000_003_000_000;

/// Index of the first block of the four-way partition.
pub const FOUR_WAY_FIRST_INDEX: u64 = 1;

/// Number of blocks of the four-way partition.
pub const FOUR_WAY_BLOCKS: u64 = 4;

/// Integers per block of the four-way partition.
pub const FOUR_WAY_BLOCK_SIZE: u64 = 1_000_000;

/// Index of the first block of the eight-way partitions.
pub const EIGHT_WAY_FIRST_INDEX: u64 = 2;

/// Number of blocks of the eight-way partitions.
pub const EIGHT_WAY_BLOCKS: u64 = 8;

/// Integers per block of the eight-way partitions.
pub const EIGHT_WAY_BLOCK_SIZE: u64 = 500_000;

/// Chunks that a worker of the shared-accumulator strategy splits its block into.
pub const CHUNKS_PER_BLOCK: u64 = 50;

/// Integers per chunk of the shared-accumulator strategy.
pub const CHUNK_SIZE: u64 = 10_000;

/// `blocks` are the four blocks of a million integers that tile
/// `[RANGE_START, RANGE_LAST)`.
pub open spec fn is_four_way_plan(blocks: Seq<Block>) -> bool {
    blocks.len() == FOUR_WAY_BLOCKS && is_partition(
        blocks,
        RANGE_START as int,
        FOUR_WAY_BLOCK_SIZE as int,
    )
}

/// `blocks` are the eight blocks of half a million integers that tile
/// `[RANGE_START, RANGE_LAST)`.
pub open spec fn is_eight_way_plan(blocks: Seq<Block>) -> bool {
    blocks.len() == EIGHT_WAY_BLOCKS && is_partition(
        blocks,
        RANGE_START as int,
        EIGHT_WAY_BLOCK_SIZE as int,
    )
}

/// Sums the whole interval in one pass.
pub fn sequential_sum() -> (r: u128)
    ensures
        r == range_sum(RANGE_START as int, RANGE_LAST + 1),
        r == RANGE_TOTAL,
{
    proof {
        lemma_fixed_range_total();
    }
    sum_range(RANGE_START, RANGE_LAST + 1)
}

/// The blocks of the four-way strategy.
pub fn four_way_blocks() -> (r: Vec<Block>)
    ensures
        is_four_way_plan(r@),
{
    partition(FOUR_WAY_FIRST_INDEX, FOUR_WAY_BLOCKS, FOUR_WAY_BLOCK_SIZE)
}

/// The blocks of the two eight-way strategies.
pub fn eight_way_blocks() -> (r: Vec<Block>)
    ensures
        is_eight_way_plan(r@),
{
    partition(EIGHT_WAY_FIRST_INDEX, EIGHT_WAY_BLOCKS, EIGHT_WAY_BLOCK_SIZE)
}

/// The interval sums to `RANGE_TOTAL`, and leaving out its last integer
/// and adding it back afterwards gives the same.
pub proof fn lemma_fixed_range_total()
    ensures
        range_sum(RANGE_START as int, RANGE_LAST + 1) == RANGE_TOTAL,
        range_sum(RANGE_START as int, RANGE_LAST as int) + RANGE_LAST == RANGE_TOTAL,
{
    lemma_range_sum_closed_form(1_000_000, 5_000_001);
    assert(2 * range_sum(1_000_000, 5_000_001) == 24_000_006_000_000) by {
        assert((5_000_001 - 1_000_000) * (1_000_000 + 5_000_001 - 1) == 24_000_006_000_000int)
            by (nonlinear_arith);
    }
    lemma_range_sum_split(1_000_000, 5_000_000, 5_000_001);
    assert(range_sum(5_000_000, 5_000_001) == 5_000_000) by {
        assert(range_sum(5_000_000, 5_000_000) == 0);
    }
}

/// Every partitioned strategy agrees with the sequential one: given the
/// blocks of the four-way or the eight-way plan and one sum per block, in
/// whatever order the sums come back, their total plus `RANGE_LAST` is
/// `RANGE_TOTAL`. The chunked workers of the shared-accumulator strategy
/// return block sums too, so this covers it as well.
pub proof fn lemma_partitioned_total(blocks: Seq<Block>, in_order: Seq<u128>, received: Seq<u128>)
    requires
        is_four_way_plan(blocks) || is_eight_way_plan(blocks),
        in_order.len() == blocks.len(),
        forall|i: int|
            0 <= i < in_order.len() ==> #[trigger] in_order[i] == range_sum(
                blocks[i].start as int,
                blocks[i].end as int,
            ),
        received.to_multiset() =~= in_order.to_multiset(),
    ensures
        seq_sum(received) + RANGE_LAST == RANGE_TOTAL,
{
    lemma_sum_order_independent(received, in_order);
    lemma_fixed_range_total();
    if is_four_way_plan(blocks) {
        lemma_partition_sum(blocks, in_order, RANGE_START as int, FOUR_WAY_BLOCK_SIZE as int);
    } else {
        lemma_partition_sum(blocks, in_order, RANGE_START as int, EIGHT_WAY_BLOCK_SIZE as int);
    }
}

} // verus!
