//! Contiguous blocks of an interval and the sums of single blocks.
use vstd::prelude::*;
use crate::range_sum::{chunked_sum, lemma_range_sum_split, range_sum, sum_range};
use crate::total::seq_sum;

verus! {

/// The half-open interval `[start, end)` that one worker sums.
#[derive(Clone, Copy, Debug, PartialEq, Eq, Structural)]
pub struct Block {
    pub start: u64,
    pub end: u64,
}

/// Block `i` of `blocks` is `[origin + i * size, origin + (i + 1) * size)`:
/// the blocks follow each other with no gap or overlap.
pub open spec fn is_partition(blocks: Seq<Block>, origin: int, size: int) -> bool {
    forall|i: int|
        0 <= i < blocks.len() ==> {
            &&& (#[trigger] blocks[i]).start == origin + i * size
            &&& blocks[i].end == origin + (i + 1) * size
        }
}

/// `count` consecutive blocks of `block_size` integers, the first one starting
/// at `first_index * block_size`.
pub fn partition(first_index: u64, count: u64, block_size: u64) -> (r: Vec<Block>)
    requires
        first_index + count <= u64::MAX,
        (first_index + count) * block_size <= u64::MAX,
    ensures
        r@.len() == count,
        is_partition(r@, first_index * block_size, block_size as int),
{
    let mut blocks: Vec<Block> = Vec::new();
    let mut i: u64 = 0;
    while i < count
        invariant
            i <= count,
            first_index + count <= u64::MAX,
            (first_index + count) * block_size <= u64::MAX,
            blocks@.len() == i,
            is_partition(blocks@, first_index * block_size, block_size as int),
        decreases count - i,
    {
        proof {
            assert((first_index + i + 1) * block_size <= (first_index + count) * block_size)
                by (nonlinear_arith)
                requires
                    i < count,
                    0 <= block_size,
            ;
            assert((first_index + i) * block_size + block_size == (first_index + i + 1)
                * block_size) by (nonlinear_arith);
            assert((first_index + i) * block_size == first_index * block_size + i * block_size)
                by (nonlinear_arith);
            assert((first_index + i + 1) * block_size == first_index * block_size + (i + 1)
                * block_size) by (nonlinear_arith);
        }
        let start: u64 = (first_index + i) * block_size;
        let end: u64 = start + block_size;
        blocks.push(Block { start, end });
        i = i + 1;
    }
    blocks
}

/// The sum of every integer of the block.
pub fn block_sum(b: Block) -> (r: u128)
    ensures
        r == range_sum(b.start as int, b.end as int),
{
    sum_range(b.start, b.end)
}

/// The sum of every integer of the block, taken `chunk_count` chunks of
/// `chunk_size` integers at a time; the chunks must tile the block exactly.
pub fn chunked_block_sum(b: Block, chunk_count: u64, chunk_size: u64) -> (r: u128)
    requires
        b.end == b.start + chunk_count * chunk_size,
    ensures
        r == range_sum(b.start as int, b.end as int),
{
    chunked_sum(b.start, chunk_count, chunk_size)
}

/// Summing each block of a partition and adding the block sums gives the sum
/// of the whole interval the partition covers, whatever the number of blocks.
pub proof fn lemma_partition_sum(blocks: Seq<Block>, sums: Seq<u128>, origin: int, size: int)
    requires
        0 <= size,
        is_partition(blocks, origin, size),
        sums.len() == blocks.len(),
        forall|i: int|
            0 <= i < sums.len() ==> #[trigger] sums[i] == range_sum(
                blocks[i].start as int,
                blocks[i].end as int,
            ),
    ensures
        seq_sum(sums) == range_sum(origin, origin + blocks.len() * size),
    decreases blocks.len(),
{
    let n = blocks.len() as int;
    if n > 0 {
        let head = blocks.drop_last();
        assert(is_partition(head, origin, size)) by {
            assert forall|i: int| 0 <= i < head.len() implies {
                &&& (#[trigger] head[i]).start == origin + i * size
                &&& head[i].end == origin + (i + 1) * size
            } by {
                assert(head[i] == blocks[i]);
            }
        }
        assert forall|i: int| 0 <= i < sums.drop_last().len() implies #[trigger] sums.drop_last()[i]
            == range_sum(head[i].start as int, head[i].end as int) by {
            assert(sums.drop_last()[i] == sums[i]);
            assert(head[i] == blocks[i]);
        }
        lemma_partition_sum(head, sums.drop_last(), origin, size);
        assert(blocks[n - 1].start == origin + (n - 1) * size);
        assert(blocks[n - 1].end == origin + n * size) by {
            assert(blocks[n - 1].end == origin + (n - 1 + 1) * size);
        }
        assert(origin <= origin + (n - 1) * size <= origin + n * size) by (nonlinear_arith)
            requires
                0 <= size,
                n > 0,
        ;
        lemma_range_sum_split(origin, origin + (n - 1) * size, origin + n * size);
    } else {
        assert(n * size == 0) by (nonlinear_arith)
            requires
                n == 0,
        ;
    }
}

} // verus!
