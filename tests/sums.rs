use parallel_sum::partition::{block_sum, chunked_block_sum, partition, Block};
use parallel_sum::range_sum::{chunked_sum, sum_range};
use parallel_sum::strategy::{
    eight_way_blocks, four_way_blocks, sequential_sum, CHUNKS_PER_BLOCK, CHUNK_SIZE,
    RANGE_TOTAL,
};
use parallel_sum::total::{combine_partials, Accumulator};
use parallel_sum::{RANGE_LAST, RANGE_START};

fn block(start: u64, end: u64) -> Block {
    Block { start, end }
}

#[test]
fn sequential_sum_matches_closed_form() {
    let count: u128 = (RANGE_LAST - RANGE_START + 1) as u128;
    let average: u128 = ((RANGE_START + RANGE_LAST) / 2) as u128;
    assert_eq!(count * average, 12_000_003_000_000);
    assert_eq!(sequential_sum(), 12_000_003_000_000);
    assert_eq!(sequential_sum(), RANGE_TOTAL);
}

#[test]
fn four_way_strategy_gives_the_total() {
    let partials: Vec<u128> = four_way_blocks().into_iter().map(block_sum).collect();
    assert_eq!(combine_partials(&partials), Some(RANGE_TOTAL));
}

#[test]
fn eight_way_strategy_gives_the_total() {
    let partials: Vec<u128> = eight_way_blocks().into_iter().map(block_sum).collect();
    assert_eq!(combine_partials(&partials), Some(RANGE_TOTAL));
}

#[test]
fn chunked_accumulator_strategy_gives_the_total() {
    let mut acc = Accumulator::new();
    for b in eight_way_blocks() {
        acc.add(chunked_block_sum(b, CHUNKS_PER_BLOCK, CHUNK_SIZE));
    }
    assert_eq!(acc.finish(), Some(RANGE_TOTAL));
}

#[test]
fn all_strategies_agree() {
    let four: Vec<u128> = four_way_blocks().into_iter().map(block_sum).collect();
    let eight: Vec<u128> = eight_way_blocks().into_iter().map(block_sum).collect();
    let mut acc = Accumulator::new();
    for b in eight_way_blocks() {
        acc.add(chunked_block_sum(b, CHUNKS_PER_BLOCK, CHUNK_SIZE));
    }
    let seq = sequential_sum();
    assert_eq!(combine_partials(&four), Some(seq));
    assert_eq!(combine_partials(&eight), Some(seq));
    assert_eq!(acc.finish(), Some(seq));
}

#[test]
fn completion_order_does_not_change_the_total() {
    let mut partials: Vec<u128> = eight_way_blocks().into_iter().map(block_sum).collect();
    partials.reverse();
    assert_eq!(combine_partials(&partials), Some(RANGE_TOTAL));
    let interleaved: Vec<u128> = vec![
        partials[1], partials[6], partials[3], partials[0], partials[7], partials[2],
        partials[5], partials[4],
    ];
    assert_eq!(combine_partials(&interleaved), Some(RANGE_TOTAL));

    let mut acc = Accumulator::new();
    for b in eight_way_blocks().into_iter().rev() {
        acc.add(chunked_block_sum(b, CHUNKS_PER_BLOCK, CHUNK_SIZE));
    }
    assert_eq!(acc.finish(), Some(RANGE_TOTAL));
}

#[test]
fn repeated_runs_give_the_same_sum() {
    assert_eq!(sequential_sum(), sequential_sum());
    let first: Vec<u128> = four_way_blocks().into_iter().map(block_sum).collect();
    let second: Vec<u128> = four_way_blocks().into_iter().map(block_sum).collect();
    assert_eq!(combine_partials(&first), combine_partials(&second));
}

#[test]
fn four_way_blocks_tile_the_range() {
    let blocks = four_way_blocks();
    assert_eq!(
        blocks,
        vec![
            block(1_000_000, 2_000_000),
            block(2_000_000, 3_000_000),
            block(3_000_000, 4_000_000),
            block(4_000_000, 5_000_000),
        ]
    );
    assert_eq!(blocks[0].start, RANGE_START);
    assert_eq!(blocks[blocks.len() - 1].end, RANGE_LAST);
    for w in blocks.windows(2) {
        assert_eq!(w[0].end, w[1].start);
    }
}

#[test]
fn eight_way_blocks_tile_the_range() {
    let blocks = eight_way_blocks();
    assert_eq!(blocks.len(), 8);
    assert_eq!(blocks[0], block(1_000_000, 1_500_000));
    assert_eq!(blocks[7], block(4_500_000, 5_000_000));
    assert_eq!(blocks[0].start, RANGE_START);
    assert_eq!(blocks[7].end, RANGE_LAST);
    for w in blocks.windows(2) {
        assert_eq!(w[0].end, w[1].start);
        assert_eq!(w[0].end - w[0].start, 500_000);
    }
}

#[test]
fn chunks_tile_each_block() {
    assert_eq!(CHUNKS_PER_BLOCK * CHUNK_SIZE, 500_000);
    for b in eight_way_blocks() {
        assert_eq!(b.start + CHUNKS_PER_BLOCK * CHUNK_SIZE, b.end);
        assert_eq!(chunked_block_sum(b, CHUNKS_PER_BLOCK, CHUNK_SIZE), block_sum(b));
    }
}

#[test]
fn sum_range_exact_values() {
    assert_eq!(sum_range(1, 11), 55);
    assert_eq!(sum_range(0, 1), 0);
    assert_eq!(sum_range(10, 11), 10);
    assert_eq!(sum_range(1_000_000, 2_000_000), 1_499_999_500_000);
}

#[test]
fn sum_range_of_empty_interval_is_zero() {
    assert_eq!(sum_range(5, 5), 0);
    assert_eq!(sum_range(7, 3), 0);
}

#[test]
fn sum_range_at_the_top_of_u64() {
    assert_eq!(sum_range(u64::MAX - 1, u64::MAX), (u64::MAX - 1) as u128);
    assert_eq!(
        sum_range(u64::MAX - 3, u64::MAX),
        3 * (u64::MAX as u128) - 6
    );
}

#[test]
fn chunked_sum_exact_values() {
    assert_eq!(chunked_sum(0, 10, 10), 4_950);
    assert_eq!(chunked_sum(1, 5, 2), 55);
    assert_eq!(chunked_sum(100, 0, 10), 0);
    assert_eq!(chunked_sum(100, 10, 0), 0);
}

#[test]
fn partition_exact_blocks() {
    assert_eq!(partition(3, 2, 10), vec![block(30, 40), block(40, 50)]);
    assert_eq!(partition(3, 0, 10), vec![]);
    assert_eq!(partition(1, 2, 0), vec![block(0, 0), block(0, 0)]);
}

#[test]
fn block_sum_exact_value() {
    assert_eq!(block_sum(block(1, 11)), 55);
    assert_eq!(block_sum(block(4, 4)), 0);
}

#[test]
fn combine_adds_the_endpoint() {
    assert_eq!(combine_partials(&vec![]), Some(5_000_000));
    assert_eq!(combine_partials(&vec![1, 2, 3]), Some(5_000_006));
}

#[test]
fn combine_reports_overflow() {
    assert_eq!(combine_partials(&vec![u128::MAX]), None);
    assert_eq!(combine_partials(&vec![u128::MAX - 5_000_000]), Some(u128::MAX));
    assert_eq!(combine_partials(&vec![u128::MAX - 5_000_000, 1]), None);
    assert_eq!(combine_partials(&vec![u128::MAX / 2 + 1, u128::MAX / 2 + 1, 0]), None);
}

#[test]
fn accumulator_adds_and_finishes() {
    let mut acc = Accumulator::new();
    assert_eq!(acc.total(), 0);
    acc.add(10);
    acc.add(32);
    assert_eq!(acc.total(), 42);
    assert_eq!(acc.finish(), Some(5_000_042));
}

#[test]
fn accumulator_finish_reports_overflow() {
    let mut acc = Accumulator::new();
    acc.add(u128::MAX);
    assert_eq!(acc.finish(), None);
}
