//! Sums over half-open integer intervals.
use vstd::prelude::*;

verus! {

/// Sum of the integers in the half-open interval `[lo, hi)`; zero when it is empty.
pub open spec fn range_sum(lo: int, hi: int) -> int
    decreases hi - lo,
{
    if hi <= lo {
        0
    } else {
        range_sum(lo, hi - 1) + (hi - 1)
    }
}

/// Twice the sum of `[lo, hi)` is its length times `lo + hi - 1`.
pub proof fn lemma_range_sum_closed_form(lo: int, hi: int)
    requires
        lo <= hi,
    ensures
        2 * range_sum(lo, hi) == (hi - lo) * (lo + hi - 1),
    decreases hi - lo,
{
    if hi > lo {
        lemma_range_sum_closed_form(lo, hi - 1);
        assert(range_sum(lo, hi) == range_sum(lo, hi - 1) + (hi - 1));
        assert((hi - 1 - lo) * (lo + hi - 2) + 2 * (hi - 1) == (hi - lo) * (lo + hi - 1))
            by (nonlinear_arith);
    } else {
        assert((hi - lo) * (lo + hi - 1) == 0) by (nonlinear_arith)
            requires
                hi == lo,
        ;
    }
}

/// Cutting an interval at an inner point cuts its sum in two.
pub proof fn lemma_range_sum_split(lo: int, mid: int, hi: int)
    requires
        lo <= mid <= hi,
    ensures
        range_sum(lo, hi) == range_sum(lo, mid) + range_sum(mid, hi),
    decreases hi - mid,
{
    if hi > mid {
        lemma_range_sum_split(lo, mid, hi - 1);
    }
}

/// Over natural numbers the sum of `[lo, hi)` lies between zero and `hi * hi`.
pub proof fn lemma_range_sum_bounds(lo: int, hi: int)
    requires
        0 <= lo,
    ensures
        0 <= range_sum(lo, hi) <= hi * hi,
{
    if lo < hi {
        lemma_range_sum_closed_form(lo, hi);
        assert(0 <= (hi - lo) * (lo + hi - 1) <= 2 * (hi * hi)) by (nonlinear_arith)
            requires
                0 <= lo < hi,
        ;
    } else {
        assert(0 <= hi * hi) by (nonlinear_arith);
    }
}

/// Adds up every integer of `[lo, hi)`; an empty interval sums to zero.
pub fn sum_range(lo: u64, hi: u64) -> (r: u128)
    ensures
        r == range_sum(lo as int, hi as int),
{
    if hi <= lo {
        return 0;
    }
    let mut sum: u128 = 0;
    let mut k: u64 = lo;
    while k < hi
        invariant
            lo <= k <= hi,
            sum == range_sum(lo as int, k as int),
        decreases hi - k,
    {
        proof {
            lemma_range_sum_bounds(lo as int, k as int);
            assert(k * k + k < 0x1_0000_0000_0000_0000_0000_0000_0000_0000) by (nonlinear_arith)
                requires
                    k < 0x1_0000_0000_0000_0000,
            ;
        }
        sum = sum + k as u128;
        k = k + 1;
    }
    sum
}

/// Adds up `[start, start + chunk_count * chunk_size)` one chunk of
/// `chunk_size` consecutive integers at a time, keeping one running total.
pub fn chunked_sum(start: u64, chunk_count: u64, chunk_size: u64) -> (r: u128)
    requires
        start + chunk_count * chunk_size <= u64::MAX,
    ensures
        r == range_sum(start as int, start + chunk_count * chunk_size),
{
    let mut partial: u128 = 0;
    let mut j: u64 = 0;
    while j < chunk_count
        invariant
            j <= chunk_count,
            start + chunk_count * chunk_size <= u64::MAX,
            partial == range_sum(start as int, start + j * chunk_size),
        decreases chunk_count - j,
    {
        proof {
            assert(j * chunk_size + chunk_size <= chunk_count * chunk_size) by (nonlinear_arith)
                requires
                    j < chunk_count,
            ;
        }
        let chunk_start: u64 = start + j * chunk_size;
        let chunk_end: u64 = chunk_start + chunk_size;
        let chunk = sum_range(chunk_start, chunk_end);
        proof {
            lemma_range_sum_split(start as int, chunk_start as int, chunk_end as int);
            lemma_range_sum_bounds(start as int, chunk_end as int);
            lemma_range_sum_bounds(chunk_start as int, chunk_end as int);
            assert(chunk_end * chunk_end < 0x1_0000_0000_0000_0000_0000_0000_0000_0000) by (nonlinear_arith)
                requires
                    chunk_end < 0x1_0000_0000_0000_0000,
            ;
            assert(start + (j + 1) * chunk_size == chunk_end) by (nonlinear_arith)
                requires
                    chunk_end == start + j * chunk_size + chunk_size,
            ;
        }
        partial = partial + chunk;
        j = j + 1;
    }
    partial
}

} // verus!
