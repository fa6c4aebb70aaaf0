//! Combining partial sums into the final total.
use vstd::prelude::*;
use vstd::seq_lib::group_to_multiset_ensures;
use crate::RANGE_LAST;

verus! {

/// The sum of all entries of `s`.
pub open spec fn seq_sum(s: Seq<u128>) -> int
    decreases s.len(),
{
    if s.len() == 0 {
        0
    } else {
        seq_sum(s.drop_last()) + s.last()
    }
}

/// A sum of unsigned entries is at least the sum of any prefix of them.
pub proof fn lemma_seq_sum_prefix(s: Seq<u128>, k: int)
    requires
        0 <= k <= s.len(),
    ensures
        0 <= seq_sum(s.take(k)) <= seq_sum(s),
    decreases s.len(),
{
    if k < s.len() {
        lemma_seq_sum_prefix(s.drop_last(), k);
        assert(s.drop_last().take(k) =~= s.take(k));
    } else {
        assert(s.take(k) =~= s);
        lemma_seq_sum_prefix_nonneg(s);
    }
}

proof fn lemma_seq_sum_prefix_nonneg(s: Seq<u128>)
    ensures
        0 <= seq_sum(s),
    decreases s.len(),
{
    if s.len() > 0 {
        lemma_seq_sum_prefix_nonneg(s.drop_last());
    }
}

/// Taking one entry out of a sequence takes exactly that entry off its sum.
pub proof fn lemma_seq_sum_remove(s: Seq<u128>, i: int)
    requires
        0 <= i < s.len(),
    ensures
        seq_sum(s) == seq_sum(s.remove(i)) + s[i],
    decreases s.len(),
{
    if i < s.len() - 1 {
        let t = s.remove(i);
        assert(t.drop_last() =~= s.drop_last().remove(i));
        assert(t.last() == s.last());
        lemma_seq_sum_remove(s.drop_last(), i);
    } else {
        assert(s.remove(i) =~= s.drop_last());
    }
}

/// The total does not depend on the order in which the partial sums arrive:
/// any two sequences holding the same entries the same number of times have
/// the same sum.
pub proof fn lemma_sum_order_independent(a: Seq<u128>, b: Seq<u128>)
    requires
        a.to_multiset() =~= b.to_multiset(),
    ensures
        seq_sum(a) == seq_sum(b),
    decreases b.len(),
{
    broadcast use group_to_multiset_ensures;

    if b.len() == 0 {
        assert(b.to_multiset().len() == 0);
        assert(a.to_multiset().len() == 0);
    } else {
        let x = b.last();
        let rest = b.drop_last();
        assert(b =~= rest.push(x));
        assert(b.to_multiset() =~= rest.to_multiset().insert(x));
        assert(a.to_multiset().count(x) > 0);
        assert(a.contains(x));
        let i = choose|i: int| 0 <= i < a.len() && a[i] == x;
        assert(a.remove(i).to_multiset() =~= a.to_multiset().remove(x));
        lemma_sum_order_independent(a.remove(i), rest);
        lemma_seq_sum_remove(a, i);
    }
}

/// Adds all partial sums and then the endpoint `RANGE_LAST` that the blocks
/// leave out; `None` exactly when that total does not fit in a `u128`.
pub fn combine_partials(partials: &Vec<u128>) -> (r: Option<u128>)
    ensures
        match r {
            Some(t) => t == seq_sum(partials@) + RANGE_LAST,
            None => seq_sum(partials@) + RANGE_LAST > u128::MAX,
        },
{
    let mut total: u128 = 0;
    let mut i: usize = 0;
    while i < partials.len()
        invariant
            i <= partials@.len(),
            total == seq_sum(partials@.take(i as int)),
        decreases partials@.len() - i,
    {
        assert(partials@.take(i as int + 1).drop_last() =~= partials@.take(i as int));
        match total.checked_add(partials[i]) {
            Some(t) => {
                total = t;
            },
            None => {
                proof {
                    lemma_seq_sum_prefix(partials@, i as int + 1);
                }
                return None;
            },
        }
        i = i + 1;
    }
    assert(partials@.take(i as int) =~= partials@);
    total.checked_add(RANGE_LAST as u128)
}

/// The running total that every worker adds its partial sum into.
pub struct Accumulator {
    total: u128,
}

impl View for Accumulator {
    type V = int;

    closed spec fn view(&self) -> int {
        self.total as int
    }
}

impl Accumulator {
    /// An accumulator holding zero.
    pub fn new() -> (r: Self)
        ensures
            r@ == 0,
    {
        Accumulator { total: 0 }
    }

    /// The total added so far.
    pub fn total(&self) -> (r: u128)
        ensures
            r == self@,
    {
        self.total
    }

    /// Adds one partial sum; the total must stay within `u128`.
    pub fn add(&mut self, partial: u128)
        requires
            old(self)@ + partial <= u128::MAX,
        ensures
            final(self)@ == old(self)@ + partial,
    {
        self.total = self.total + partial;
    }

    /// The total plus the endpoint `RANGE_LAST`; `None` exactly when that does
    /// not fit in a `u128`.
    pub fn finish(&self) -> (r: Option<u128>)
        ensures
            match r {
                Some(t) => t == self@ + RANGE_LAST,
                None => self@ + RANGE_LAST > u128::MAX,
            },
    {
        self.total.checked_add(RANGE_LAST as u128)
    }
}

} // verus!
