//! Sums over ranges of integers.
use vstd::prelude::*;

verus! {

/// `start + (start + 1) + ... + (end - 1)`; zero for an empty range.
pub open spec fn range_sum_spec(start: int, end: int) -> int
    decreases end - start,
{
    if end <= start {
        0
    } else {
        range_sum_spec(start, end - 1) + (end - 1)
    }
}

proof fn lemma_range_sum_closed(start: int, end: int)
    requires
        0 <= start <= end,
    ensures
        2 * range_sum_spec(start, end) == end * (end - 1) - start * (start - 1),
    decreases end - start,
{
    if end > start {
        lemma_range_sum_closed(start, end - 1);
        assert(end * (end - 1) == (end - 1) * (end - 2) + 2 * (end - 1)) by (nonlinear_arith);
    }
}

/// The sum of the integers from `start` up to, not including, `end`.
pub fn range_sum(start: u32, end: u32) -> (r: u64)
    ensures
        r == range_sum_spec(start as int, end as int),
{
    if end <= start {
        return 0;
    }
    let mut sum: u64 = 0;
    let mut i: u32 = start;
    while i < end
        invariant
            start <= i <= end,
            sum == range_sum_spec(start as int, i as int),
        decreases end - i,
    {
        proof {
            lemma_range_sum_closed(start as int, i + 1);
            assert((i + 1) * (i as int) <= 0x1_0000_0000 * 0x1_0000_0000) by (nonlinear_arith)
                requires
                    i < 0x1_0000_0000,
            ;
            assert(start * (start - 1) >= 0) by (nonlinear_arith)
                requires
                    start >= 0,
            ;
        }
        sum = sum + i as u64;
        i = i + 1;
    }
    sum
}

} // verus!
