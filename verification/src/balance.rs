//! Sums of note values, as the value balance of a transaction counts them.

use vstd::prelude::*;

verus! {

/// The sum of a sequence of note values.
pub open spec fn sum(values: Seq<u64>) -> nat
    decreases values.len(),
{
    if values.len() == 0 {
        0
    } else {
        sum(values.drop_last()) + values.last() as nat
    }
}

/// Adding a value at the end adds it to the sum.
pub proof fn lemma_sum_push(values: Seq<u64>, value: u64)
    ensures
        sum(values.push(value)) == sum(values) + value,
{
    assert(values.push(value).drop_last() == values);
}

/// A sum is at most the largest value times the number of values.
pub proof fn lemma_sum_bound(values: Seq<u64>)
    ensures
        sum(values) <= values.len() * u64::MAX,
    decreases values.len(),
{
    if values.len() > 0 {
        lemma_sum_bound(values.drop_last());
        assert((values.len() - 1) * u64::MAX + u64::MAX == values.len() * u64::MAX)
            by (nonlinear_arith);
    }
}

/// The sum of as many values as a vector can hold fits in 128 bits.
pub proof fn lemma_sum_fits(values: Seq<u64>)
    requires
        values.len() <= usize::MAX,
    ensures
        sum(values) <= u128::MAX,
{
    lemma_sum_bound(values);
    assert(values.len() * u64::MAX <= 0xffff_ffff_ffff_ffff * 0xffff_ffff_ffff_ffff)
        by (nonlinear_arith)
        requires
            values.len() <= 0xffff_ffff_ffff_ffff,
            u64::MAX == 0xffff_ffff_ffff_ffff,
    ;
}

} // verus!
