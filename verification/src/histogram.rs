//! Counting values into histogram bins.
//!
//! Which bin a value falls into is found from its position in the value
//! range; values at or beyond the upper end go into the last bin. Counting
//! loses no value: the bin counts always add up to the number of values.
use vstd::prelude::*;

verus! {

/// The bin a computed bin position lands in: the position itself, or the
/// last bin for positions at or past it.
pub open spec fn clamp_bin(position: int, num_bins: int) -> int {
    if position < num_bins - 1 {
        position
    } else {
        num_bins - 1
    }
}

/// How many of the bin positions land in `bin`.
pub open spec fn bin_count(positions: Seq<usize>, num_bins: int, bin: int) -> nat
    decreases positions.len(),
{
    if positions.len() == 0 {
        0
    } else {
        bin_count(positions.drop_last(), num_bins, bin) + if clamp_bin(
            positions.last() as int,
            num_bins,
        ) == bin {
            1nat
        } else {
            0nat
        }
    }
}

/// Sum of all counts.
pub open spec fn total(counts: Seq<usize>) -> nat
    decreases counts.len(),
{
    if counts.len() == 0 {
        0
    } else {
        total(counts.drop_last()) + counts.last() as nat
    }
}

proof fn lemma_bin_count_bounded(positions: Seq<usize>, num_bins: int, bin: int)
    ensures
        bin_count(positions, num_bins, bin) <= positions.len(),
    decreases positions.len(),
{
    if positions.len() > 0 {
        lemma_bin_count_bounded(positions.drop_last(), num_bins, bin);
    }
}

proof fn lemma_total_increment(counts: Seq<usize>, j: int)
    requires
        0 <= j < counts.len(),
        counts[j] < usize::MAX,
    ensures
        total(counts.update(j, (counts[j] + 1) as usize)) == total(counts) + 1,
    decreases counts.len(),
{
    let updated = counts.update(j, (counts[j] + 1) as usize);
    if j == counts.len() - 1 {
        assert(updated.drop_last() =~= counts.drop_last());
    } else {
        assert(updated.drop_last() =~= counts.drop_last().update(j, (counts[j] + 1) as usize));
        lemma_total_increment(counts.drop_last(), j);
    }
}

/// Holds for a position equal to `value`.
pub open spec fn equal_to(value: int) -> spec_fn(usize) -> bool {
    |p: usize| p as int == value
}

/// Holds for a position at or above `bound`.
pub open spec fn at_least(bound: int) -> spec_fn(usize) -> bool {
    |p: usize| p as int >= bound
}

/// An in-range position lands in its own bin, and only positions at or past
/// the last bin are counted in the last bin: the count of every bin below
/// the last is the number of positions equal to it, and the count of the
/// last bin is the number of positions at or above it.
pub proof fn lemma_bins_count_their_positions(positions: Seq<usize>, num_bins: int, b: int)
    requires
        num_bins > 0,
        0 <= b < num_bins,
    ensures
        b < num_bins - 1 ==> bin_count(positions, num_bins, b) == positions.filter(
            equal_to(b),
        ).len(),
        b == num_bins - 1 ==> bin_count(positions, num_bins, b) == positions.filter(
            at_least(num_bins - 1),
        ).len(),
    decreases positions.len(),
{
    reveal(Seq::filter);
    if positions.len() > 0 {
        lemma_bins_count_their_positions(positions.drop_last(), num_bins, b);
    }
}

/// Counts how many of the bin positions fall into each of `num_bins` bins,
/// putting positions at or beyond the last bin into the last bin.
///
/// The counts add up to the number of positions: every value is counted
/// exactly once.
pub fn histogram_counts(positions: &Vec<usize>, num_bins: usize) -> (counts: Vec<usize>)
    requires
        num_bins > 0,
    ensures
        counts.len() == num_bins,
        forall|b: int|
            0 <= b < num_bins ==> #[trigger] counts@[b] == bin_count(
                positions@,
                num_bins as int,
                b,
            ),
        forall|b: int|
            0 <= b < num_bins - 1 ==> #[trigger] counts@[b] == positions@.filter(
                equal_to(b),
            ).len(),
        counts@[num_bins - 1] == positions@.filter(at_least(num_bins - 1)).len(),
        total(counts@) == positions.len(),
{
    let mut counts: Vec<usize> = Vec::with_capacity(num_bins);
    let mut k: usize = 0;
    while k < num_bins
        invariant
            k <= num_bins,
            counts.len() == k,
            forall|b: int| 0 <= b < k ==> counts@[b] == 0,
            total(counts@) == 0,
        decreases num_bins - k,
    {
        let ghost before = counts@;
        counts.push(0);
        assert(counts@.drop_last() =~= before);
        k = k + 1;
    }
    let mut i: usize = 0;
    while i < positions.len()
        invariant
            i <= positions.len(),
            counts.len() == num_bins,
            num_bins > 0,
            forall|b: int|
                0 <= b < num_bins ==> counts@[b] == bin_count(
                    positions@.take(i as int),
                    num_bins as int,
                    b,
                ),
            total(counts@) == i,
        decreases positions.len() - i,
    {
        let p: usize = positions[i];
        let bin: usize = if p < num_bins - 1 {
            p
        } else {
            num_bins - 1
        };
        let ghost before = counts@;
        let ghost prefix = positions@.take(i as int);
        let ghost next = positions@.take(i + 1);
        assert(next.drop_last() =~= prefix);
        assert(next.last() == p);
        proof {
            lemma_bin_count_bounded(prefix, num_bins as int, bin as int);
            lemma_total_increment(before, bin as int);
        }
        let c: usize = counts[bin];
        counts.set(bin, c + 1);
        i = i + 1;
    }
    assert(positions@.take(positions.len() as int) =~= positions@);
    proof {
        assert forall|b: int| 0 <= b < num_bins - 1 implies #[trigger] counts@[b]
            == positions@.filter(equal_to(b)).len() by {
            lemma_bins_count_their_positions(positions@, num_bins as int, b);
        }
        lemma_bins_count_their_positions(positions@, num_bins as int, num_bins - 1);
    }
    counts
}

} // verus!
