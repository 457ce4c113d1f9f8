//! Bookkeeping of the aggregation step: which simulations are kept as sample
//! trajectories, and the month axis of the percentile time series.
use vstd::prelude::*;

verus! {

/// Distance between two kept simulations when `num_samples` of
/// `num_simulations` are kept.
pub open spec fn sample_step(num_simulations: int, num_samples: int) -> int {
    if num_simulations > num_samples {
        num_simulations / num_samples
    } else {
        1
    }
}

/// Number of simulations kept: all of them, or `num_samples` if there are more.
pub open spec fn sample_count(num_simulations: int, num_samples: int) -> int {
    if num_simulations <= num_samples {
        num_simulations
    } else {
        num_samples
    }
}

/// Indices of the simulations kept as sample trajectories: every `step`-th
/// simulation from the first, at most `num_samples` of them.
///
/// Exactly `min(num_simulations, num_samples)` indices come out, strictly
/// increasing and all below `num_simulations`, so every kept trajectory is a
/// different simulation.
pub fn sample_trajectory_indices(num_simulations: usize, num_samples: usize) -> (indices: Vec<
    usize,
>)
    requires
        num_simulations == 0 || num_samples > 0,
    ensures
        indices.len() == sample_count(num_simulations as int, num_samples as int),
        forall|i: int|
            0 <= i < indices.len() ==> indices@[i] == i * sample_step(
                num_simulations as int,
                num_samples as int,
            ),
        forall|i: int| 0 <= i < indices.len() ==> indices@[i] < num_simulations,
        forall|i: int, j: int| 0 <= i < j < indices.len() ==> indices@[i] < indices@[j],
        num_simulations <= num_samples ==> indices.len() == num_simulations,
        num_simulations > num_samples ==> indices.len() == num_samples,
        forall|i: int|
            #![trigger indices@[i]]
            0 <= i < indices.len() ==> indices@[i] == if num_simulations > num_samples {
                i * (num_simulations / num_samples) as int
            } else {
                i
            },
{
    let step: usize = if num_simulations > num_samples {
        num_simulations / num_samples
    } else {
        1
    };
    let count: usize = if num_simulations <= num_samples {
        num_simulations
    } else {
        num_samples
    };
    proof {
        if num_simulations > num_samples {
            assert(step >= 1) by (nonlinear_arith)
                requires
                    num_simulations > num_samples,
                    num_samples > 0,
                    step == num_simulations / num_samples,
            ;
            assert(count * step <= num_simulations) by (nonlinear_arith)
                requires
                    count == num_samples,
                    num_samples > 0,
                    step == num_simulations / num_samples,
            ;
        }
    }
    let mut indices: Vec<usize> = Vec::with_capacity(count);
    let mut taken: usize = 0;
    while taken < count
        invariant
            step >= 1,
            step == sample_step(num_simulations as int, num_samples as int),
            count == sample_count(num_simulations as int, num_samples as int),
            count * step <= num_simulations,
            taken <= count,
            indices.len() == taken,
            forall|i: int| 0 <= i < taken ==> indices@[i] == i * step,
        decreases count - taken,
    {
        assert(taken * step < num_simulations) by (nonlinear_arith)
            requires
                taken < count,
                count * step <= num_simulations,
                step >= 1,
        ;
        indices.push(taken * step);
        taken = taken + 1;
    }
    proof {
        assert forall|i: int| 0 <= i < indices.len() implies indices@[i] < num_simulations by {
            assert(i * step < num_simulations) by (nonlinear_arith)
                requires
                    0 <= i < count,
                    count * step <= num_simulations,
                    step >= 1,
            ;
        }
        assert forall|i: int, j: int| 0 <= i < j < indices.len() implies indices@[i]
            < indices@[j] by {
            assert(i * step < j * step) by (nonlinear_arith)
                requires
                    0 <= i < j,
                    step >= 1,
            ;
        }
    }
    indices
}

/// The month axis of a percentile time series: months 1 through
/// `num_months`, with `num_months` taken as a 32-bit count.
pub fn month_labels(num_months: usize) -> (months: Vec<u32>)
    ensures
        months.len() == num_months as u32,
        forall|i: int| 0 <= i < months.len() ==> months@[i] == i + 1,
{
    let last: u32 = num_months as u32;
    let mut months: Vec<u32> = Vec::new();
    let mut m: u32 = 0;
    while m < last
        invariant
            m <= last,
            months.len() == m,
            forall|i: int| 0 <= i < m ==> months@[i] == i + 1,
        decreases last - m,
    {
        m = m + 1;
        months.push(m);
    }
    months
}

} // verus!
