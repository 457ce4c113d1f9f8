//! The whole-number decisions of the Monte Carlo engine: the seed each
//! simulation runs with, when progress is reported, and the month-by-month
//! timeline of one simulated holding period.
use vstd::prelude::*;

verus! {

/// Multiplier that spreads the seeds of unseeded runs apart.
pub const SEED_SPREAD: u64 = 31337;

/// Progress is reported after every this many finished simulations.
pub const PROGRESS_INTERVAL: usize = 100;

/// Months in a year, used for the yearly cost increases.
pub const MONTHS_PER_YEAR: u32 = 12;

/// Seed of simulation number `index`: the configured seed plus the index,
/// or, with no configured seed, the index times the spread plus the index.
pub open spec fn seed_for(random_seed: Option<u64>, index: int) -> int {
    match random_seed {
        Some(s) => s + index,
        None => index * (SEED_SPREAD as int) + index,
    }
}

/// Whether simulation number `index` gets a seed without overflow. The
/// fallback `index * SEED_SPREAD` is computed whether or not a seed is set.
pub open spec fn seed_fits(random_seed: Option<u64>, index: int) -> bool {
    &&& index * (SEED_SPREAD as int) <= u64::MAX
    &&& seed_for(random_seed, index) <= u64::MAX
}

/// Seed of one simulation run.
pub fn simulation_seed(random_seed: Option<u64>, index: u64) -> (seed: u64)
    requires
        seed_fits(random_seed, index as int),
    ensures
        seed == seed_for(random_seed, index as int),
        random_seed is Some ==> seed == random_seed->0 + index,
        random_seed is None ==> seed == index * 31338,
{
    let fallback: u64 = index * SEED_SPREAD;
    let base: u64 = match random_seed {
        Some(s) => s,
        None => fallback,
    };
    base + index
}

/// Seeds of all `total` simulations of a run, in order.
///
/// Every simulation gets a seed of its own: no two seeds are equal.
pub fn simulation_seeds(random_seed: Option<u64>, total: usize) -> (seeds: Vec<u64>)
    requires
        total == 0 || seed_fits(random_seed, total - 1),
    ensures
        seeds.len() == total,
        forall|i: int| 0 <= i < total ==> #[trigger] seeds@[i] == seed_for(random_seed, i),
        forall|i: int, j: int| 0 <= i < j < total ==> seeds@[i] != seeds@[j],
        forall|i: int|
            #![trigger seeds@[i]]
            0 <= i < total ==> seeds@[i] == match random_seed {
                Some(s) => s + i,
                None => i * 31338,
            },
{
    let mut seeds: Vec<u64> = Vec::with_capacity(total);
    let mut i: usize = 0;
    while i < total
        invariant
            i <= total,
            total == 0 || seed_fits(random_seed, total - 1),
            seeds.len() == i,
            forall|k: int| 0 <= k < i ==> seeds@[k] == seed_for(random_seed, k),
        decreases total - i,
    {
        assert(seed_fits(random_seed, i as int)) by (nonlinear_arith)
            requires
                i < total,
                seed_fits(random_seed, total - 1),
        ;
        let s: u64 = simulation_seed(random_seed, i as u64);
        seeds.push(s);
        i = i + 1;
    }
    assert forall|i: int| 0 <= i < total implies #[trigger] seeds@[i] == match random_seed {
        Some(s) => s + i,
        None => i * 31338,
    } by {
        assert(seeds@[i] == seed_for(random_seed, i));
        assert(i * 31337 + i == i * 31338) by (nonlinear_arith);
    }
    assert forall|a: int, b: int| 0 <= a < b < total implies seeds@[a] != seeds@[b] by {
        assert(seed_for(random_seed, a) < seed_for(random_seed, b)) by (nonlinear_arith)
            requires
                0 <= a < b,
        ;
    }
    seeds
}

/// Whether finishing the `done`-th of `total` simulations is reported:
/// every hundredth one, and always the last.
pub fn should_report_progress(done: usize, total: usize) -> (report: bool)
    ensures
        report == (done % PROGRESS_INTERVAL == 0 || done == total),
{
    done % PROGRESS_INTERVAL == 0 || done == total
}

/// Whether the mortgage is still being paid in `month` (counted from 1).
pub open spec fn loan_active_in(month: int, loan_term_months: int) -> bool {
    month <= loan_term_months
}

/// Whether property tax and insurance rise at the start of `month`: the
/// first month of every year after the first.
pub open spec fn annual_increase_in(month: int) -> bool {
    month > 1 && month % (MONTHS_PER_YEAR as int) == 1
}

/// What happens in one month of a simulated holding period.
#[derive(Clone, Copy, Debug, PartialEq, Eq, Structural)]
pub struct MonthPlan {
    /// Month number, counted from 1.
    pub month: u32,
    /// The mortgage payment is due and the loan balance is still owed.
    pub loan_active: bool,
    /// Property tax rate and insurance premium rise before this month's costs.
    pub annual_increase: bool,
}

/// Number of months of `plan` in which the loan is being paid.
pub open spec fn loan_month_count(plan: Seq<MonthPlan>) -> nat
    decreases plan.len(),
{
    if plan.len() == 0 {
        0
    } else {
        loan_month_count(plan.drop_last()) + if plan.last().loan_active {
            1nat
        } else {
            0nat
        }
    }
}

/// Number of months of `plan` that begin with a yearly increase.
pub open spec fn increase_count(plan: Seq<MonthPlan>) -> nat
    decreases plan.len(),
{
    if plan.len() == 0 {
        0
    } else {
        increase_count(plan.drop_last()) + if plan.last().annual_increase {
            1nat
        } else {
            0nat
        }
    }
}

/// Number of yearly increases that have taken effect by the end of month
/// `months` of a holding period.
pub open spec fn increases_by(months: int) -> int {
    if months <= 0 {
        0
    } else {
        (months - 1) / (MONTHS_PER_YEAR as int)
    }
}

/// Whether a month is part of a loan of the given term.
pub fn loan_active(month: u32, loan_term_months: u32) -> (active: bool)
    ensures
        active == loan_active_in(month as int, loan_term_months as int),
{
    month <= loan_term_months
}

/// Whether the yearly increase of property tax and insurance applies at
/// the start of `month`.
pub fn annual_increase_due(month: u32) -> (due: bool)
    ensures
        due == annual_increase_in(month as int),
{
    month > 1 && month % MONTHS_PER_YEAR == 1
}

/// Month-by-month timeline of a holding period of `holding_months` months
/// for a loan of `loan_term_months` months.
///
/// The loan is paid in exactly as many months as both periods share, and by
/// the last month the yearly increases have been applied once per completed
/// year.
pub fn month_plan(holding_months: u32, loan_term_months: u32) -> (plan: Vec<MonthPlan>)
    ensures
        plan.len() == holding_months,
        forall|i: int|
            #![trigger plan@[i]]
            0 <= i < holding_months ==> {
                &&& plan@[i].month == i + 1
                &&& plan@[i].loan_active == loan_active_in(i + 1, loan_term_months as int)
                &&& plan@[i].annual_increase == annual_increase_in(i + 1)
            },
        loan_month_count(plan@) == if holding_months <= loan_term_months {
            holding_months
        } else {
            loan_term_months
        },
        increase_count(plan@) == increases_by(holding_months as int),
        forall|i: int|
            #![trigger plan@[i]]
            0 <= i < holding_months ==> {
                &&& plan@[i].loan_active == (i < loan_term_months)
                &&& plan@[i].annual_increase == (i >= 12 && i % 12 == 0)
            },
{
    let mut plan: Vec<MonthPlan> = Vec::with_capacity(holding_months as usize);
    let mut month: u32 = 0;
    while month < holding_months
        invariant
            month <= holding_months,
            plan.len() == month,
            forall|i: int|
                #![trigger plan@[i]]
                0 <= i < month ==> {
                    &&& plan@[i].month == i + 1
                    &&& plan@[i].loan_active == loan_active_in(i + 1, loan_term_months as int)
                    &&& plan@[i].annual_increase == annual_increase_in(i + 1)
                },
            loan_month_count(plan@) == if month <= loan_term_months {
                month
            } else {
                loan_term_months
            },
            increase_count(plan@) == increases_by(month as int),
        decreases holding_months - month,
    {
        let ghost before = plan@;
        let m: u32 = month + 1;
        let entry = MonthPlan {
            month: m,
            loan_active: loan_active(m, loan_term_months),
            annual_increase: annual_increase_due(m),
        };
        plan.push(entry);
        assert(plan@.drop_last() =~= before);
        assert(increases_by(m as int) == increases_by(month as int) + if annual_increase_in(
            m as int,
        ) {
            1int
        } else {
            0int
        });
        month = m;
    }
    plan
}

} // verus!
