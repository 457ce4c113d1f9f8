use homebuyer_sim::engine::{
    annual_increase_due, loan_active, month_plan, should_report_progress, simulation_seed,
    simulation_seeds,
};

#[test]
fn seed_with_configured_seed() {
    assert_eq!(simulation_seed(Some(42), 0), 42);
    assert_eq!(simulation_seed(Some(42), 3), 45);
}

#[test]
fn seed_without_configured_seed() {
    assert_eq!(simulation_seed(None, 0), 0);
    assert_eq!(simulation_seed(None, 1), 31338);
    assert_eq!(simulation_seed(None, 2), 62676);
}

#[test]
fn seeds_of_a_run() {
    assert_eq!(simulation_seeds(Some(42), 5), vec![42, 43, 44, 45, 46]);
    assert_eq!(simulation_seeds(None, 3), vec![0, 31338, 62676]);
    assert!(simulation_seeds(Some(7), 0).is_empty());
}

#[test]
fn seeds_are_all_different() {
    let seeds = simulation_seeds(None, 1000);
    let mut sorted = seeds.clone();
    sorted.sort();
    sorted.dedup();
    assert_eq!(sorted.len(), 1000);
}

#[test]
fn progress_reported_every_hundred_and_at_the_end() {
    assert!(should_report_progress(100, 10000));
    assert!(should_report_progress(200, 10000));
    assert!(!should_report_progress(150, 10000));
    assert!(should_report_progress(10000, 10000));
    assert!(should_report_progress(57, 57));
    assert!(!should_report_progress(56, 57));
}

#[test]
fn loan_and_yearly_increase_months() {
    assert!(loan_active(360, 360));
    assert!(!loan_active(361, 360));
    assert!(!annual_increase_due(1));
    assert!(!annual_increase_due(12));
    assert!(annual_increase_due(13));
    assert!(!annual_increase_due(14));
    assert!(annual_increase_due(25));
}

#[test]
fn plan_of_default_holding_period() {
    let plan = month_plan(120, 360);
    assert_eq!(plan.len(), 120);
    assert_eq!(plan[0].month, 1);
    assert_eq!(plan[119].month, 120);
    assert!(plan.iter().all(|p| p.loan_active));
    let increases: Vec<u32> = plan.iter().filter(|p| p.annual_increase).map(|p| p.month).collect();
    assert_eq!(increases, vec![13, 25, 37, 49, 61, 73, 85, 97, 109]);
}

#[test]
fn plan_longer_than_loan() {
    let plan = month_plan(30, 12);
    assert_eq!(plan.iter().filter(|p| p.loan_active).count(), 12);
    assert!(plan[11].loan_active);
    assert!(!plan[12].loan_active);
    assert_eq!(plan.iter().filter(|p| p.annual_increase).count(), 2);
}

#[test]
fn empty_plan() {
    assert!(month_plan(0, 360).is_empty());
}
