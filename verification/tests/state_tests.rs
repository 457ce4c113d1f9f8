use homebuyer_sim::app_state::{ActiveTab, ChartType, RunStatus, SimulationMessage};
use homebuyer_sim::parameters::{holding_period_months, is_rate_parameter, DistributionType};
use homebuyer_sim::theme::{ChartColors, Rgba};

#[test]
fn defaults() {
    assert_eq!(DistributionType::default(), DistributionType::Normal);
    assert_eq!(ActiveTab::default(), ActiveTab::Configuration);
    assert_eq!(ChartType::default(), ChartType::EffectiveMonthlyCost);
    let s = RunStatus::default();
    assert!(!s.is_running);
    assert_eq!(s.progress, (0, 0));
    assert_eq!(s.status_message, "Ready");
    assert_eq!(s.active_tab, ActiveTab::Configuration);
}

#[test]
fn holding_period_in_months() {
    assert_eq!(holding_period_months(10), 120);
    assert_eq!(holding_period_months(0), 0);
    assert_eq!(holding_period_months(40), 480);
}

#[test]
fn rate_parameters_by_name() {
    assert!(is_rate_parameter("Home Appreciation Rate"));
    assert!(is_rate_parameter("Property Tax Increase"));
    assert!(is_rate_parameter("Insurance Increase"));
    assert!(!is_rate_parameter("Repair Cost Shock"));
    assert!(!is_rate_parameter(""));
    assert!(!is_rate_parameter("rate"));
}

#[test]
fn run_lifecycle() {
    let mut s = RunStatus::default();
    s.start(10000);
    assert!(s.is_running);
    assert_eq!(s.progress, (0, 10000));
    assert_eq!(s.status_message, "Starting simulation...");

    let r: Option<u32> = s.apply_message(SimulationMessage::Progress(100, 10000));
    assert!(r.is_none());
    assert_eq!(s.progress, (100, 10000));
    assert_eq!(s.status_message, "Running... 100/10000");
    assert!(s.is_running);

    let r = s.apply_message(SimulationMessage::Complete(7u32));
    assert_eq!(r, Some(7));
    assert!(!s.is_running);
    assert_eq!(s.status_message, "Simulation complete");
    assert_eq!(s.active_tab, ActiveTab::Summary);
    assert_eq!(s.progress, (100, 10000));
}

#[test]
fn run_error_keeps_view() {
    let mut s = RunStatus::default();
    s.active_tab = ActiveTab::Results;
    s.start(50);
    let r: Option<u32> = s.apply_message(SimulationMessage::Error("out of memory".to_string()));
    assert!(r.is_none());
    assert!(!s.is_running);
    assert_eq!(s.status_message, "Error: out of memory");
    assert_eq!(s.active_tab, ActiveTab::Results);
}

#[test]
fn file_outcomes() {
    let mut s = RunStatus::default();
    assert_eq!(s.record_outcome::<u8>(None, "Configuration saved"), None);
    assert_eq!(s.status_message, "Ready");
    assert_eq!(s.record_outcome(Some(Ok(3u8)), "Configuration loaded"), Some(3));
    assert_eq!(s.status_message, "Configuration loaded");
    let failed: Option<()> = s.record_outcome(
        Some(Err("Failed to read file: missing".to_string())),
        "Configuration loaded",
    );
    assert_eq!(failed, None);
    assert_eq!(s.status_message, "Failed to read file: missing");
}

#[test]
fn chart_palette() {
    assert_eq!(ChartColors::equity(), Rgba { r: 100, g: 200, b: 100, a: 255 });
    assert_eq!(ChartColors::cost(), Rgba { r: 255, g: 150, b: 100, a: 255 });
    assert_eq!(ChartColors::waste(), Rgba { r: 255, g: 100, b: 100, a: 255 });
    assert_eq!(ChartColors::interest(), Rgba { r: 200, g: 150, b: 255, a: 255 });
    assert_eq!(ChartColors::rent(), Rgba { r: 100, g: 180, b: 255, a: 255 });
    assert_eq!(ChartColors::p5_p95(), Rgba { r: 100, g: 150, b: 255, a: 30 });
    assert_eq!(ChartColors::p25_p75(), Rgba { r: 100, g: 150, b: 255, a: 60 });
    assert_eq!(ChartColors::median(), Rgba { r: 100, g: 150, b: 255, a: 255 });
}
