use homebuyer_sim::csv::{export_results_csv_text, FormattedResults};

fn strings(v: &[&str]) -> Vec<String> {
    v.iter().map(|s| s.to_string()).collect()
}

#[test]
fn csv_document_layout() {
    let r = FormattedResults {
        effective_monthly_stats: strings(&["1.00", "2.00", "3.00", "4.00", "5.00", "3.00", "1.50", "0.50", "6.00"]),
        effective_cost_stats: strings(&["10.00", "20.00"]),
        equity_stats: strings(&[]),
        effective_monthly_values: strings(&["2500.10", "3100.25"]),
        effective_cost_values: strings(&["300012.00", "372030.00"]),
        equity_values: strings(&["410000.50", "390000.75"]),
    };
    let expected = "Metric,P5,P25,Median,P75,P95,Mean,StdDev,Min,Max\n\
Effective Monthly Cost,1.00,2.00,3.00,4.00,5.00,3.00,1.50,0.50,6.00\n\
Effective Total Cost,10.00,20.00\n\
Final Equity\n\
\n\
Simulation,Effective Monthly,Effective Total,Final Equity\n\
1,2500.10,300012.00,410000.50\n\
2,3100.25,372030.00,390000.75\n";
    assert_eq!(export_results_csv_text(&r), expected);
}

#[test]
fn csv_rows_stop_at_shortest_list() {
    let r = FormattedResults {
        effective_monthly_stats: vec![],
        effective_cost_stats: vec![],
        equity_stats: vec![],
        effective_monthly_values: strings(&["1", "2", "3"]),
        effective_cost_values: strings(&["4", "5"]),
        equity_values: strings(&["6", "7", "8"]),
    };
    let text = export_results_csv_text(&r);
    assert!(text.ends_with("Simulation,Effective Monthly,Effective Total,Final Equity\n1,1,4,6\n2,2,5,7\n"));
}
