use homebuyer_sim::aggregate::{month_labels, sample_trajectory_indices};
use homebuyer_sim::histogram::histogram_counts;

#[test]
fn samples_spread_over_many_simulations() {
    let idx = sample_trajectory_indices(10000, 100);
    assert_eq!(idx.len(), 100);
    assert_eq!(idx[0], 0);
    assert_eq!(idx[1], 100);
    assert_eq!(idx[99], 9900);
}

#[test]
fn samples_with_uneven_step() {
    let idx = sample_trajectory_indices(250, 100);
    assert_eq!(idx.len(), 100);
    assert_eq!(idx[99], 198);
}

#[test]
fn all_simulations_kept_when_few() {
    assert_eq!(sample_trajectory_indices(5, 100), vec![0, 1, 2, 3, 4]);
    assert_eq!(sample_trajectory_indices(100, 100).len(), 100);
    assert!(sample_trajectory_indices(0, 0).is_empty());
}

#[test]
fn month_axis() {
    assert_eq!(month_labels(3), vec![1, 2, 3]);
    assert!(month_labels(0).is_empty());
    assert_eq!(month_labels(120).len(), 120);
}

#[test]
fn histogram_clamps_to_last_bin() {
    let counts = histogram_counts(&vec![0, 1, 1, 60, 49], 50);
    assert_eq!(counts.len(), 50);
    assert_eq!(counts[0], 1);
    assert_eq!(counts[1], 2);
    assert_eq!(counts[49], 2);
    assert_eq!(counts.iter().sum::<usize>(), 5);
}

#[test]
fn histogram_counts_every_value() {
    let positions: Vec<usize> = (0..1000).map(|i| (i * 7) % 53).collect();
    let counts = histogram_counts(&positions, 50);
    assert_eq!(counts.iter().sum::<usize>(), 1000);
    assert!(histogram_counts(&vec![], 3).iter().all(|c| *c == 0));
}
