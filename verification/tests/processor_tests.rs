use stochastic_search::processor::min_max_distance::MinMaxDistance;
use stochastic_search::processor::print_best_solutions::PrintBestSolution;
use stochastic_search::processor::print_monitor::PrintMonitor;
use stochastic_search::processor::Processor;

fn sample_stream() -> Vec<(usize, i64, u64)> {
    vec![(0, 50, 5), (1, 80, 8), (2, 90, 2), (3, 20, 11), (4, 110, 2), (5, 40, 4)]
}

#[test]
fn min_max_tracks_both_extremes() {
    let mut tracker: MinMaxDistance<i64> = MinMaxDistance::default();
    for record in sample_stream() {
        tracker.process(&record);
    }
    assert_eq!(tracker.min_error, 2);
    assert_eq!(tracker.min_error_individual, Some(90));
    assert_eq!(tracker.max_error, 11);
    assert_eq!(tracker.max_error_individual, Some(20));
    tracker.finalize_and_print();
}

#[test]
fn min_max_first_record_sets_both() {
    let mut tracker: MinMaxDistance<i64> = MinMaxDistance::default();
    tracker.process(&(0, 7, 3));
    assert_eq!(tracker.min_error, 3);
    assert_eq!(tracker.max_error, 3);
    assert_eq!(tracker.min_error_individual, Some(7));
    assert_eq!(tracker.max_error_individual, Some(7));
}

#[test]
fn min_max_stores_extreme_sentinel_errors_too() {
    // A first record whose error equals a sentinel still becomes both
    // extremes: emptiness is decided by the stored individuals, not by the
    // error values.
    let mut worst: MinMaxDistance<i64> = MinMaxDistance::default();
    worst.process(&(0, 7, u64::MAX));
    assert_eq!(worst.min_error_individual, Some(7));
    assert_eq!(worst.min_error, u64::MAX);
    assert_eq!(worst.max_error_individual, Some(7));
    assert_eq!(worst.max_error, u64::MAX);

    let mut perfect: MinMaxDistance<i64> = MinMaxDistance::default();
    perfect.process(&(0, 9, 0));
    assert_eq!(perfect.min_error_individual, Some(9));
    assert_eq!(perfect.min_error, 0);
    assert_eq!(perfect.max_error_individual, Some(9));
    assert_eq!(perfect.max_error, 0);
}

#[test]
fn min_max_keeps_the_first_record_attaining_an_extreme() {
    let mut tracker: MinMaxDistance<i64> = MinMaxDistance::default();
    tracker.process(&(0, 10, 4));
    tracker.process(&(1, 20, 4));
    assert_eq!(tracker.min_error_individual, Some(10));
    assert_eq!(tracker.max_error_individual, Some(10));
}

#[test]
fn print_monitor_first_record_always_counts() {
    // Even a first record with the worst possible error is reported and
    // becomes the best so far.
    let mut monitor: PrintMonitor<u64> = PrintMonitor::default();
    assert!(!monitor.any_processed);
    monitor.process(&(0, 3, u64::MAX));
    assert!(monitor.any_processed);
    assert_eq!(monitor.best_error_so_far, u64::MAX);
    monitor.process(&(1, 4, u64::MAX));
    assert_eq!(monitor.best_error_so_far, u64::MAX);
}

#[test]
fn print_monitor_updates_on_strict_improvement_only() {
    let mut monitor: PrintMonitor<u64> = PrintMonitor::default();
    assert_eq!(monitor.best_error_so_far, u64::MAX);
    monitor.process(&(0, 50, 5));
    assert_eq!(monitor.best_error_so_far, 5);
    monitor.process(&(1, 80, 8));
    assert_eq!(monitor.best_error_so_far, 5);
    monitor.process(&(2, 90, 5));
    assert_eq!(monitor.best_error_so_far, 5);
    monitor.process(&(3, 20, 2));
    assert_eq!(monitor.best_error_so_far, 2);
}

#[test]
fn print_best_solution_first_record_always_counts() {
    let mut monitor: PrintBestSolution<u64> = PrintBestSolution::default();
    assert_eq!(monitor.best_error_so_far, None);
    monitor.process(&(0, 50, u64::MAX));
    assert_eq!(monitor.best_error_so_far, Some(u64::MAX));
    monitor.process(&(1, 80, 8));
    assert_eq!(monitor.best_error_so_far, Some(8));
    monitor.process(&(2, 90, 8));
    assert_eq!(monitor.best_error_so_far, Some(8));
}

#[test]
fn pair_composition_matches_independent_runs() {
    // Feeding the same stream to the pair leaves each component in exactly
    // the state it reaches on its own.
    let mut pair: (MinMaxDistance<i64>, PrintBestSolution<u64>) =
        (MinMaxDistance::default(), PrintBestSolution::default());
    let mut tracker: MinMaxDistance<i64> = MinMaxDistance::default();
    let mut monitor: PrintBestSolution<u64> = PrintBestSolution::default();
    for record in sample_stream() {
        pair.process(&record);
        tracker.process(&record);
        monitor.process(&record);
    }
    assert_eq!(pair.0, tracker);
    assert_eq!(pair.1, monitor);
    pair.finalize_and_print();
}

#[test]
fn nested_pairs_compose() {
    let mut nested: ((MinMaxDistance<i64>, PrintBestSolution<u64>), PrintMonitor<u64>) = (
        (MinMaxDistance::default(), PrintBestSolution::default()),
        PrintMonitor::default(),
    );
    let mut monitor: PrintMonitor<u64> = PrintMonitor::default();
    for record in sample_stream() {
        nested.process(&record);
        monitor.process(&record);
    }
    assert_eq!(nested.1, monitor);
    assert_eq!((nested.0).0.min_error, 2);
}
