use stochastic_search::inspector::best::{update_best, BestInspector};
use stochastic_search::inspector::CollectingInspector;
use stochastic_search::inspector::Inspector;

#[test]
fn update_best_test() {
    let mut best = None;

    let first_chunk = [(0, "a", 5), (1, "b", 8), (2, "c", 9)];
    update_best(&mut best, &first_chunk);
    assert_eq!(best, Some((2, "c", 9)));

    let second_chunk = [(3, "d", 2), (4, "e", 11), (5, "f", 4)];
    update_best(&mut best, &second_chunk);
    assert_eq!(best, Some((4, "e", 11)));
}

#[test]
fn update_best_reports_every_improvement_in_order() {
    // The score stream [5, 8, 9, 2, 11, 4] fed to a best-so-far monitor:
    // the reported best values are 5, 8, 9, 11, in that order; the records
    // at positions 3 and 5 report nothing.
    let genomes = ["a", "b", "c", "d", "e", "f"];
    let scores = [5, 8, 9, 2, 11, 4];
    let mut best = None;
    let mut reported = Vec::new();
    for i in 0..6 {
        let chunk = [(i, genomes[i], scores[i])];
        let new_bests = update_best(&mut best, &chunk);
        reported.extend(new_bests);
    }
    let reported_scores: Vec<i32> = reported.iter().map(|r| r.2).collect();
    assert_eq!(reported_scores, vec![5, 8, 9, 11]);
    let reported_genomes: Vec<&str> = reported.iter().map(|r| r.1).collect();
    assert_eq!(reported_genomes, vec!["a", "b", "c", "e"]);
    assert_eq!(best, Some((4, "e", 11)));
}

#[test]
fn update_best_first_record_always_counts() {
    let mut best: Option<(usize, i64, i64)> = None;
    let reported = update_best(&mut best, &[(0, 42, -1000)]);
    assert_eq!(best, Some((0, 42, -1000)));
    assert_eq!(reported, vec![(0, 42, -1000)]);
}

#[test]
fn update_best_ties_do_not_replace() {
    let mut best = None;
    update_best(&mut best, &[(0, "a", 7), (1, "b", 7)]);
    assert_eq!(best, Some((0, "a", 7)));
}

#[test]
fn collecting_inspector_retains_batches_in_order() {
    let mut inspector: CollectingInspector<i64, i64> = CollectingInspector::new();
    inspector.inspect(&[(0, 10, -1), (1, 20, -2)]);
    inspector.inspect(&[(2, 30, -3)]);
    assert_eq!(inspector.records, vec![(0, 10, -1), (1, 20, -2), (2, 30, -3)]);
}

#[test]
fn best_inspector_tracks_the_running_best() {
    let mut inspector: BestInspector<i64, i64> = BestInspector::new();
    inspector.inspect(&[(0, 10, 5), (1, 20, 8)]);
    inspector.inspect(&[(2, 30, 2)]);
    assert_eq!(*inspector.best(), Some((1, 20, 8)));
    inspector.inspect(&[(3, 40, 9)]);
    assert_eq!(*inspector.best(), Some((3, 40, 9)));
}
