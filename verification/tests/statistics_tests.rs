use stochastic_search::statistics::ones_per_position;

#[test]
fn ones_per_position_counts_each_column() {
    let population = vec![
        vec![true, false, true],
        vec![true, true, false],
        vec![false, true, false],
    ];
    assert_eq!(ones_per_position(&population), vec![2, 2, 1]);
}

#[test]
fn ones_per_position_single_genome() {
    let population = vec![vec![false, true]];
    assert_eq!(ones_per_position(&population), vec![0, 1]);
}

#[test]
fn ones_per_position_uniform_population() {
    let population = vec![vec![true; 4]; 5];
    assert_eq!(ones_per_position(&population), vec![5, 5, 5, 5]);
}
