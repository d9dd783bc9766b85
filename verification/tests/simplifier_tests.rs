use stochastic_search::capabilities::Scorer;
use stochastic_search::simplifier::drop_one::DropOne;
use stochastic_search::simplifier::Simplifier;

/// A scorer for tests whose only error is the genome's length: dropping a
/// gene changes the error by exactly 1.
struct LengthScorer;

impl Scorer<Vec<u8>> for LengthScorer {
    type ScoreValue = Vec<i64>;

    fn score_spec(&self, genome: Vec<u8>) -> Vec<i64> {
        vec![genome.len() as i64]
    }

    fn score(&self, genome: &Vec<u8>) -> Vec<i64> {
        vec![genome.len() as i64]
    }
}

/// A scorer for tests that gives every genome the same errors.
struct ConstantScorer;

impl Scorer<Vec<u8>> for ConstantScorer {
    type ScoreValue = Vec<i64>;

    fn score_spec(&self, _genome: Vec<u8>) -> Vec<i64> {
        vec![0, 0, 0]
    }

    fn score(&self, _genome: &Vec<u8>) -> Vec<i64> {
        vec![0, 0, 0]
    }
}

#[test]
fn drop_one_removes_one_gene_per_accepted_attempt() {
    let simplifier = DropOne::new(ConstantScorer, 3, 0);
    let simplified = simplifier.simplify_genome(vec![1u8, 2, 3, 4, 5]);
    assert_eq!(simplified.len(), 2);
}

#[test]
fn drop_one_stops_at_the_empty_genome() {
    let simplifier = DropOne::new(ConstantScorer, 10, 0);
    let simplified = simplifier.simplify_genome(vec![1u8, 2, 3]);
    assert!(simplified.is_empty());
}

#[test]
fn drop_one_keeps_the_genome_when_nothing_is_tolerated() {
    // A negative tolerance accepts no simplification at all.
    let simplifier = DropOne::new(ConstantScorer, 5, -1);
    let genome = vec![9u8, 8, 7];
    let simplified = simplifier.simplify_genome(genome.clone());
    assert_eq!(simplified, genome);
}

#[test]
fn drop_one_respects_the_error_tolerance() {
    // Dropping a gene moves the length error by 1: tolerance 0 rejects
    // every deletion, tolerance 1 accepts one (and only the first stays
    // within 1 of the original).
    let strict = DropOne::new(LengthScorer, 4, 0);
    let genome = vec![1u8, 2, 3, 4];
    assert_eq!(strict.simplify_genome(genome.clone()), genome);

    let lenient = DropOne::new(LengthScorer, 4, 1);
    let simplified = lenient.simplify_genome(genome);
    assert_eq!(simplified.len(), 3);
}
