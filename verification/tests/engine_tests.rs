use std::marker::PhantomData;

use stochastic_search::capabilities::{GenomeDistribution, Mutator, Scorer};
use stochastic_search::hill_climber::{HillClimber, HillClimberConfig, HillClimberError};
use stochastic_search::inspector::CollectingInspector;
use stochastic_search::integer_genomes::{DistanceToTarget, StepMutator, UniformRange};
use stochastic_search::random_search::{RandomSearch, RandomSearchConfig};

/// A deterministic distribution for tests: always produces the same genome.
struct ConstantGenome {
    value: i64,
}

impl GenomeDistribution<i64> for ConstantGenome {
    fn can_produce(&self, genome: i64) -> bool {
        genome == self.value
    }

    fn sample(&self) -> i64 {
        self.value
    }
}

/// A deterministic scorer for tests: the genome is its own score.
struct IdentityScore;

impl Scorer<i64> for IdentityScore {
    type ScoreValue = i64;

    fn score_spec(&self, genome: i64) -> i64 {
        genome
    }

    fn score(&self, genome: &i64) -> i64 {
        *genome
    }
}

/// A deterministic mutator for tests: the child is the parent plus a fixed
/// delta.

struct ShiftMutator {
    delta: i64,
}

impl Mutator<i64> for ShiftMutator {
    type Error = ();

    fn can_produce(&self, parent: i64, child: i64) -> bool {
        child == parent + self.delta
    }

    fn mutate(&self, parent: &i64) -> Result<i64, ()> {
        Ok(*parent + self.delta)
    }
}

/// A mutator that always fails.
struct BrokenMutator;

impl Mutator<i64> for BrokenMutator {
    type Error = String;

    fn can_produce(&self, _parent: i64, _child: i64) -> bool {
        false
    }

    fn mutate(&self, _parent: &i64) -> Result<i64, String> {
        Err(String::from("mutation failed"))
    }
}

#[test]
fn sequential_search_emits_indices_in_order() {
    let mut engine = RandomSearch {
        config: RandomSearchConfig { num_to_search: 7, parallel_search: false, chunk_size: 1000 },
        genome_maker: UniformRange { low: -3, high: 3 },
        scorer: DistanceToTarget { target: 0 },
        inspector: CollectingInspector::new(),
        _genome: PhantomData,
    };
    assert!(engine.search().is_ok());
    let records = &engine.inspector.records;
    assert_eq!(records.len(), 7);
    for (position, record) in records.iter().enumerate() {
        assert_eq!(record.0, position);
        assert!((-3..=3).contains(&record.1));
        assert_eq!(record.2, -(record.1.abs()));
    }
}

#[test]
fn sequential_search_zero_samples_emits_nothing() {
    let mut engine = RandomSearch {
        config: RandomSearchConfig { num_to_search: 0, parallel_search: false, chunk_size: 1 },
        genome_maker: UniformRange { low: 0, high: 1 },
        scorer: DistanceToTarget { target: 0 },
        inspector: CollectingInspector::new(),
        _genome: PhantomData,
    };
    assert!(engine.search().is_ok());
    assert!(engine.inspector.records.is_empty());
}

#[test]
fn parallel_search_emits_every_index_exactly_once() {
    for chunk_size in [1, 4, 25, 100] {
        let mut engine = RandomSearch {
            config: RandomSearchConfig {
                num_to_search: 25,
                parallel_search: true,
                chunk_size,
            },
            genome_maker: UniformRange { low: 0, high: 10 },
            scorer: DistanceToTarget { target: 5 },
            inspector: CollectingInspector::new(),
            _genome: PhantomData,
        };
        assert!(engine.search().is_ok());
        let mut indices: Vec<usize> = engine.inspector.records.iter().map(|r| r.0).collect();
        indices.sort_unstable();
        let expected: Vec<usize> = (0..25).collect();
        assert_eq!(indices, expected, "chunk size {chunk_size}");
    }
}

#[test]
fn parallel_search_scores_match_genomes() {
    let mut engine = RandomSearch {
        config: RandomSearchConfig { num_to_search: 10, parallel_search: true, chunk_size: 3 },
        genome_maker: UniformRange { low: -5, high: 5 },
        scorer: DistanceToTarget { target: 2 },
        inspector: CollectingInspector::new(),
        _genome: PhantomData,
    };
    assert!(engine.search().is_ok());
    for record in &engine.inspector.records {
        assert_eq!(record.2, -((record.1 - 2).abs()));
    }
}

#[test]
fn hill_climb_scores_never_decrease_without_always_replace() {
    let mut engine = HillClimber {
        config: HillClimberConfig {
            num_to_search: 60,
            num_children_per_step: 3,
            always_replace: false,
        },
        genome_maker: UniformRange { low: -100, high: 100 },
        mutator: StepMutator { max_step: 7 },
        scorer: DistanceToTarget { target: 0 },
        inspector: CollectingInspector::new(),
        _genome: PhantomData,
    };
    assert!(engine.search().is_ok());
    let records = &engine.inspector.records;
    assert!(!records.is_empty());
    assert_eq!(records[0].0, 0);
    for pair in records.windows(2) {
        assert!(pair[1].2 > pair[0].2, "scores must strictly improve");
        assert!(pair[1].0 > pair[0].0, "indices must strictly increase");
        assert!(pair[1].0 < 60);
    }
}

#[test]
fn hill_climb_always_replace_can_decrease() {
    let mut engine = HillClimber {
        config: HillClimberConfig {
            num_to_search: 4,
            num_children_per_step: 1,
            always_replace: true,
        },
        genome_maker: ConstantGenome { value: 10 },
        mutator: ShiftMutator { delta: -1 },
        scorer: IdentityScore,
        inspector: CollectingInspector::new(),
        _genome: PhantomData,
    };
    assert!(engine.search().is_ok());
    let scores: Vec<i64> = engine.inspector.records.iter().map(|r| r.2).collect();
    assert_eq!(scores, vec![10, 9, 8, 7]);
}

#[test]
fn hill_climb_single_child_greedy_rejects_worse_children() {
    // With one child per step and always_replace off, a child that never
    // outscores the incumbent is never accepted: only the initial sample is
    // emitted.
    let mut engine = HillClimber {
        config: HillClimberConfig {
            num_to_search: 10,
            num_children_per_step: 1,
            always_replace: false,
        },
        genome_maker: ConstantGenome { value: 10 },
        mutator: ShiftMutator { delta: -1 },
        scorer: IdentityScore,
        inspector: CollectingInspector::new(),
        _genome: PhantomData,
    };
    assert!(engine.search().is_ok());
    let records = &engine.inspector.records;
    assert_eq!(records.len(), 1);
    assert_eq!(records[0], (0, 10, 10));
}

#[test]
fn hill_climb_single_child_greedy_accepts_better_children() {
    let mut engine = HillClimber {
        config: HillClimberConfig {
            num_to_search: 5,
            num_children_per_step: 1,
            always_replace: false,
        },
        genome_maker: ConstantGenome { value: 10 },
        mutator: ShiftMutator { delta: 1 },
        scorer: IdentityScore,
        inspector: CollectingInspector::new(),
        _genome: PhantomData,
    };
    assert!(engine.search().is_ok());
    let expected: Vec<(usize, i64, i64)> =
        vec![(0, 10, 10), (1, 11, 11), (2, 12, 12), (3, 13, 13), (4, 14, 14)];
    assert_eq!(engine.inspector.records, expected);
}

#[test]
fn hill_climb_zero_children_is_a_configuration_error() {
    let mut engine = HillClimber {
        config: HillClimberConfig {
            num_to_search: 2,
            num_children_per_step: 0,
            always_replace: false,
        },
        genome_maker: ConstantGenome { value: 0 },
        mutator: ShiftMutator { delta: 1 },
        scorer: IdentityScore,
        inspector: CollectingInspector::new(),
        _genome: PhantomData,
    };
    assert_eq!(engine.search(), Err(HillClimberError::ZeroSizedChunk));
    assert!(engine.inspector.records.is_empty());
}

#[test]
fn hill_climb_zero_children_without_steps_is_fine() {
    let mut engine = HillClimber {
        config: HillClimberConfig {
            num_to_search: 1,
            num_children_per_step: 0,
            always_replace: false,
        },
        genome_maker: ConstantGenome { value: 3 },
        mutator: ShiftMutator { delta: 1 },
        scorer: IdentityScore,
        inspector: CollectingInspector::new(),
        _genome: PhantomData,
    };
    assert!(engine.search().is_ok());
    assert_eq!(engine.inspector.records, vec![(0, 3, 3)]);
}

#[test]
fn hill_climb_mutation_failure_aborts_the_run() {
    let mut engine = HillClimber {
        config: HillClimberConfig {
            num_to_search: 10,
            num_children_per_step: 2,
            always_replace: false,
        },
        genome_maker: ConstantGenome { value: 1 },
        mutator: BrokenMutator,
        scorer: IdentityScore,
        inspector: CollectingInspector::new(),
        _genome: PhantomData,
    };
    let result = engine.search();
    assert_eq!(result, Err(HillClimberError::Mutation(String::from("mutation failed"))));
    // The initial sample was already emitted before the first mutation.
    assert_eq!(engine.inspector.records, vec![(0, 1, 1)]);
}

#[test]
fn scorer_is_deterministic() {
    let scorer = DistanceToTarget { target: 17 };
    let genome = 300;
    let first = scorer.score(&genome);
    let second = scorer.score(&genome);
    assert_eq!(first, second);
    assert_eq!(first, -283);
}

#[test]
fn step_mutator_stays_within_range() {
    let mutator = StepMutator { max_step: 5 };
    for _ in 0..100 {
        let child = mutator.mutate(&100).unwrap();
        assert!((95..=105).contains(&child));
    }
}

#[test]
fn uniform_range_samples_stay_in_range() {
    let maker = UniformRange { low: -2, high: 2 };
    for _ in 0..100 {
        let genome = maker.sample();
        assert!((-2..=2).contains(&genome));
    }
}

#[test]
fn config_defaults_are_as_documented() {
    let random = RandomSearchConfig::default();
    assert_eq!(random.num_to_search, 1000);
    assert!(random.parallel_search);
    assert_eq!(random.chunk_size, 1000);

    let climb = HillClimberConfig::default();
    assert_eq!(climb.num_to_search, 1000);
    assert_eq!(climb.num_children_per_step, 1);
    assert!(!climb.always_replace);
}
