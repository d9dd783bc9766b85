//! Ready-made capability implementations over plain integer genomes: a
//! uniform genome distribution, a distance-to-target scorer, and a random
//! step mutator. They give the engines something concrete to drive and show
//! how the capability contracts are met.

use vstd::prelude::*;

use crate::capabilities::{GenomeDistribution, Mutator, Scorer};
use crate::rng::random_in_range;

verus! {

/// Samples integers uniformly from the inclusive range `low..=high`. A
/// degenerate range (`low > high`) collapses to always producing `low`.
pub struct UniformRange {
    pub low: i64,
    pub high: i64,
}

impl GenomeDistribution<i64> for UniformRange {
    open spec fn can_produce(&self, genome: i64) -> bool {
        self.low <= genome <= self.high || genome == self.low
    }

    fn sample(&self) -> (g: i64)
        ensures
            self.can_produce(g),
    {
        if self.low <= self.high {
            random_in_range(self.low, self.high)
        } else {
            self.low
        }
    }
}

/// Scores a genome by how close it lies to a target value: the score is the
/// negated distance (clamped into `i64`), so a higher score means closer,
/// and the target itself scores 0.
pub struct DistanceToTarget {
    pub target: i64,
}

impl DistanceToTarget {
    /// The distance between `genome` and the target, as a mathematical
    /// integer.
    pub open spec fn distance(&self, genome: i64) -> int {
        if genome >= self.target {
            genome - self.target
        } else {
            self.target - genome
        }
    }
}

impl Scorer<i64> for DistanceToTarget {
    type ScoreValue = i64;

    open spec fn score_spec(&self, genome: i64) -> i64 {
        if -self.distance(genome) < i64::MIN as int {
            i64::MIN
        } else {
            (-self.distance(genome)) as i64
        }
    }

    fn score(&self, genome: &i64) -> (s: i64)
        ensures
            s == self.score_spec(*genome),
    {
        let g = *genome as i128;
        let t = self.target as i128;
        let d = if g >= t {
            g - t
        } else {
            t - g
        };
        if -d < i64::MIN as i128 {
            i64::MIN
        } else {
            (-d) as i64
        }
    }
}

/// Mutates an integer genome by a uniformly random step of at most
/// `max_step` in either direction, saturating at the ends of the `i64`
/// range. Never fails.
pub struct StepMutator {
    pub max_step: u64,
}

impl StepMutator {
    /// The lowest child reachable from `parent`.
    pub open spec fn lowest_child(&self, parent: i64) -> int {
        if parent - self.max_step < i64::MIN as int {
            i64::MIN as int
        } else {
            parent - self.max_step
        }
    }

    /// The highest child reachable from `parent`.
    pub open spec fn highest_child(&self, parent: i64) -> int {
        if parent + self.max_step > i64::MAX as int {
            i64::MAX as int
        } else {
            parent + self.max_step
        }
    }
}

impl Mutator<i64> for StepMutator {
    type Error = ();

    open spec fn can_produce(&self, parent: i64, child: i64) -> bool {
        self.lowest_child(parent) <= child <= self.highest_child(parent)
    }

    fn mutate(&self, parent: &i64) -> (r: Result<i64, ()>)
        ensures
            r matches Ok(child) ==> self.can_produce(*parent, child),
            r is Ok,
    {
        let p = *parent as i128;
        let s = self.max_step as i128;
        let lo128 = p - s;
        let hi128 = p + s;
        let lo = if lo128 < i64::MIN as i128 {
            i64::MIN
        } else {
            lo128 as i64
        };
        let hi = if hi128 > i64::MAX as i128 {
            i64::MAX
        } else {
            hi128 as i64
        };
        Ok(random_in_range(lo, hi))
    }
}

} // verus!
