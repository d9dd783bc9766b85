//! A processor that retains the lowest- and highest-error solution seen so
//! far, reporting both extremes when the stream is finished.

use vstd::prelude::*;

use crate::processor::{print_distance_summary, Processor};

verus! {

/// Tracks the individuals with the smallest and largest error (distance)
/// observed on the stream. `None` individuals mean no solution has been
/// processed yet; the very first solution becomes both extremes, and a
/// later one displaces an extreme only when its error is strictly more
/// extreme, so each stored individual is the first solution attaining its
/// extreme. The errors start from the sentinels `u64::MAX` and `u64::MIN`
/// only so that an empty stream reports those.
#[derive(Debug, PartialEq, Eq)]
pub struct MinMaxDistance<G> {
    pub min_error_individual: Option<G>,
    pub min_error: u64,
    pub max_error_individual: Option<G>,
    pub max_error: u64,
}

impl<G> Default for MinMaxDistance<G> {
    /// Starts with no individuals, and the sentinel errors that an empty
    /// stream reports.
    fn default() -> (r: Self)
        ensures
            r.min_error_individual is None,
            r.min_error == u64::MAX,
            r.max_error_individual is None,
            r.max_error == u64::MIN,
    {
        Self {
            min_error_individual: None,
            min_error: u64::MAX,
            max_error_individual: None,
            max_error: u64::MIN,
        }
    }
}

impl Processor<(usize, i64, u64)> for MinMaxDistance<i64> {
    /// A solution becomes the minimum exactly when none is held yet or its
    /// error is strictly below every error seen before, and the maximum
    /// exactly when none is held yet or its error is strictly above.
    open spec fn step(pre: Self, solution: (usize, i64, u64)) -> Self {
        let after_min = if pre.min_error_individual is None || solution.2 < pre.min_error {
            Self { min_error_individual: Some(solution.1), min_error: solution.2, ..pre }
        } else {
            pre
        };
        if after_min.max_error_individual is None || solution.2 > after_min.max_error {
            Self {
                max_error_individual: Some(solution.1),
                max_error: solution.2,
                ..after_min
            }
        } else {
            after_min
        }
    }

    fn process(&mut self, solution: &(usize, i64, u64))
        ensures
            *final(self) == Self::step(*old(self), *solution),
    {
        let (_, individual, error) = *solution;
        if self.min_error_individual.is_none() || error < self.min_error {
            self.min_error_individual = Some(individual);
            self.min_error = error;
        }
        if self.max_error_individual.is_none() || error > self.max_error {
            self.max_error_individual = Some(individual);
            self.max_error = error;
        }
    }

    fn finalize_and_print(&self) {
        print_distance_summary(self.max_error, self.min_error);
    }
}

} // verus!
