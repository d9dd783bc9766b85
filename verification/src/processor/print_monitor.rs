//! A best-so-far monitor: it reports the very first solution it receives,
//! and after that a solution the moment its error drops strictly below
//! everything seen before.

use vstd::prelude::*;

use crate::processor::{print_new_best, Processor};

verus! {

/// Holds the best (lowest) error reported so far. `any_processed` says
/// whether a solution has arrived yet: the first one always counts and is
/// reported, whatever its error; `best_error_so_far` starts at the sentinel
/// `u64::MAX` only as the value before any solution arrives.
#[derive(Debug, PartialEq, Eq)]
pub struct PrintMonitor<T> {
    pub best_error_so_far: T,
    pub any_processed: bool,
}

impl Default for PrintMonitor<u64> {
    fn default() -> (r: Self)
        ensures
            r.best_error_so_far == u64::MAX,
            r.any_processed == false,
    {
        Self { best_error_so_far: u64::MAX, any_processed: false }
    }
}

impl Processor<(usize, i64, u64)> for PrintMonitor<u64> {
    /// The first solution always becomes the new best; a later one exactly
    /// when its error is strictly below the best error so far.
    open spec fn step(pre: Self, solution: (usize, i64, u64)) -> Self {
        if !pre.any_processed || solution.2 < pre.best_error_so_far {
            Self { best_error_so_far: solution.2, any_processed: true }
        } else {
            Self { any_processed: true, ..pre }
        }
    }

    fn process(&mut self, solution: &(usize, i64, u64))
        ensures
            *final(self) == Self::step(*old(self), *solution),
    {
        let (sample_number, individual, error) = *solution;
        if !self.any_processed || error < self.best_error_so_far {
            self.best_error_so_far = error;
            print_new_best(individual, error, sample_number);
        }
        self.any_processed = true;
    }
}

} // verus!
