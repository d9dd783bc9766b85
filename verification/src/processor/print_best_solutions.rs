//! A best-so-far monitor that starts empty: the very first solution received
//! always counts as a new best and is reported, and after that a solution is
//! reported exactly when its error strictly improves on the stored best.

use vstd::prelude::*;

use crate::processor::{print_new_best, Processor};

verus! {

/// Holds the best (lowest) error reported so far, or `None` while no
/// solution has been processed yet.
#[derive(Debug, PartialEq, Eq)]
pub struct PrintBestSolution<T> {
    pub best_error_so_far: Option<T>,
}

impl<T> Default for PrintBestSolution<T> {
    fn default() -> (r: Self)
        ensures
            r.best_error_so_far is None,
    {
        Self { best_error_so_far: None }
    }
}

impl Processor<(usize, i64, u64)> for PrintBestSolution<u64> {
    /// The first solution always becomes the best; later ones exactly when
    /// their error is strictly below the stored best.
    open spec fn step(pre: Self, solution: (usize, i64, u64)) -> Self {
        match pre.best_error_so_far {
            None => Self { best_error_so_far: Some(solution.2) },
            Some(best) => if solution.2 < best {
                Self { best_error_so_far: Some(solution.2) }
            } else {
                pre
            },
        }
    }

    fn process(&mut self, solution: &(usize, i64, u64))
        ensures
            *final(self) == Self::step(*old(self), *solution),
    {
        let (sample_number, individual, error) = *solution;
        let improved = match self.best_error_so_far {
            None => true,
            Some(best) => error < best,
        };
        if improved {
            self.best_error_so_far = Some(error);
            print_new_best(individual, error, sample_number);
        }
    }
}

} // verus!
