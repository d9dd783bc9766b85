//! Post-run genome simplification: shrink a genome while keeping its
//! behaviour, as judged by a scorer, essentially unchanged.

use vstd::prelude::*;

pub mod drop_one;

verus! {

/// A genome simplifier. Simplification may be randomized, so nothing is
/// promised about which genome comes back, only that original and result
/// stand in the simplifier's `acceptable` relation.
pub trait Simplifier<G>: Sized {
    /// The simplifications this simplifier may return for a given genome.
    spec fn acceptable(&self, original: G, simplified: G) -> bool;

    fn simplify_genome(&self, genome: G) -> (r: G)
        ensures
            self.acceptable(genome, r),
    ;
}

} // verus!
