//! The capability interfaces that the search engines consume: a source of
//! candidate genomes, a scorer, a mutator, and supporting traits for the
//! values that flow through the engines.

use vstd::prelude::*;

verus! {

/// A value that can be copied exactly.
///
/// The engines emit each record they produce while also retaining parts of it
/// (the hill climber keeps its incumbent, observers keep the best record seen
/// so far), so the values flowing through them must support duplication that
/// provably preserves the value.
pub trait Duplicable: Sized {
    fn duplicate(&self) -> (r: Self)
        ensures
            r == *self,
    ;
}

/// A totally ordered evaluation result. The direction of "better" is a
/// property of the implementation: `rank` embeds the score into the
/// mathematical integers, and one score beats another exactly when its rank
/// is greater. Error-style metrics (where smaller is better) implement this
/// with an inverted `rank`.
pub trait Score: Duplicable {
    /// The mathematical value this score stands for; total order comes from
    /// the order on `int`.
    spec fn rank(&self) -> int;

    /// Strict comparison: does `self` beat `other`?
    fn better_than(&self, other: &Self) -> (r: bool)
        ensures
            r == (self.rank() > other.rank()),
    ;
}

impl Duplicable for i64 {
    fn duplicate(&self) -> (r: Self)
        ensures
            r == *self,
    {
        *self
    }
}

impl Score for i64 {
    open spec fn rank(&self) -> int {
        *self as int
    }

    fn better_than(&self, other: &Self) -> (r: bool)
        ensures
            r == (self.rank() > other.rank()),
    {
        *self > *other
    }
}

impl Duplicable for i32 {
    fn duplicate(&self) -> (r: Self)
        ensures
            r == *self,
    {
        *self
    }
}

impl Score for i32 {
    open spec fn rank(&self) -> int {
        *self as int
    }

    fn better_than(&self, other: &Self) -> (r: bool)
        ensures
            r == (self.rank() > other.rank()),
    {
        *self > *other
    }
}

impl Duplicable for u8 {
    fn duplicate(&self) -> (r: Self)
        ensures
            r == *self,
    {
        *self
    }
}

impl Duplicable for bool {
    fn duplicate(&self) -> (r: Self)
        ensures
            r == *self,
    {
        *self
    }
}

impl Duplicable for u64 {
    fn duplicate(&self) -> (r: Self)
        ensures
            r == *self,
    {
        *self
    }
}

impl Duplicable for usize {
    fn duplicate(&self) -> (r: Self)
        ensures
            r == *self,
    {
        *self
    }
}

impl<'a> Duplicable for &'a str {
    fn duplicate(&self) -> (r: Self)
        ensures
            r == *self,
    {
        *self
    }
}

/// A source of candidate genomes. Sampling may be randomized, so nothing is
/// promised about which genome comes back, only that every sample satisfies
/// `can_produce` — the distribution's support.
pub trait GenomeDistribution<G>: Sized {
    /// The set of genomes this distribution can emit.
    spec fn can_produce(&self, genome: G) -> bool;

    fn sample(&self) -> (g: G)
        ensures
            self.can_produce(g),
    ;
}

/// Evaluates a genome. Scoring is pure with respect to its argument:
/// `score_spec` is a mathematical function of the genome, and `score` always
/// returns exactly that value, so identical inputs yield identical outputs.
pub trait Scorer<G>: Sized {
    type ScoreValue;

    /// The score of a genome, as a mathematical function.
    spec fn score_spec(&self, genome: G) -> Self::ScoreValue;

    fn score(&self, genome: &G) -> (s: Self::ScoreValue)
        ensures
            s == self.score_spec(*genome),
    ;
}

/// Derives a child genome from a parent. Mutation may be randomized and may
/// fail; every successful mutation satisfies `can_produce` — the set of
/// children reachable from a given parent.
pub trait Mutator<G>: Sized {
    type Error;

    /// The children this mutator can derive from `parent`.
    spec fn can_produce(&self, parent: G, child: G) -> bool;

    fn mutate(&self, parent: &G) -> (r: Result<G, Self::Error>)
        ensures
            r matches Ok(child) ==> self.can_produce(*parent, child),
    ;
}

/// A scorer invoked twice with the same genome value returns an identical
/// score both times: both results equal the one mathematical value
/// `score_spec` assigns to that genome.
pub proof fn lemma_scorer_deterministic<G, Scr: Scorer<G>>(
    scorer: &Scr,
    genome: G,
    first: Scr::ScoreValue,
    second: Scr::ScoreValue,
)
    requires
        first == scorer.score_spec(genome),
        second == scorer.score_spec(genome),
    ensures
        first == second,
{
}

} // verus!
