//! A simplifier that repeatedly tries deleting one randomly chosen gene:
//! a deletion is kept exactly when the shortened genome still scores nearly
//! the same as the original, testwise.

use vstd::prelude::*;

use crate::capabilities::{Duplicable, Scorer};
use crate::rng::random_index;
use crate::simplifier::Simplifier;

verus! {

/// Are two error vectors nearly equal: does every pair of corresponding
/// entries (over the shorter length) differ by at most `tolerance`?
pub open spec fn within_difference(first: Seq<i64>, second: Seq<i64>, tolerance: i64) -> bool {
    forall|i: int|
        0 <= i < first.len() && i < second.len() ==> -(tolerance as int) <= (#[trigger] first[i])
            - second[i] <= tolerance as int
}

/// Is `shorter` a subsequence of `longer`: the same genes in the same
/// order, with some (possibly none) removed? Stated by an embedding: a
/// strictly increasing map from the positions of `shorter` into the
/// positions of `longer` that preserves the genes.
pub open spec fn subsequence_of<T>(shorter: Seq<T>, longer: Seq<T>) -> bool {
    exists|positions: Seq<int>|
        {
            &&& positions.len() == shorter.len()
            &&& (forall|i: int|
                0 <= i < positions.len() ==> 0 <= #[trigger] positions[i] < longer.len())
            &&& (forall|i: int| 0 < i < positions.len() ==> positions[i - 1] < #[trigger] positions[i])
            &&& (forall|i: int|
                0 <= i < positions.len() ==> shorter[i] == longer[#[trigger] positions[i]])
        }
}

/// Every sequence is a subsequence of itself.
pub proof fn lemma_subsequence_refl<T>(s: Seq<T>)
    ensures
        subsequence_of(s, s),
{
    let positions = Seq::new(s.len(), |i: int| i);
    assert(positions.len() == s.len());
    assert(forall|i: int| 0 <= i < positions.len() ==> 0 <= #[trigger] positions[i] < s.len());
    assert(forall|i: int| 0 < i < positions.len() ==> positions[i - 1] < #[trigger] positions[i]);
    assert(forall|i: int| 0 <= i < positions.len() ==> s[i] == s[#[trigger] positions[i]]);
}

/// Removing one position from a subsequence leaves a subsequence.
pub proof fn lemma_subsequence_remove<T>(shorter: Seq<T>, longer: Seq<T>, k: int)
    requires
        subsequence_of(shorter, longer),
        0 <= k < shorter.len(),
    ensures
        subsequence_of(shorter.remove(k), longer),
{
    let positions = choose|positions: Seq<int>|
        {
            &&& positions.len() == shorter.len()
            &&& (forall|i: int|
                0 <= i < positions.len() ==> 0 <= #[trigger] positions[i] < longer.len())
            &&& (forall|i: int| 0 < i < positions.len() ==> positions[i - 1] < #[trigger] positions[i])
            &&& (forall|i: int|
                0 <= i < positions.len() ==> shorter[i] == longer[#[trigger] positions[i]])
        };
    let removed = positions.remove(k);
    assert(removed.len() == shorter.remove(k).len());
    assert forall|i: int| 0 <= i < removed.len() implies 0 <= #[trigger] removed[i]
        < longer.len() by {
        if i < k {
            assert(removed[i] == positions[i]);
        } else {
            assert(removed[i] == positions[i + 1]);
        }
    };
    assert forall|i: int| 0 < i < removed.len() implies removed[i - 1] < #[trigger] removed[i] by {
        if i < k {
            assert(removed[i - 1] == positions[i - 1]);
            assert(removed[i] == positions[i]);
        } else if i == k {
            assert(removed[i - 1] == positions[i - 1]);
            assert(removed[i] == positions[i + 1]);
            assert(positions[i - 1] < positions[i] < positions[i + 1]);
        } else {
            assert(removed[i - 1] == positions[i]);
            assert(removed[i] == positions[i + 1]);
        }
    };
    assert forall|i: int| 0 <= i < removed.len() implies shorter.remove(k)[i] == longer[
        #[trigger] removed[i]
    ] by {
        if i < k {
            assert(removed[i] == positions[i]);
            assert(shorter.remove(k)[i] == shorter[i]);
        } else {
            assert(removed[i] == positions[i + 1]);
            assert(shorter.remove(k)[i] == shorter[i + 1]);
        }
    };
}

/// Simplifies genomes (vectors of genes) by dropping one gene at a time,
/// keeping a deletion when the per-test errors stay within
/// `acceptable_single_error_difference` of the original genome's errors.
pub struct DropOne<S> {
    pub scorer: S,
    pub num_simplification_attempts: usize,
    pub acceptable_single_error_difference: i64,
}

impl<S> DropOne<S> {
    pub fn new(
        scorer: S,
        num_simplification_attempts: usize,
        acceptable_single_error_difference: i64,
    ) -> (r: Self)
        ensures
            r.scorer == scorer,
            r.num_simplification_attempts == num_simplification_attempts,
            r.acceptable_single_error_difference == acceptable_single_error_difference,
    {
        Self { scorer, num_simplification_attempts, acceptable_single_error_difference }
    }
}

/// An exact copy of a genome's gene vector.
fn duplicate_genes<I: Duplicable>(genes: &Vec<I>) -> (r: Vec<I>)
    ensures
        r@ == genes@,
{
    let mut copy: Vec<I> = Vec::new();
    let n = genes.len();
    for i in 0..n
        invariant
            n == genes@.len(),
            copy@ == genes@.take(i as int),
    {
        copy.push(genes[i].duplicate());
        proof {
            assert(genes@.take(i + 1) == genes@.take(i as int).push(genes@[i as int]));
        }
    }
    proof {
        assert(genes@.take(n as int) == genes@);
    }
    copy
}

impl<S> DropOne<S> {
    /// A copy of `genome` with one uniformly random gene removed.
    fn drop_random_instruction<I: Duplicable>(&self, genome: &Vec<I>) -> (r: Vec<I>)
        requires
            genome@.len() > 0,
        ensures
            exists|k: int| 0 <= k < genome@.len() && r@ == genome@.remove(k),
    {
        let mut genes = duplicate_genes(genome);
        let index = random_index(genes.len());
        let _ = genes.remove(index);
        genes
    }

    /// Entrywise comparison of two error vectors against the configured
    /// tolerance, over the shorter of the two lengths.
    fn nearly_equal_scores(&self, first: &Vec<i64>, second: &Vec<i64>) -> (r: bool)
        ensures
            r == within_difference(first@, second@, self.acceptable_single_error_difference),
    {
        let n = if first.len() < second.len() {
            first.len()
        } else {
            second.len()
        };
        for i in 0..n
            invariant
                n <= first@.len(),
                n <= second@.len(),
                n >= first@.len() || n >= second@.len(),
                forall|k: int|
                    0 <= k < i ==> -(self.acceptable_single_error_difference as int) <= (
                    #[trigger] first@[k]) - second@[k]
                        <= self.acceptable_single_error_difference as int,
        {
            let difference = first[i] as i128 - second[i] as i128;
            let tolerance = self.acceptable_single_error_difference as i128;
            if difference > tolerance || difference < -tolerance {
                return false;
            }
        }
        true
    }
}

impl<S, I> Simplifier<Vec<I>> for DropOne<S> where
    S: Scorer<Vec<I>, ScoreValue = Vec<i64>>,
    I: Duplicable,
 {
    /// The simplified genome is a subsequence of the original — each
    /// accepted attempt removes exactly one gene, order preserved — with at
    /// most `num_simplification_attempts` genes removed; and it is either
    /// the genome unchanged, or strictly shorter with every per-test error
    /// within the configured tolerance of the original genome's errors
    /// (each accepted drop is checked against the original score, so error
    /// cannot drift).
    open spec fn acceptable(&self, original: Vec<I>, simplified: Vec<I>) -> bool {
        &&& subsequence_of(simplified@, original@)
        &&& simplified@.len() >= original@.len() - self.num_simplification_attempts
        &&& {
            ||| simplified@ == original@
            ||| (simplified@.len() < original@.len() && within_difference(
                self.scorer.score_spec(original)@,
                self.scorer.score_spec(simplified)@,
                self.acceptable_single_error_difference,
            ))
        }
    }

    fn simplify_genome(&self, genome: Vec<I>) -> (r: Vec<I>)
        ensures
            self.acceptable(genome, r),
    {
        let original_score = self.scorer.score(&genome);
        let mut current = genome;
        proof {
            lemma_subsequence_refl(current@);
        }
        let attempts = self.num_simplification_attempts;
        for attempt in 0..attempts
            invariant
                subsequence_of(current@, genome@),
                current@.len() >= genome@.len() - attempt,
                current@ == genome@ || (current@.len() < genome@.len() && within_difference(
                    self.scorer.score_spec(genome)@,
                    self.scorer.score_spec(current)@,
                    self.acceptable_single_error_difference,
                )),
                original_score@ == self.scorer.score_spec(genome)@,
        {
            if current.len() == 0 {
                break ;
            }
            let candidate = self.drop_random_instruction(&current);
            let candidate_score = self.scorer.score(&candidate);
            if self.nearly_equal_scores(&original_score, &candidate_score) {
                proof {
                    let k = choose|k: int| 0 <= k < current@.len() && candidate@ == current@.remove(
                        k,
                    );
                    lemma_subsequence_remove(current@, genome@, k);
                }
                current = candidate;
            }
        }
        current
    }
}

} // verus!
