//! Iterative local search: start from one sampled genome, then repeatedly
//! derive a batch of mutated children from the current incumbent, score
//! them, select the best child (first-seen wins among ties), and replace
//! the incumbent exactly when the selected child strictly outscores it —
//! or unconditionally when `always_replace` is set. Every new incumbent is
//! emitted to the inspector; rejected steps emit nothing.

use core::marker::PhantomData;
use vstd::prelude::*;

use crate::capabilities::{Duplicable, GenomeDistribution, Mutator, Score, Scorer};
use crate::inspector::Inspector;

verus! {

/// Why a hill-climbing run aborted: either the mutator failed (its error is
/// carried verbatim), or the configuration asked each step for zero
/// children.
#[derive(Debug, PartialEq, Eq)]
pub enum HillClimberError<MutationError> {
    Mutation(MutationError),
    ZeroSizedChunk,
}

/// Configuration of a hill-climbing run.
pub struct HillClimberConfig {
    /// The total search budget, counting the initial sample as unit 0; the
    /// remaining `num_to_search - 1` units are mutation attempts.
    pub num_to_search: usize,
    /// How many sibling children each step derives from the incumbent; must
    /// be at least 1 whenever there is any step to run.
    pub num_children_per_step: usize,
    /// Replace the incumbent with the best child even when that child does
    /// not strictly outscore it.
    pub always_replace: bool,
}

impl Default for HillClimberConfig {
    /// The documented defaults: a budget of 1000, one child per step, and
    /// replacement only on strict improvement.
    fn default() -> (r: Self)
        ensures
            r.num_to_search == 1000,
            r.num_children_per_step == 1,
            r.always_replace == false,
    {
        Self { num_to_search: 1000, num_children_per_step: 1, always_replace: false }
    }
}

/// The running selection of the best child within one step: a candidate
/// displaces the best child so far only when it strictly outranks it, so
/// among equally ranked children the first one encountered wins.
pub open spec fn select_child<G, S: Score>(
    best: Option<(usize, G, S)>,
    candidate: (usize, G, S),
) -> Option<(usize, G, S)> {
    match best {
        None => Some(candidate),
        Some(b) => if candidate.2.rank() > b.2.rank() {
            Some(candidate)
        } else {
            best
        },
    }
}

/// The selected child of a whole step: the fold of [`select_child`] over
/// the step's children in evaluation order — the first child attaining the
/// step's maximum score.
pub open spec fn selected_child<G, S: Score>(children: Seq<(usize, G, S)>) -> Option<(usize, G, S)>
    decreases children.len(),
{
    if children.len() == 0 {
        None
    } else {
        select_child(selected_child(children.drop_last()), children.last())
    }
}

/// Does a step replace the incumbent? Either replacement is unconditional,
/// or the selected child strictly outranks the incumbent.
pub open spec fn step_accepts(always_replace: bool, incumbent_rank: int, best_child_rank: int) -> bool {
    always_replace || best_child_rank > incumbent_rank
}

/// The next sample index after a sequence of completed steps: index 0 is
/// the initial sample, and each step consumes one index per child.
pub open spec fn next_sample_index<G, S>(steps: Seq<Seq<(usize, G, S)>>) -> int
    decreases steps.len(),
{
    if steps.len() == 0 {
        1
    } else {
        next_sample_index(steps.drop_last()) + steps.last().len()
    }
}

/// The incumbent after a sequence of steps: a step's selected child
/// replaces the incumbent exactly when the step accepts it.
pub open spec fn incumbent_after<G, S: Score>(
    always_replace: bool,
    initial: (usize, G, S),
    steps: Seq<Seq<(usize, G, S)>>,
) -> (usize, G, S)
    decreases steps.len(),
{
    if steps.len() == 0 {
        initial
    } else {
        let prev = incumbent_after(always_replace, initial, steps.drop_last());
        match selected_child(steps.last()) {
            Some(best) => if step_accepts(always_replace, prev.2.rank(), best.2.rank()) {
                best
            } else {
                prev
            },
            None => prev,
        }
    }
}

/// Everything a climb emits: the initial sample, then exactly the selected
/// child of every accepting step, in step order; a rejecting step emits
/// nothing.
pub open spec fn climb_emission_of<G, S: Score>(
    always_replace: bool,
    initial: (usize, G, S),
    steps: Seq<Seq<(usize, G, S)>>,
) -> Seq<(usize, G, S)>
    decreases steps.len(),
{
    if steps.len() == 0 {
        seq![initial]
    } else {
        let front = climb_emission_of(always_replace, initial, steps.drop_last());
        let prev = incumbent_after(always_replace, initial, steps.drop_last());
        match selected_child(steps.last()) {
            Some(best) => if step_accepts(always_replace, prev.2.rank(), best.2.rank()) {
                front.push(best)
            } else {
                front
            },
            None => front,
        }
    }
}

/// The step structure of a climb. Step after step: the step's children
/// carry consecutive sample indices, continuing where the previous step
/// stopped; the step fills its chunk exactly — `num_children_per_step`
/// children, or only the remaining budget for the final step; and every
/// child is a possible mutation of the step's incumbent (children within a
/// step are siblings, all derived from the same incumbent), scored exactly
/// as the scorer scores its genome.
pub open spec fn climb_steps_valid<G, Mut: Mutator<G>, Scr: Scorer<G>>(
    mutator: Mut,
    scorer: Scr,
    config: HillClimberConfig,
    initial: (usize, G, Scr::ScoreValue),
    steps: Seq<Seq<(usize, G, Scr::ScoreValue)>>,
) -> bool where Scr::ScoreValue: Score
    decreases steps.len(),
{
    if steps.len() == 0 {
        true
    } else {
        let front = steps.drop_last();
        let step = steps.last();
        let first_index = next_sample_index(front);
        let incumbent = incumbent_after(config.always_replace, initial, front);
        &&& climb_steps_valid(mutator, scorer, config, initial, front)
        &&& first_index < config.num_to_search
        &&& step.len() == (if config.num_to_search - first_index < config.num_children_per_step {
            config.num_to_search - first_index
        } else {
            config.num_children_per_step as int
        })
        &&& (forall|j: int| 0 <= j < step.len() ==> (#[trigger] step[j]).0 == first_index + j)
        &&& (forall|j: int|
            0 <= j < step.len() ==> (#[trigger] step[j]).2 == scorer.score_spec(step[j].1))
        &&& (forall|j: int|
            0 <= j < step.len() ==> mutator.can_produce(incumbent.1, (#[trigger] step[j]).1))
    }
}

/// A complete account of how a climb ran: a validly sampled and scored
/// initial record, and a valid step structure after it.
pub open spec fn climb_trace<G, GM: GenomeDistribution<G>, Mut: Mutator<G>, Scr: Scorer<G>>(
    genome_maker: GM,
    mutator: Mut,
    scorer: Scr,
    config: HillClimberConfig,
    initial: (usize, G, Scr::ScoreValue),
    steps: Seq<Seq<(usize, G, Scr::ScoreValue)>>,
) -> bool where Scr::ScoreValue: Score {
    &&& initial.0 == 0
    &&& genome_maker.can_produce(initial.1)
    &&& initial.2 == scorer.score_spec(initial.1)
    &&& climb_steps_valid(mutator, scorer, config, initial, steps)
}

/// With a single child per step and `always_replace` off, hill climbing
/// reduces to strict greedy ascent: the step's lone child is its selected
/// child, and the step replaces the incumbent — and emits exactly that
/// child — exactly when the child strictly outscores the incumbent;
/// otherwise the incumbent and the emission are unchanged.
pub proof fn lemma_single_child_greedy<G, S: Score>(
    initial: (usize, G, S),
    steps: Seq<Seq<(usize, G, S)>>,
    step: Seq<(usize, G, S)>,
)
    requires
        step.len() == 1,
    ensures
        selected_child(step) == Some(step[0]),
        step_accepts(false, incumbent_after(false, initial, steps).2.rank(), step[0].2.rank())
            <==> step[0].2.rank() > incumbent_after(false, initial, steps).2.rank(),
        incumbent_after(false, initial, steps.push(step)) == (if step[0].2.rank()
            > incumbent_after(false, initial, steps).2.rank() {
            step[0]
        } else {
            incumbent_after(false, initial, steps)
        }),
        climb_emission_of(false, initial, steps.push(step)) == (if step[0].2.rank()
            > incumbent_after(false, initial, steps).2.rank() {
            climb_emission_of(false, initial, steps).push(step[0])
        } else {
            climb_emission_of(false, initial, steps)
        }),
{
    reveal_with_fuel(selected_child, 2);
    assert(step.drop_last() =~= Seq::<(usize, G, S)>::empty());
    assert(step.last() == step[0]);
    assert(steps.push(step).drop_last() =~= steps);
    assert(steps.push(step).last() == step);
}

/// Every step of a valid climb derives at least one child.
pub proof fn lemma_valid_steps_nonempty<G, Mut: Mutator<G>, Scr: Scorer<G>>(
    mutator: Mut,
    scorer: Scr,
    config: HillClimberConfig,
    initial: (usize, G, Scr::ScoreValue),
    steps: Seq<Seq<(usize, G, Scr::ScoreValue)>>,
) where Scr::ScoreValue: Score
    requires
        climb_steps_valid(mutator, scorer, config, initial, steps),
        config.num_children_per_step >= 1,
    ensures
        forall|s: int| 0 <= s < steps.len() ==> (#[trigger] steps[s]).len() >= 1,
    decreases steps.len(),
{
    if steps.len() > 0 {
        let front = steps.drop_last();
        lemma_valid_steps_nonempty(mutator, scorer, config, initial, front);
        assert forall|s: int| 0 <= s < steps.len() implies (#[trigger] steps[s]).len() >= 1 by {
            if s < steps.len() - 1 {
                assert(steps[s] == front[s]);
            } else {
                assert(steps[s] == steps.last());
            }
        };
    }
}

/// With `always_replace` on, every step replaces and emits: besides the
/// initial sample, a climb's emission holds exactly one record per step.
pub proof fn lemma_always_replace_emits_each_step<G, S: Score>(
    initial: (usize, G, S),
    steps: Seq<Seq<(usize, G, S)>>,
)
    requires
        forall|s: int| 0 <= s < steps.len() ==> (#[trigger] steps[s]).len() >= 1,
    ensures
        climb_emission_of(true, initial, steps).len() == 1 + steps.len(),
    decreases steps.len(),
{
    if steps.len() > 0 {
        let front = steps.drop_last();
        assert(forall|s: int| 0 <= s < front.len() ==> front[s] == #[trigger] steps[s]);
        lemma_always_replace_emits_each_step(initial, front);
        assert(steps[steps.len() - 1].len() >= 1);
        assert(steps.last().len() >= 1);
        assert(selected_child(steps.last()) is Some);
    }
}

/// What a hill-climbing run emits, as observed by the inspector: the
/// initial sample (index 0) first, then one record per accepted step. Each
/// record is scored exactly as the scorer scores its genome; each genome
/// after the first is a child the mutator can derive from the previously
/// emitted incumbent; indices strictly increase and stay below the budget.
/// When `always_replace` is off, scores strictly increase from record to
/// record — the score sequence never decreases across steps.
pub open spec fn hill_climb_emission<
    G,
    GM: GenomeDistribution<G>,
    Mut: Mutator<G>,
    Scr: Scorer<G>,
>(
    genome_maker: GM,
    mutator: Mut,
    scorer: Scr,
    config: HillClimberConfig,
    emitted: Seq<(usize, G, Scr::ScoreValue)>,
) -> bool where Scr::ScoreValue: Score {
    &&& emitted.len() >= 1
    &&& emitted[0].0 == 0
    &&& genome_maker.can_produce(emitted[0].1)
    &&& forall|k: int|
        0 <= k < emitted.len() ==> (#[trigger] emitted[k]).2 == scorer.score_spec(emitted[k].1)
    &&& forall|k: int|
        1 <= k < emitted.len() ==> mutator.can_produce(
            emitted[k - 1].1,
            (#[trigger] emitted[k]).1,
        )
    &&& forall|k: int| 1 <= k < emitted.len() ==> (#[trigger] emitted[k]).0 > emitted[k - 1].0
    &&& forall|k: int|
        1 <= k < emitted.len() ==> (#[trigger] emitted[k]).0 < config.num_to_search
    &&& (!config.always_replace ==> forall|k: int|
        1 <= k < emitted.len() ==> (#[trigger] emitted[k]).2.rank() > emitted[k - 1].2.rank())
}

/// When `always_replace` is off, the score sequence a climb emits is
/// non-decreasing — indeed strictly increasing — across steps: a later
/// record never scores below an earlier one. (With `always_replace` on, no
/// such promise holds and scores may decrease.)
pub proof fn lemma_hill_climb_scores_monotone<
    G,
    GM: GenomeDistribution<G>,
    Mut: Mutator<G>,
    Scr: Scorer<G>,
>(
    genome_maker: GM,
    mutator: Mut,
    scorer: Scr,
    config: HillClimberConfig,
    emitted: Seq<(usize, G, Scr::ScoreValue)>,
    earlier: int,
    later: int,
) where Scr::ScoreValue: Score
    requires
        hill_climb_emission(genome_maker, mutator, scorer, config, emitted),
        !config.always_replace,
        0 <= earlier <= later < emitted.len(),
    ensures
        emitted[earlier].2.rank() <= emitted[later].2.rank(),
        earlier < later ==> emitted[earlier].2.rank() < emitted[later].2.rank(),
    decreases later - earlier,
{
    if earlier < later {
        lemma_hill_climb_scores_monotone(
            genome_maker,
            mutator,
            scorer,
            config,
            emitted,
            earlier,
            later - 1,
        );
    }
}

/// Keep the better of the best child so far and a new candidate,
/// first-seen-wins on ties.
fn prefer_first_max<G, S: Score>(
    best: Option<(usize, G, S)>,
    candidate: (usize, G, S),
) -> (r: Option<(usize, G, S)>)
    ensures
        r == select_child(best, candidate),
{
    match best {
        None => Some(candidate),
        Some(b) => if candidate.2.better_than(&b.2) {
            Some(candidate)
        } else {
            Some(b)
        },
    }
}

/// Drives iterative local search: owns the genome distribution, the
/// mutator, the scorer and the inspector for the duration of a run.
pub struct HillClimber<G, GM, Mut, Scr, Ins> {
    pub config: HillClimberConfig,
    pub genome_maker: GM,
    pub mutator: Mut,
    pub scorer: Scr,
    pub inspector: Ins,
    pub _genome: PhantomData<G>,
}

impl<G, GM, Mut, Scr, Ins> HillClimber<G, GM, Mut, Scr, Ins> where
    G: Duplicable,
    GM: GenomeDistribution<G>,
    Mut: Mutator<G>,
    Scr: Scorer<G>,
    Scr::ScoreValue: Score,
    Ins: Inspector<G, Scr::ScoreValue>,
 {
    /// Run the whole climb. A configuration that asks a step for zero
    /// children is rejected up front with `ZeroSizedChunk` (exactly when
    /// there is at least one step to run), before anything is emitted. A
    /// mutation failure aborts the run immediately with `Mutation`: no
    /// later step runs and nothing is emitted for the failing step.
    ///
    /// Otherwise the inspector observes exactly the emission of a climb
    /// trace: an initial sample followed by steps of sibling children
    /// mutated from the running incumbent, each step's first-seen best
    /// child emitted exactly when the step accepts it — every emitted
    /// record handed to the inspector as its own singleton batch. On
    /// success the steps consume the whole budget (one child per sample
    /// index in `1..num_to_search`); on a mutation failure they stop short
    /// of it, and nothing is emitted for the failing or any later step.
    pub fn search(&mut self) -> (r: Result<(), HillClimberError<Mut::Error>>)
        ensures
            final(self).config == old(self).config,
            final(self).genome_maker == old(self).genome_maker,
            final(self).mutator == old(self).mutator,
            final(self).scorer == old(self).scorer,
            r == Result::<(), HillClimberError<Mut::Error>>::Err(
                HillClimberError::ZeroSizedChunk,
            ) <==> (old(self).config.num_children_per_step == 0 && old(
                self,
            ).config.num_to_search > 1),
            r matches Err(HillClimberError::ZeroSizedChunk) ==> final(self).inspector.seen()
                == old(self).inspector.seen() && final(self).inspector.batches() == old(
                self,
            ).inspector.batches(),
            !(r matches Err(HillClimberError::ZeroSizedChunk)) ==> exists|
                initial: (usize, G, Scr::ScoreValue),
                steps: Seq<Seq<(usize, G, Scr::ScoreValue)>>,
            |
                {
                    &&& #[trigger] climb_trace(
                        old(self).genome_maker,
                        old(self).mutator,
                        old(self).scorer,
                        old(self).config,
                        initial,
                        steps,
                    )
                    &&& final(self).inspector.seen() == old(self).inspector.seen()
                        + climb_emission_of(old(self).config.always_replace, initial, steps)
                    &&& ({
                        let emission = climb_emission_of(
                            old(self).config.always_replace,
                            initial,
                            steps,
                        );
                        final(self).inspector.batches() == old(self).inspector.batches()
                            + Seq::new(emission.len(), |k: int| seq![emission[k]])
                    })
                    &&& hill_climb_emission(
                        old(self).genome_maker,
                        old(self).mutator,
                        old(self).scorer,
                        old(self).config,
                        climb_emission_of(old(self).config.always_replace, initial, steps),
                    )
                    &&& (r is Ok ==> (old(self).config.num_to_search > 1 ==> next_sample_index(
                        steps,
                    ) == old(self).config.num_to_search) && (old(self).config.num_to_search <= 1
                        ==> steps.len() == 0))
                    &&& (r matches Err(_) ==> next_sample_index(steps) < old(
                        self,
                    ).config.num_to_search)
                },
    {
        if self.config.num_children_per_step == 0 && self.config.num_to_search > 1 {
            return Err(HillClimberError::ZeroSizedChunk);
        }
        let initial_candidate = self.genome_maker.sample();
        self.search_sequential(initial_candidate)
    }

    /// The climb itself, from a given initial candidate: emit it as the
    /// first record, then step until the budget is exhausted.
    #[verifier::loop_isolation(false)]
    #[verifier::rlimit(90)]
    fn search_sequential(&mut self, initial_candidate: G) -> (r: Result<
        (),
        HillClimberError<Mut::Error>,
    >)
        requires
            old(self).config.num_to_search > 1 ==> old(self).config.num_children_per_step >= 1,
            old(self).genome_maker.can_produce(initial_candidate),
        ensures
            final(self).config == old(self).config,
            final(self).genome_maker == old(self).genome_maker,
            final(self).mutator == old(self).mutator,
            final(self).scorer == old(self).scorer,
            r matches Err(e) ==> e matches HillClimberError::Mutation(_),
            exists|
                initial: (usize, G, Scr::ScoreValue),
                steps: Seq<Seq<(usize, G, Scr::ScoreValue)>>,
            |
                {
                    &&& #[trigger] climb_trace(
                        old(self).genome_maker,
                        old(self).mutator,
                        old(self).scorer,
                        old(self).config,
                        initial,
                        steps,
                    )
                    &&& final(self).inspector.seen() == old(self).inspector.seen()
                        + climb_emission_of(old(self).config.always_replace, initial, steps)
                    &&& ({
                        let emission = climb_emission_of(
                            old(self).config.always_replace,
                            initial,
                            steps,
                        );
                        final(self).inspector.batches() == old(self).inspector.batches()
                            + Seq::new(emission.len(), |k: int| seq![emission[k]])
                    })
                    &&& hill_climb_emission(
                        old(self).genome_maker,
                        old(self).mutator,
                        old(self).scorer,
                        old(self).config,
                        climb_emission_of(old(self).config.always_replace, initial, steps),
                    )
                    &&& (r is Ok ==> (old(self).config.num_to_search > 1 ==> next_sample_index(
                        steps,
                    ) == old(self).config.num_to_search) && (old(self).config.num_to_search <= 1
                        ==> steps.len() == 0))
                    &&& (r matches Err(_) ==> next_sample_index(steps) < old(
                        self,
                    ).config.num_to_search)
                },
    {
        let initial_score = self.scorer.score(&initial_candidate);
        let mut current: (usize, G, Scr::ScoreValue) = (0, initial_candidate, initial_score);

        let mut batch: Vec<(usize, G, Scr::ScoreValue)> = Vec::new();
        batch.push((0, current.1.duplicate(), current.2.duplicate()));
        self.inspector.inspect(batch.as_slice());
        let ghost initial_record = current;
        let ghost mut steps: Seq<Seq<(usize, G, Scr::ScoreValue)>> = Seq::empty();
        let ghost mut emitted: Seq<(usize, G, Scr::ScoreValue)> = batch@;
        proof {
            assert(emitted =~= seq![initial_record]);
            assert(climb_emission_of(self.config.always_replace, initial_record, steps)
                =~= seq![initial_record]);
            assert(old(self).inspector.batches().push(batch@) =~= old(self).inspector.batches()
                + Seq::new(emitted.len(), |k: int| seq![emitted[k]]));
        }

        let n = self.config.num_to_search;
        let mut next_index: usize = 1;
        while next_index < n
            invariant
                1 <= next_index,
                next_index <= n || next_index == 1,
                n <= 1 ==> steps.len() == 0,
                self.config == old(self).config,
                self.genome_maker == old(self).genome_maker,
                self.mutator == old(self).mutator,
                self.scorer == old(self).scorer,
                self.inspector.seen() == old(self).inspector.seen() + emitted,
                self.inspector.batches() == old(self).inspector.batches() + Seq::new(
                    emitted.len(),
                    |k: int| seq![emitted[k]],
                ),
                hill_climb_emission(
                    old(self).genome_maker,
                    old(self).mutator,
                    old(self).scorer,
                    old(self).config,
                    emitted,
                ),
                climb_steps_valid(
                    old(self).mutator,
                    old(self).scorer,
                    old(self).config,
                    initial_record,
                    steps,
                ),
                next_sample_index(steps) == next_index,
                current == incumbent_after(old(self).config.always_replace, initial_record, steps),
                emitted == climb_emission_of(
                    old(self).config.always_replace,
                    initial_record,
                    steps,
                ),
                current == emitted.last(),
                current.0 < next_index,
            decreases n - next_index,
        {
            let chunk_len = if n - next_index < self.config.num_children_per_step {
                n - next_index
            } else {
                self.config.num_children_per_step
            };
            assert(chunk_len >= 1);

            // Generate the step's sibling children, each mutated from the
            // incumbent, keeping the first-seen best.
            let mut best_child: Option<(usize, G, Scr::ScoreValue)> = None;
            let ghost mut step_children: Seq<(usize, G, Scr::ScoreValue)> = Seq::empty();
            let mut j: usize = 0;
            while j < chunk_len
                invariant
                    j <= chunk_len,
                    next_index + chunk_len <= n,
                    step_children.len() == j,
                    best_child == selected_child(step_children),
                    j >= 1 ==> best_child is Some,
                    best_child matches Some(b) ==> {
                        &&& b.2 == self.scorer.score_spec(b.1)
                        &&& self.mutator.can_produce(current.1, b.1)
                        &&& next_index <= b.0 < next_index + j
                    },
                    forall|jj: int|
                        0 <= jj < step_children.len() ==> (#[trigger] step_children[jj]).0
                            == next_index + jj,
                    forall|jj: int|
                        0 <= jj < step_children.len() ==> (#[trigger] step_children[jj]).2
                            == self.scorer.score_spec(step_children[jj].1),
                    forall|jj: int|
                        0 <= jj < step_children.len() ==> self.mutator.can_produce(
                            current.1,
                            (#[trigger] step_children[jj]).1,
                        ),
                decreases chunk_len - j,
            {
                let child = match self.mutator.mutate(&current.1) {
                    Ok(child) => child,
                    Err(e) => {
                        proof {
                            assert(climb_trace(
                                old(self).genome_maker,
                                old(self).mutator,
                                old(self).scorer,
                                old(self).config,
                                initial_record,
                                steps,
                            ));
                        }
                        return Err(HillClimberError::Mutation(e));
                    },
                };
                let child_score = self.scorer.score(&child);
                let candidate = (next_index + j, child, child_score);
                let ghost chosen = candidate;
                best_child = prefer_first_max(best_child, candidate);
                proof {
                    assert(step_children.push(chosen).drop_last() =~= step_children);
                    assert(step_children.push(chosen).last() == chosen);
                    step_children = step_children.push(chosen);
                }
                j = j + 1;
            }

            let best = match best_child {
                Some(b) => b,
                None => {
                    // A step's batch always holds at least one child.
                    proof {
                        assert(step_children.len() >= 1);
                        assert(selected_child(step_children) is Some);
                        assert(false);
                    }
                    return Err(HillClimberError::ZeroSizedChunk);
                },
            };
            let ghost chosen_best = best;

            let ghost previous_steps = steps;
            let ghost previous_emitted = emitted;
            let ghost previous_incumbent = current;
            proof {
                steps = steps.push(step_children);
                assert(steps.drop_last() =~= previous_steps);
                assert(steps.last() == step_children);
                assert(next_sample_index(steps) == next_index + chunk_len);
                assert(climb_steps_valid(
                    old(self).mutator,
                    old(self).scorer,
                    old(self).config,
                    initial_record,
                    steps,
                ));
            }

            if self.config.always_replace || best.2.better_than(&current.2) {
                proof {
                    assert(selected_child(step_children) == Some(chosen_best));
                    assert(step_accepts(
                        self.config.always_replace,
                        previous_incumbent.2.rank(),
                        chosen_best.2.rank(),
                    ));
                    assert(incumbent_after(
                        old(self).config.always_replace,
                        initial_record,
                        steps,
                    ) == chosen_best);
                    assert(climb_emission_of(
                        old(self).config.always_replace,
                        initial_record,
                        steps,
                    ) == previous_emitted.push(chosen_best));
                }
                current = best;
                let mut step_batch: Vec<(usize, G, Scr::ScoreValue)> = Vec::new();
                step_batch.push((current.0, current.1.duplicate(), current.2.duplicate()));
                self.inspector.inspect(step_batch.as_slice());
                proof {
                    emitted = emitted + step_batch@;
                    assert(emitted =~= previous_emitted.push(chosen_best));
                    assert(emitted.last() == current);
                    assert(step_batch@ =~= seq![emitted[emitted.len() - 1]]);
                    assert((old(self).inspector.batches() + Seq::new(
                        previous_emitted.len(),
                        |k: int| seq![previous_emitted[k]],
                    )).push(step_batch@) =~= old(self).inspector.batches() + Seq::new(
                        emitted.len(),
                        |k: int| seq![emitted[k]],
                    ));
                    assert forall|k: int| 1 <= k < emitted.len() implies {
                        &&& self.mutator.can_produce(emitted[k - 1].1, (#[trigger] emitted[k]).1)
                        &&& emitted[k].0 > emitted[k - 1].0
                        &&& emitted[k].0 < self.config.num_to_search
                    } by {
                        if k < previous_emitted.len() {
                            assert(emitted[k] == previous_emitted[k]);
                            assert(emitted[k - 1] == previous_emitted[k - 1]);
                        } else {
                            assert(emitted[k] == chosen_best);
                            assert(emitted[k - 1] == previous_emitted.last());
                        }
                    };
                }
            } else {
                proof {
                    assert(selected_child(step_children) == Some(chosen_best));
                    assert(!step_accepts(
                        self.config.always_replace,
                        previous_incumbent.2.rank(),
                        chosen_best.2.rank(),
                    ));
                    assert(incumbent_after(
                        old(self).config.always_replace,
                        initial_record,
                        steps,
                    ) == previous_incumbent);
                    assert(climb_emission_of(
                        old(self).config.always_replace,
                        initial_record,
                        steps,
                    ) == previous_emitted);
                }
            }
            next_index = next_index + chunk_len;
        }
        proof {
            assert(climb_trace(
                old(self).genome_maker,
                old(self).mutator,
                old(self).scorer,
                old(self).config,
                initial_record,
                steps,
            ));
        }
        Ok(())
    }
}

} // verus!
