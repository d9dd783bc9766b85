//! Best-so-far tracking over batches of candidate solutions: one solution is
//! better than another exactly when its score is higher.

use vstd::prelude::*;

use crate::capabilities::{Duplicable, Score};
use crate::inspector::Inspector;

verus! {

/// Does `record` strictly improve on the best seen so far? While nothing has
/// been seen yet, any record does.
pub open spec fn improves<G, S: Score>(best: Option<(usize, G, S)>, record: (usize, G, S)) -> bool {
    match best {
        None => true,
        Some(b) => record.2.rank() > b.2.rank(),
    }
}

/// The best record after scanning `records` in order, starting from `best`:
/// each record replaces the running best exactly when it strictly improves
/// on it.
pub open spec fn fold_best<G, S: Score>(
    best: Option<(usize, G, S)>,
    records: Seq<(usize, G, S)>,
) -> Option<(usize, G, S)>
    decreases records.len(),
{
    if records.len() == 0 {
        best
    } else {
        fold_best(
            if improves(best, records[0]) {
                Some(records[0])
            } else {
                best
            },
            records.drop_first(),
        )
    }
}

/// The subsequence of `records` whose members each strictly improve on
/// everything before them (starting from `best`): exactly the records a
/// best-so-far observer reports, in order.
pub open spec fn new_bests<G, S: Score>(
    best: Option<(usize, G, S)>,
    records: Seq<(usize, G, S)>,
) -> Seq<(usize, G, S)>
    decreases records.len(),
{
    if records.len() == 0 {
        Seq::empty()
    } else if improves(best, records[0]) {
        seq![records[0]] + new_bests(Some(records[0]), records.drop_first())
    } else {
        new_bests(best, records.drop_first())
    }
}

/// Scanning one more record only changes the running best when that record
/// strictly improves on it.
pub proof fn lemma_fold_best_snoc<G, S: Score>(
    best: Option<(usize, G, S)>,
    records: Seq<(usize, G, S)>,
    record: (usize, G, S),
)
    ensures
        fold_best(best, records.push(record)) == (if improves(fold_best(best, records), record) {
            Some(record)
        } else {
            fold_best(best, records)
        }),
        new_bests(best, records.push(record)) == (if improves(fold_best(best, records), record) {
            new_bests(best, records).push(record)
        } else {
            new_bests(best, records)
        }),
    decreases records.len(),
{
    if records.len() == 0 {
        reveal_with_fuel(fold_best, 2);
        reveal_with_fuel(new_bests, 2);
        let s = records.push(record);
        assert(s[0] == record);
        assert(s.drop_first() =~= Seq::<(usize, G, S)>::empty());
        assert(new_bests(best, records) =~= Seq::<(usize, G, S)>::empty());
        if improves(best, record) {
            assert(new_bests(best, s) =~= seq![record]);
            assert(new_bests(best, records).push(record) =~= seq![record]);
        }
    } else {
        let next = if improves(best, records[0]) {
            Some(records[0])
        } else {
            best
        };
        assert(records.push(record).drop_first() =~= records.drop_first().push(record));
        lemma_fold_best_snoc(next, records.drop_first(), record);
        if improves(best, records[0]) {
            assert(new_bests(best, records.push(record)) =~= seq![records[0]] + new_bests(
                Some(records[0]),
                records.drop_first().push(record),
            ));
            if improves(fold_best(best, records), record) {
                assert(seq![records[0]] + new_bests(next, records.drop_first()).push(record)
                    =~= (seq![records[0]] + new_bests(next, records.drop_first())).push(record));
            }
        } else {
            if improves(fold_best(best, records), record) {
                assert(new_bests(best, records.push(record)) == new_bests(
                    next,
                    records.drop_first(),
                ).push(record));
            }
        }
    }
}

/// Scanning a concatenation is scanning the first part, then scanning the
/// second from the best the first part led to.
pub proof fn lemma_fold_best_concat<G, S: Score>(
    best: Option<(usize, G, S)>,
    first: Seq<(usize, G, S)>,
    second: Seq<(usize, G, S)>,
)
    ensures
        fold_best(best, first + second) == fold_best(fold_best(best, first), second),
    decreases second.len(),
{
    if second.len() == 0 {
        assert(first + second =~= first);
    } else {
        let front = second.drop_last();
        lemma_fold_best_concat(best, first, front);
        lemma_fold_best_snoc(best, first + front, second.last());
        lemma_fold_best_snoc(fold_best(best, first), front, second.last());
        assert(first + second =~= (first + front).push(second.last()));
        assert(second =~= front.push(second.last()));
    }
}

/// Updates `current_best` with any better solution found in
/// `candidate_solutions`, scanning them in order, and returns the solutions
/// that became the new best, in the order they were found. A solution is
/// better than another exactly when its score is higher; while no best is
/// held yet, the first solution scanned always becomes the best.
pub fn update_best<G: Duplicable, S: Score>(
    current_best: &mut Option<(usize, G, S)>,
    candidate_solutions: &[(usize, G, S)],
) -> (new_bests_found: Vec<(usize, G, S)>)
    ensures
        *final(current_best) == fold_best(*old(current_best), candidate_solutions@),
        new_bests_found@ == new_bests(*old(current_best), candidate_solutions@),
{
    let mut found: Vec<(usize, G, S)> = Vec::new();
    let n = candidate_solutions.len();
    for i in 0..n
        invariant
            n == candidate_solutions@.len(),
            *current_best == fold_best(*old(current_best), candidate_solutions@.take(i as int)),
            found@ == new_bests(*old(current_best), candidate_solutions@.take(i as int)),
    {
        let record = &candidate_solutions[i];
        let improved = match current_best {
            None => true,
            Some(b) => record.2.better_than(&b.2),
        };
        proof {
            lemma_fold_best_snoc(
                *old(current_best),
                candidate_solutions@.take(i as int),
                candidate_solutions@[i as int],
            );
            assert(candidate_solutions@.take(i + 1) == candidate_solutions@.take(
                i as int,
            ).push(candidate_solutions@[i as int]));
        }
        if improved {
            *current_best = Some((record.0, record.1.duplicate(), record.2.duplicate()));
            found.push((record.0, record.1.duplicate(), record.2.duplicate()));
        }
    }
    proof {
        assert(candidate_solutions@.take(n as int) == candidate_solutions@);
    }
    found
}

/// An inspector that tracks the best record seen so far, exactly as
/// [`update_best`] scans a stream: the first record observed always becomes
/// the best, and a later one exactly when it strictly outscores the stored
/// best.
pub struct BestInspector<G, S: Score> {
    best: Option<(usize, G, S)>,
    observed: Ghost<Seq<(usize, G, S)>>,
    observed_batches: Ghost<Seq<Seq<(usize, G, S)>>>,
}

impl<G, S: Score> BestInspector<G, S> {
    #[verifier::type_invariant]
    spec fn wf(self) -> bool {
        self.best == fold_best(None::<(usize, G, S)>, self.observed@)
    }
}

impl<G: Duplicable, S: Score> BestInspector<G, S> {
    pub fn new() -> (r: Self)
        ensures
            r.seen() == Seq::<(usize, G, S)>::empty(),
            r.batches() == Seq::<Seq<(usize, G, S)>>::empty(),
    {
        Self { best: None, observed: Ghost(Seq::empty()), observed_batches: Ghost(Seq::empty()) }
    }

    /// The best record seen so far: the fold of everything observed.
    pub fn best(&self) -> (r: &Option<(usize, G, S)>)
        ensures
            *r == fold_best(None::<(usize, G, S)>, self.seen()),
    {
        proof {
            use_type_invariant(self);
        }
        &self.best
    }
}

impl<G: Duplicable, S: Score> Inspector<G, S> for BestInspector<G, S> {
    closed spec fn seen(&self) -> Seq<(usize, G, S)> {
        self.observed@
    }

    closed spec fn batches(&self) -> Seq<Seq<(usize, G, S)>> {
        self.observed_batches@
    }

    fn inspect(&mut self, records: &[(usize, G, S)])
        ensures
            final(self).seen() == old(self).seen() + records@,
            final(self).batches() == old(self).batches().push(records@),
    {
        proof {
            use_type_invariant(&*self);
        }
        let mut taken = Self {
            best: None,
            observed: Ghost(Seq::empty()),
            observed_batches: Ghost(Seq::empty()),
        };
        core::mem::swap(&mut taken, self);
        let Self { mut best, observed, observed_batches } = taken;
        let _ = update_best(&mut best, records);
        proof {
            lemma_fold_best_concat(None::<(usize, G, S)>, observed@, records@);
        }
        *self = Self {
            best,
            observed: Ghost(observed@ + records@),
            observed_batches: Ghost(observed_batches@.push(records@)),
        };
    }
}

} // verus!

