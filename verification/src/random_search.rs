//! Independent random sampling: for each index `i` in `[0, num_to_search)`,
//! sample a genome, score it, and emit the record `(i, genome, score)` to
//! the inspector — one record per index, none dropped. Sequential mode
//! emits records one at a time in strictly increasing index order; parallel
//! mode partitions the index range into fixed-size chunks, builds each
//! chunk's batch of records on a worker pool, and hands the inspector one
//! batch per chunk.

use core::marker::PhantomData;
use rayon::iter::{IndexedParallelIterator, IntoParallelIterator, ParallelIterator};
use vstd::prelude::*;

use crate::capabilities::{GenomeDistribution, Scorer};
use crate::inspector::Inspector;

verus! {

/// Reserved for a fallible-scoring extension: in the base design the engine
/// cannot itself fail, and no value of this type is ever produced.
#[derive(Debug)]
pub struct RandomSearchError {}

/// Configuration of a random search run.
pub struct RandomSearchConfig {
    /// How many genomes to sample and score.
    pub num_to_search: usize,
    /// Whether to distribute the work across a worker pool.
    pub parallel_search: bool,
    /// How many records each parallel worker batches up before handing them
    /// to the inspector; must be at least 1.
    pub chunk_size: usize,
}

impl Default for RandomSearchConfig {
    /// The documented defaults: 1000 samples, parallel, chunks of 1000.
    fn default() -> (r: Self)
        ensures
            r.num_to_search == 1000,
            r.parallel_search == true,
            r.chunk_size == 1000,
    {
        Self { num_to_search: 1000, parallel_search: true, chunk_size: 1000 }
    }
}

/// What a complete run emits, as observed by the inspector: exactly `n`
/// records whose index at position `k` is `k` itself, each scored exactly as
/// the scorer scores its genome, each genome producible by the genome
/// distribution. In particular the emitted indices are `0, 1, …, n-1` in
/// that exact order.
pub open spec fn complete_emission<G, GM: GenomeDistribution<G>, Scr: Scorer<G>>(
    genome_maker: GM,
    scorer: Scr,
    n: int,
    emitted: Seq<(usize, G, Scr::ScoreValue)>,
) -> bool {
    &&& emitted.len() == n
    &&& forall|k: int| 0 <= k < emitted.len() ==> (#[trigger] emitted[k]).0 == k
    &&& forall|k: int|
        0 <= k < emitted.len() ==> (#[trigger] emitted[k]).2 == scorer.score_spec(emitted[k].1)
    &&& forall|k: int|
        0 <= k < emitted.len() ==> genome_maker.can_produce((#[trigger] emitted[k]).1)
}

/// The indices of a complete emission form exactly the multiset
/// `{0, 1, …, n-1}`: no duplicate and no missing index, whatever order the
/// records were produced in.
pub proof fn lemma_emission_indices_exact<G, S>(emitted: Seq<(usize, G, S)>, n: int)
    requires
        0 <= n <= usize::MAX,
        emitted.len() == n,
        forall|k: int| 0 <= k < emitted.len() ==> (#[trigger] emitted[k]).0 == k,
    ensures
        emitted.map_values(|r: (usize, G, S)| r.0).to_multiset() == Seq::new(
            n as nat,
            |k: int| k as usize,
        ).to_multiset(),
{
    assert(emitted.map_values(|r: (usize, G, S)| r.0) =~= Seq::new(n as nat, |k: int| k as usize));
}

/// A division of `[0, covered)` into contiguous chunks of `chunk_size`:
/// each entry is a `(start, length)` pair, lengths are between 1 and
/// `chunk_size` with every chunk but the last exactly full, consecutive
/// entries abut, and together they cover `[0, covered)` exactly.
spec fn is_chunk_partition(starts: Seq<(usize, usize)>, covered: int, chunk_size: int) -> bool {
    &&& forall|i: int| 0 <= i < starts.len() ==> (#[trigger] starts[i]).1 >= 1
    &&& forall|i: int| 0 <= i < starts.len() ==> (#[trigger] starts[i]).1 <= chunk_size
    &&& forall|i: int| 0 <= i < starts.len() - 1 ==> (#[trigger] starts[i]).1 == chunk_size
    &&& forall|i: int| 0 <= i < starts.len() ==> (#[trigger] starts[i]).0 + starts[i].1 <= covered
    &&& (starts.len() == 0 ==> covered == 0)
    &&& (starts.len() > 0 ==> starts[0].0 == 0)
    &&& (starts.len() > 0 ==> starts.last().0 + starts.last().1 == covered)
    &&& forall|i: int|
        0 <= i < starts.len() - 1 ==> (#[trigger] starts[i]).0 + starts[i].1 == starts[i + 1].0
}

/// Sample and score the genomes for one chunk of indices,
/// `start, start + 1, …, start + len - 1`, in order.
fn build_batch<G, GM: GenomeDistribution<G>, Scr: Scorer<G>>(
    genome_maker: &GM,
    scorer: &Scr,
    start: usize,
    len: usize,
) -> (batch: Vec<(usize, G, Scr::ScoreValue)>)
    requires
        start + len <= usize::MAX,
    ensures
        batch@.len() == len,
        forall|j: int| 0 <= j < batch@.len() ==> (#[trigger] batch@[j]).0 == start + j,
        forall|j: int|
            0 <= j < batch@.len() ==> (#[trigger] batch@[j]).2 == scorer.score_spec(batch@[j].1),
        forall|j: int|
            0 <= j < batch@.len() ==> genome_maker.can_produce((#[trigger] batch@[j]).1),
{
    let mut batch: Vec<(usize, G, Scr::ScoreValue)> = Vec::new();
    for j in 0..len
        invariant
            start + len <= usize::MAX,
            batch@.len() == j,
            forall|k: int| 0 <= k < batch@.len() ==> (#[trigger] batch@[k]).0 == start + k,
            forall|k: int|
                0 <= k < batch@.len() ==> (#[trigger] batch@[k]).2 == scorer.score_spec(
                    batch@[k].1,
                ),
            forall|k: int|
                0 <= k < batch@.len() ==> genome_maker.can_produce((#[trigger] batch@[k]).1),
    {
        let genome = genome_maker.sample();
        let score = scorer.score(&genome);
        batch.push((start + j, genome, score));
    }
    batch
}

/// Relies on rayon's parallel iterator over `0..count` and its
/// `collect_into_vec`: `f` is applied to every index on a worker pool, and
/// because the iterator is indexed, the output for index `i` lands at
/// position `i` of the vector. Each element of the result is an output of
/// `f` on its index; nothing is assumed about the evaluation order.
#[verifier::external_body]
fn parallel_map_indices<T: Send, F: Fn(usize) -> T + Sync>(count: usize, f: &F) -> (r: Vec<T>)
    requires
        forall|i: usize| i < count ==> call_requires(*f, (i,)),
    ensures
        r@.len() == count,
        forall|i: int| 0 <= i < count ==> call_ensures(*f, (i as usize,), r@[i]),
{
    let mut outputs = Vec::new();
    (0..count).into_par_iter().map(|i| f(i)).collect_into_vec(&mut outputs);
    outputs
}

/// Drives independent random sampling: owns the genome distribution, the
/// scorer and the inspector for the duration of a run.
pub struct RandomSearch<G, GM, Scr, Ins> {
    pub config: RandomSearchConfig,
    pub genome_maker: GM,
    pub scorer: Scr,
    pub inspector: Ins,
    pub _genome: PhantomData<G>,
}

impl<G, GM, Scr, Ins> RandomSearch<G, GM, Scr, Ins> where
    G: Send,
    GM: GenomeDistribution<G> + Sync,
    Scr: Scorer<G> + Sync,
    Scr::ScoreValue: Send,
    Ins: Inspector<G, Scr::ScoreValue>,
 {
    /// Run the whole search: sample, score and emit one record for every
    /// index in `[0, num_to_search)`. Never fails. The inspector observes
    /// exactly `num_to_search` new records forming a complete emission —
    /// in particular, in sequential mode and parallel mode alike, the
    /// record emitted at overall position `k` carries index `k`. In
    /// sequential mode the inspector is invoked once per record, each time
    /// with the singleton batch of that record; in parallel mode it is
    /// invoked once per chunk, with every batch but the last holding
    /// exactly `chunk_size` consecutive records.
    pub fn search(&mut self) -> (r: Result<(), RandomSearchError>)
        requires
            old(self).config.parallel_search ==> old(self).config.chunk_size >= 1,
        ensures
            r is Ok,
            final(self).config == old(self).config,
            final(self).genome_maker == old(self).genome_maker,
            final(self).scorer == old(self).scorer,
            exists|emitted: Seq<(usize, G, Scr::ScoreValue)>|
                {
                    &&& #[trigger] complete_emission(
                        old(self).genome_maker,
                        old(self).scorer,
                        old(self).config.num_to_search as int,
                        emitted,
                    )
                    &&& final(self).inspector.seen() == old(self).inspector.seen() + emitted
                    &&& (!old(self).config.parallel_search ==> final(self).inspector.batches()
                        == old(self).inspector.batches() + Seq::new(
                        emitted.len(),
                        |k: int| seq![emitted[k]],
                    ))
                    &&& (old(self).config.parallel_search ==> exists|
                        bs: Seq<Seq<(usize, G, Scr::ScoreValue)>>,
                    |
                        {
                            &&& #[trigger] bs.flatten() == emitted
                            &&& final(self).inspector.batches() == old(self).inspector.batches()
                                + bs
                            &&& (forall|ci: int|
                                0 <= ci < bs.len() ==> 1 <= (#[trigger] bs[ci]).len() <= old(
                                    self,
                                ).config.chunk_size)
                            &&& (forall|ci: int|
                                0 <= ci < bs.len() - 1 ==> (#[trigger] bs[ci]).len() == old(
                                    self,
                                ).config.chunk_size)
                        })
                },
    {
        if self.config.parallel_search {
            self.search_parallel()
        } else {
            self.search_sequential()
        }
    }

    /// Emit one record per call, synchronously, in strictly increasing
    /// index order: the inspector is invoked exactly `num_to_search` times,
    /// each time with the singleton batch of the next record.
    #[verifier::loop_isolation(false)]
    fn search_sequential(&mut self) -> (r: Result<(), RandomSearchError>)
        ensures
            r is Ok,
            final(self).config == old(self).config,
            final(self).genome_maker == old(self).genome_maker,
            final(self).scorer == old(self).scorer,
            exists|emitted: Seq<(usize, G, Scr::ScoreValue)>|
                {
                    &&& #[trigger] complete_emission(
                        old(self).genome_maker,
                        old(self).scorer,
                        old(self).config.num_to_search as int,
                        emitted,
                    )
                    &&& final(self).inspector.seen() == old(self).inspector.seen() + emitted
                    &&& final(self).inspector.batches() == old(self).inspector.batches()
                        + Seq::new(emitted.len(), |k: int| seq![emitted[k]])
                },
    {
        let n = self.config.num_to_search;
        let ghost mut emitted: Seq<(usize, G, Scr::ScoreValue)> = Seq::empty();
        for i in 0..n
            invariant
                n == self.config.num_to_search,
                self.config == old(self).config,
                self.genome_maker == old(self).genome_maker,
                self.scorer == old(self).scorer,
                self.inspector.seen() == old(self).inspector.seen() + emitted,
                self.inspector.batches() == old(self).inspector.batches() + Seq::new(
                    emitted.len(),
                    |k: int| seq![emitted[k]],
                ),
                emitted.len() == i,
                forall|k: int| 0 <= k < emitted.len() ==> (#[trigger] emitted[k]).0 == k,
                forall|k: int|
                    0 <= k < emitted.len() ==> (#[trigger] emitted[k]).2 == self.scorer.score_spec(
                        emitted[k].1,
                    ),
                forall|k: int|
                    0 <= k < emitted.len() ==> self.genome_maker.can_produce(
                        (#[trigger] emitted[k]).1,
                    ),
        {
            let genome = self.genome_maker.sample();
            let score = self.scorer.score(&genome);
            let mut batch: Vec<(usize, G, Scr::ScoreValue)> = Vec::new();
            batch.push((i, genome, score));
            self.inspector.inspect(batch.as_slice());
            proof {
                let prev = emitted;
                emitted = emitted + batch@;
                assert(batch@ =~= seq![emitted[prev.len() as int]]);
                assert((old(self).inspector.batches() + Seq::new(
                    prev.len(),
                    |k: int| seq![prev[k]],
                )).push(batch@) =~= old(self).inspector.batches() + Seq::new(
                    emitted.len(),
                    |k: int| seq![emitted[k]],
                ));
            }
        }
        proof {
            assert(complete_emission(
                old(self).genome_maker,
                old(self).scorer,
                old(self).config.num_to_search as int,
                emitted,
            ));
        }
        Ok(())
    }

    /// Partition `[0, num_to_search)` into chunks of `chunk_size` (the last
    /// chunk may be shorter), build each chunk's batch of records on the
    /// worker pool, then hand the inspector one batch per chunk, in chunk
    /// order.
    #[verifier::loop_isolation(false)]
    #[verifier::rlimit(60)]
    fn search_parallel(&mut self) -> (r: Result<(), RandomSearchError>)
        requires
            old(self).config.chunk_size >= 1,
        ensures
            r is Ok,
            final(self).config == old(self).config,
            final(self).genome_maker == old(self).genome_maker,
            final(self).scorer == old(self).scorer,
            exists|emitted: Seq<(usize, G, Scr::ScoreValue)>|
                {
                    &&& #[trigger] complete_emission(
                        old(self).genome_maker,
                        old(self).scorer,
                        old(self).config.num_to_search as int,
                        emitted,
                    )
                    &&& final(self).inspector.seen() == old(self).inspector.seen() + emitted
                    &&& exists|bs: Seq<Seq<(usize, G, Scr::ScoreValue)>>|
                        {
                            &&& #[trigger] bs.flatten() == emitted
                            &&& final(self).inspector.batches() == old(self).inspector.batches()
                                + bs
                            &&& (forall|ci: int|
                                0 <= ci < bs.len() ==> 1 <= (#[trigger] bs[ci]).len() <= old(
                                    self,
                                ).config.chunk_size)
                            &&& (forall|ci: int|
                                0 <= ci < bs.len() - 1 ==> (#[trigger] bs[ci]).len() == old(
                                    self,
                                ).config.chunk_size)
                        }
                },
    {
        let n = self.config.num_to_search;
        let chunk_size = self.config.chunk_size;

        // Lay out the chunks: (start, length) pairs covering [0, n) exactly.
        let mut starts: Vec<(usize, usize)> = Vec::new();
        let mut next_start: usize = 0;
        while next_start < n
            invariant
                chunk_size >= 1,
                next_start <= n,
                is_chunk_partition(starts@, next_start as int, chunk_size as int),
                starts@.len() > 0 ==> (starts@.last().1 == chunk_size || next_start == n),
            decreases n - next_start,
        {
            let len = if n - next_start < chunk_size {
                n - next_start
            } else {
                chunk_size
            };
            starts.push((next_start, len));
            next_start = next_start + len;
        }

        let genome_maker = &self.genome_maker;
        let scorer = &self.scorer;
        let build = |ci: usize| -> (batch: Vec<(usize, G, Scr::ScoreValue)>)
            requires
                ci < starts@.len(),
                is_chunk_partition(starts@, n as int, chunk_size as int),
            ensures
                batch@.len() == starts@[ci as int].1,
                forall|j: int|
                    0 <= j < batch@.len() ==> (#[trigger] batch@[j]).0 == starts@[ci as int].0 + j,
                forall|j: int|
                    0 <= j < batch@.len() ==> (#[trigger] batch@[j]).2 == scorer.score_spec(
                        batch@[j].1,
                    ),
                forall|j: int|
                    0 <= j < batch@.len() ==> genome_maker.can_produce((#[trigger] batch@[j]).1),
            {
                let (chunk_start, chunk_len) = starts[ci];
                build_batch(genome_maker, scorer, chunk_start, chunk_len)
            };
        let batches = parallel_map_indices(starts.len(), &build);

        let ghost mut emitted: Seq<(usize, G, Scr::ScoreValue)> = Seq::empty();
        let ghost mut emitted_batches: Seq<Seq<(usize, G, Scr::ScoreValue)>> = Seq::empty();
        let num_batches = batches.len();
        for ci in 0..num_batches
            invariant
                num_batches == batches@.len(),
                batches@.len() == starts@.len(),
                is_chunk_partition(starts@, n as int, chunk_size as int),
                forall|i: int|
                    0 <= i < batches@.len() ==> call_ensures(build, (i as usize,), batches@[i]),
                self.config == old(self).config,
                self.genome_maker == old(self).genome_maker,
                self.scorer == old(self).scorer,
                n == self.config.num_to_search,
                self.inspector.seen() == old(self).inspector.seen() + emitted,
                self.inspector.batches() == old(self).inspector.batches() + emitted_batches,
                emitted_batches.flatten() == emitted,
                emitted_batches.len() == ci,
                forall|k: int|
                    0 <= k < emitted_batches.len() ==> (#[trigger] emitted_batches[k]).len()
                        == starts@[k].1,
                emitted.len() == (if ci == starts@.len() {
                    n as int
                } else {
                    starts@[ci as int].0 as int
                }),
                forall|k: int| 0 <= k < emitted.len() ==> (#[trigger] emitted[k]).0 == k,
                forall|k: int|
                    0 <= k < emitted.len() ==> (#[trigger] emitted[k]).2 == self.scorer.score_spec(
                        emitted[k].1,
                    ),
                forall|k: int|
                    0 <= k < emitted.len() ==> self.genome_maker.can_produce(
                        (#[trigger] emitted[k]).1,
                    ),
        {
            self.inspector.inspect(batches[ci].as_slice());
            proof {
                assert(call_ensures(build, (ci,), batches@[ci as int]));
                let batch = batches@[ci as int]@;
                let prev = emitted;
                let start = starts@[ci as int].0 as int;
                assert(batch.len() == starts@[ci as int].1);
                emitted_batches.lemma_flatten_push(batch);
                emitted_batches = emitted_batches.push(batch);
                emitted = emitted + batch;
                assert forall|k: int| 0 <= k < emitted.len() implies {
                    &&& (#[trigger] emitted[k]).0 == k
                    &&& emitted[k].2 == self.scorer.score_spec(emitted[k].1)
                    &&& self.genome_maker.can_produce(emitted[k].1)
                } by {
                    if k < prev.len() {
                        assert(emitted[k] == prev[k]);
                    } else {
                        assert(emitted[k] == batch[k - prev.len()]);
                        assert(batch[k - start].0 == start + (k - start));
                    }
                };
                if ci + 1 < starts@.len() {
                    assert(starts@[ci as int].0 + starts@[ci as int].1 == starts@[ci as int
                        + 1].0);
                } else {
                    assert(starts@.last() == starts@[ci as int]);
                    assert(starts@[ci as int].0 + starts@[ci as int].1 == n);
                }
            }
        }
        proof {
            assert(complete_emission(
                old(self).genome_maker,
                old(self).scorer,
                old(self).config.num_to_search as int,
                emitted,
            ));
            assert forall|ci: int|
                0 <= ci < emitted_batches.len() implies 1 <= (#[trigger] emitted_batches[ci]).len()
                <= chunk_size by {
                assert(starts@[ci].1 >= 1);
                assert(starts@[ci].1 <= chunk_size);
            };
            assert forall|ci: int|
                0 <= ci < emitted_batches.len() - 1 implies (#[trigger] emitted_batches[ci]).len()
                == chunk_size by {
                assert(starts@[ci].1 == chunk_size);
            };
        }
        Ok(())
    }
}

} // verus!
