//! The inspection capability: a search engine hands every batch of records
//! it emits to an inspector, which observes them in emission order.

use vstd::prelude::*;

pub mod best;

use crate::capabilities::Duplicable;

verus! {

/// An observer of the records a search engine emits. `seen` is the complete
/// stream of records observed so far, in order, and `batches` is the same
/// stream divided as it arrived — one entry per `inspect` call. Inspecting
/// a batch appends exactly that batch to both.
pub trait Inspector<G, S>: Sized {
    /// Every record observed so far, in the order it arrived.
    spec fn seen(&self) -> Seq<(usize, G, S)>;

    /// The batches observed so far: one entry per `inspect` call, in call
    /// order; their concatenation is `seen`.
    spec fn batches(&self) -> Seq<Seq<(usize, G, S)>>;

    fn inspect(&mut self, records: &[(usize, G, S)])
        ensures
            final(self).seen() == old(self).seen() + records@,
            final(self).batches() == old(self).batches().push(records@),
    ;
}

/// An inspector that simply retains every record it is handed, in arrival
/// order. Useful for examining exactly what a search run emitted.
pub struct CollectingInspector<G, S> {
    pub records: Vec<(usize, G, S)>,
    pub batch_log: Ghost<Seq<Seq<(usize, G, S)>>>,
}

impl<G, S> CollectingInspector<G, S> {
    pub fn new() -> (r: Self)
        ensures
            r.records@ == Seq::<(usize, G, S)>::empty(),
            r.batch_log@ == Seq::<Seq<(usize, G, S)>>::empty(),
    {
        Self { records: Vec::new(), batch_log: Ghost(Seq::empty()) }
    }
}

impl<G: Duplicable, S: Duplicable> Inspector<G, S> for CollectingInspector<G, S> {
    open spec fn seen(&self) -> Seq<(usize, G, S)> {
        self.records@
    }

    open spec fn batches(&self) -> Seq<Seq<(usize, G, S)>> {
        self.batch_log@
    }

    fn inspect(&mut self, records: &[(usize, G, S)])
        ensures
            final(self).seen() == old(self).seen() + records@,
            final(self).batches() == old(self).batches().push(records@),
    {
        let n = records.len();
        for i in 0..n
            invariant
                n == records@.len(),
                self.records@ == old(self).records@ + records@.take(i as int),
                self.batch_log == old(self).batch_log,
        {
            let record = &records[i];
            self.records.push((record.0, record.1.duplicate(), record.2.duplicate()));
            proof {
                assert(records@.take(i + 1) == records@.take(i as int).push(records@[i as int]));
            }
        }
        proof {
            assert(records@.take(n as int) == records@);
        }
        self.batch_log = Ghost(self.batch_log@.push(records@));
    }
}

} // verus!
