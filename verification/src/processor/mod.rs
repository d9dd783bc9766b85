//! The composable observer capability: a `Processor` consumes a stream of
//! solutions one at a time, accumulating whatever state it needs, and may
//! report a terminal summary once the stream is finished. Two processors
//! combine into a pair that feeds every solution to both, so any number of
//! monitors can be stacked via nested pairs.

use std::io::Write;
use vstd::prelude::*;

pub mod min_max_distance;
pub mod print_best_solutions;
pub mod print_monitor;

verus! {

/// Relies on `std::io::Stdout::write_fmt` (through `writeln!`): reports a
/// newly found best solution on standard output. Output only; nothing is
/// promised of it.
#[verifier::external_body]
pub(crate) fn print_new_best(solution: i64, error: u64, sample_number: usize) {
    let _ = writeln!(
        std::io::stdout(),
        "New best solution found:  {:25} with error {:25} at sample number {:25}",
        solution,
        error,
        sample_number,
    );
}

/// Relies on `std::io::Stdout::write_fmt` (through `writeln!`): reports the
/// extreme distances seen on standard output. Output only; nothing is
/// promised of it.
#[verifier::external_body]
pub(crate) fn print_distance_summary(max_error: u64, min_error: u64) {
    let _ = writeln!(std::io::stdout(), "The farthest distance was {:25}", max_error);
    let _ = writeln!(std::io::stdout(), "The nearest distance was  {:25}", min_error);
}

/// An observer over a stream of solutions.
///
/// `step` is the mathematical transition function of the observer, and
/// `process` is required to implement exactly that transition, so the state
/// after any stream of solutions is a pure fold of `step` over the stream
/// (see [`run_stream`]).
pub trait Processor<S>: Sized {
    /// The state transition made by consuming one solution.
    spec fn step(pre: Self, solution: S) -> Self;

    /// Consume one solution, updating the accumulated state.
    fn process(&mut self, solution: &S)
        ensures
            *final(self) == Self::step(*old(self), *solution),
    ;

    /// Report a terminal summary of the accumulated state. The default
    /// reports nothing.
    fn finalize_and_print(&self) {
    }
}

/// The state of a processor after it has consumed an entire stream, in order:
/// a fold of `Processor::step`.
pub open spec fn run_stream<S, P: Processor<S>>(p: P, stream: Seq<S>) -> P
    decreases stream.len(),
{
    if stream.len() == 0 {
        p
    } else {
        run_stream(P::step(p, stream[0]), stream.drop_first())
    }
}

/// Consuming one more solution at the end of a stream makes one more step
/// from the state the stream led to.
pub proof fn lemma_run_stream_snoc<S, P: Processor<S>>(p: P, stream: Seq<S>, solution: S)
    ensures
        run_stream(p, stream.push(solution)) == P::step(run_stream(p, stream), solution),
    decreases stream.len(),
{
    if stream.len() == 0 {
        assert(stream.push(solution)[0] == solution);
        assert(stream.push(solution).drop_first() =~= Seq::<S>::empty());
        reveal_with_fuel(run_stream, 2);
    } else {
        assert(stream.push(solution).drop_first() =~= stream.drop_first().push(solution));
        lemma_run_stream_snoc(P::step(p, stream[0]), stream.drop_first(), solution);
    }
}

/// Pairwise composition: every solution is forwarded first to the left
/// processor, then to the right one, and the terminal summaries are reported
/// in the same order.
impl<S, A: Processor<S>, B: Processor<S>> Processor<S> for (A, B) {
    open spec fn step(pre: Self, solution: S) -> Self {
        (A::step(pre.0, solution), B::step(pre.1, solution))
    }

    fn process(&mut self, solution: &S)
        ensures
            *final(self) == Self::step(*old(self), *solution),
    {
        self.0.process(solution);
        self.1.process(solution);
    }

    fn finalize_and_print(&self) {
        self.0.finalize_and_print();
        self.1.finalize_and_print();
    }
}

/// Every processor consumes a whole channel the obvious way: receive until
/// the channel is closed and drained, processing each value in arrival
/// order.
impl<S, P: Processor<S>> crate::channel_consumer::ChannelConsumer<S> for P {
    fn consume_all(&mut self, receiver: flume::Receiver<S>) {
        crate::consumer::Consumer::consume(receiver, self);
    }
}

/// Composition law: feeding a stream to the pair of two processors leaves
/// each component in exactly the state it would have reached had it consumed
/// the same stream on its own.
pub proof fn lemma_pair_run_stream<S, A: Processor<S>, B: Processor<S>>(
    a: A,
    b: B,
    stream: Seq<S>,
)
    ensures
        run_stream((a, b), stream) == (run_stream(a, stream), run_stream(b, stream)),
    decreases stream.len(),
{
    if stream.len() != 0 {
        lemma_pair_run_stream(A::step(a, stream[0]), B::step(b, stream[0]), stream.drop_first());
    }
}

/// Pairing is associative in effect: however three processors are nested
/// into pairs, each component ends in exactly the state it reaches on its
/// own, so any number of monitors stack via nested pairs with identical
/// observable results.
pub proof fn lemma_pair_associative<S, A: Processor<S>, B: Processor<S>, C: Processor<S>>(
    a: A,
    b: B,
    c: C,
    stream: Seq<S>,
)
    ensures
        run_stream(((a, b), c), stream) == ((run_stream(a, stream), run_stream(b, stream)),
        run_stream(c, stream)),
        run_stream((a, (b, c)), stream) == (run_stream(a, stream), (run_stream(b, stream),
        run_stream(c, stream))),
{
    lemma_pair_run_stream((a, b), c, stream);
    lemma_pair_run_stream(a, b, stream);
    lemma_pair_run_stream(b, c, stream);
    lemma_pair_run_stream(a, (b, c), stream);
}

} // verus!
