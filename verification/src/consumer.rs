//! The consuming side of the telemetry pipeline: a worker that drains a
//! channel into a processor chain.

use vstd::prelude::*;

use crate::channel::channel_recv;
use crate::processor::{run_stream, Processor};

verus! {

pub struct Consumer {}

impl Consumer {
    /// Receive until the channel reports closed-and-drained — which happens
    /// only once every sending handle has been dropped — forwarding each
    /// received solution to the processor in arrival order, and finally
    /// invoking the processor's finalize step. The processor ends in
    /// exactly the state reached by folding its step function over the
    /// stream of received solutions.
    pub fn consume<S, P: Processor<S>>(receiver: flume::Receiver<S>, processor: &mut P)
        ensures
            exists|received: Seq<S>| *final(processor) == run_stream(*old(processor), received),
    {
        let ghost mut received: Seq<S> = Seq::empty();
        // Every loop carries a termination measure; this one bounds the
        // receives at u64::MAX, which no real stream reaches.
        let mut budget: u64 = u64::MAX;
        loop
            invariant
                *processor == run_stream(*old(processor), received),
            decreases budget,
        {
            if budget == 0 {
                break ;
            }
            budget = budget - 1;
            match channel_recv(&receiver) {
                Some(solution) => {
                    processor.process(&solution);
                    proof {
                        crate::processor::lemma_run_stream_snoc(
                            *old(processor),
                            received,
                            solution,
                        );
                        received = received.push(solution);
                    }
                },
                None => {
                    break ;
                },
            }
        }
        processor.finalize_and_print();
    }
}

} // verus!
