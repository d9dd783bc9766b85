//! The bounded queue connecting a producing search engine to a consuming
//! worker: flume's channel endpoints, the trusted wrappers around them, and
//! an inspector that emits every record onto the sending side.
//!
//! The shutdown contract of the pipeline lives here: a receiver keeps
//! yielding values until every sending handle (clones included) has been
//! dropped and the queue is drained, so a producer must release its sender
//! once finished for the consumer's loop to terminate.

use vstd::prelude::*;

use crate::capabilities::Duplicable;
use crate::inspector::Inspector;

verus! {

#[verifier::external_type_specification]
#[verifier::external_body]
#[verifier::reject_recursive_types(T)]
pub struct ExSender<T>(flume::Sender<T>);

#[verifier::external_type_specification]
#[verifier::external_body]
#[verifier::reject_recursive_types(T)]
pub struct ExReceiver<T>(flume::Receiver<T>);

/// Relies on `flume::Sender::send`: delivers `value` into the channel. On a
/// bounded channel that is full, the send blocks until space frees rather
/// than failing or dropping the value. Only when every receiver has been
/// dropped does it fail, handing the undelivered value back.
#[verifier::external_body]
pub(crate) fn channel_send<T>(sender: &flume::Sender<T>, value: T) -> (r: Result<(), T>)
    ensures
        r matches Err(v) ==> v == value,
{
    match sender.send(value) {
        Ok(()) => Ok(()),
        Err(flume::SendError(v)) => Err(v),
    }
}

/// Relies on `flume::Receiver::recv`: blocks until a value arrives on the
/// channel and returns it, or returns nothing once every sender has been
/// dropped and the queue is drained. Which value arrives is not promised.
#[verifier::external_body]
pub(crate) fn channel_recv<T>(receiver: &flume::Receiver<T>) -> (r: Option<T>) {
    receiver.recv().ok()
}

/// An inspector that pushes every record it observes onto the sending side
/// of a channel, in observation order, for a consumer on the other side to
/// process. `seen` records what was pushed; a record sent after every
/// receiver is gone is discarded by the channel.
#[verifier::reject_recursive_types(G)]
#[verifier::reject_recursive_types(S)]
pub struct ChannelInspector<G, S> {
    pub sender: flume::Sender<(usize, G, S)>,
    pub sent: Ghost<Seq<(usize, G, S)>>,
    pub sent_batches: Ghost<Seq<Seq<(usize, G, S)>>>,
}

impl<G, S> ChannelInspector<G, S> {
    /// Wrap the sending side of a channel; nothing has been pushed yet.
    pub fn new(sender: flume::Sender<(usize, G, S)>) -> (r: Self)
        ensures
            r.sent@ == Seq::<(usize, G, S)>::empty(),
            r.sent_batches@ == Seq::<Seq<(usize, G, S)>>::empty(),
    {
        Self { sender, sent: Ghost(Seq::empty()), sent_batches: Ghost(Seq::empty()) }
    }
}

impl<G: Duplicable, S: Duplicable> Inspector<G, S> for ChannelInspector<G, S> {
    open spec fn seen(&self) -> Seq<(usize, G, S)> {
        self.sent@
    }

    open spec fn batches(&self) -> Seq<Seq<(usize, G, S)>> {
        self.sent_batches@
    }

    fn inspect(&mut self, records: &[(usize, G, S)])
        ensures
            final(self).seen() == old(self).seen() + records@,
            final(self).batches() == old(self).batches().push(records@),
    {
        let n = records.len();
        for i in 0..n
            invariant
                n == records@.len(),
                self.sent@ == old(self).sent@ + records@.take(i as int),
                self.sent_batches == old(self).sent_batches,
                self.sender == old(self).sender,
        {
            let record = &records[i];
            let _ = channel_send(
                &self.sender,
                (record.0, record.1.duplicate(), record.2.duplicate()),
            );
            proof {
                assert(records@.take(i + 1) == records@.take(i as int).push(records@[i as int]));
            }
            self.sent = Ghost(self.sent@.push((record.0, record.1, record.2)));
        }
        proof {
            assert(records@.take(n as int) == records@);
        }
        self.sent_batches = Ghost(self.sent_batches@.push(records@));
    }
}

} // verus!
