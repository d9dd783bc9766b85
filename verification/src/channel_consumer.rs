//! Consume all the values on a given channel, processing them as
//! appropriate.
//!
//! The values on the channel are presumably items generated by a search
//! process, probably either individual solutions or collections of
//! solutions. Implementations of the [`Processor`](crate::processor::Processor)
//! trait are typically how the values are processed, and every processor
//! already is a `ChannelConsumer` through its blanket implementation (in
//! [`crate::processor`]), so this trait rarely needs implementing directly.

use vstd::prelude::*;

verus! {

pub trait ChannelConsumer<S> {
    /// Consume all the values on the provided channel, processing them as
    /// appropriate.
    fn consume_all(&mut self, receiver: flume::Receiver<S>);
}

} // verus!
