use std::marker::PhantomData;

use stochastic_search::channel::ChannelInspector;
use stochastic_search::consumer::Consumer;
use stochastic_search::inspector::Inspector;
use stochastic_search::integer_genomes::{DistanceToTarget, UniformRange};
use stochastic_search::processor::Processor;
use stochastic_search::random_search::{RandomSearch, RandomSearchConfig};

/// A processor for tests that simply collects everything it sees.
struct CollectAll {
    seen: Vec<(usize, i64, i64)>,
}

impl Processor<(usize, i64, i64)> for CollectAll {
    fn step(pre: Self, solution: (usize, i64, i64)) -> Self {
        let mut post = pre;
        post.process(&solution);
        post
    }

    fn process(&mut self, solution: &(usize, i64, i64)) {
        self.seen.push(*solution);
    }
}

#[test]
fn consumer_drains_the_channel_in_order() {
    let (sender, receiver) = flume::bounded(16);
    for i in 0..10 {
        sender.send((i, i as i64 * 10, -(i as i64))).unwrap();
    }
    drop(sender);
    let mut processor = CollectAll { seen: Vec::new() };
    Consumer::consume(receiver, &mut processor);
    assert_eq!(processor.seen.len(), 10);
    for (position, record) in processor.seen.iter().enumerate() {
        assert_eq!(record.0, position);
    }
}

#[test]
fn bounded_queue_delivers_every_record_with_a_slow_consumer() {
    // Capacity 3, 10 records: the producer can never run ahead by more than
    // the capacity; a full queue refuses further records instead of
    // dropping any, and after space frees the refused record goes through.
    let capacity = 3;
    let k = 10;
    let (sender, receiver) = flume::bounded(capacity);
    let mut delivered = Vec::new();
    let mut next = 0;
    while next < k {
        match sender.try_send(next) {
            Ok(()) => next += 1,
            Err(flume::TrySendError::Full(value)) => {
                assert_eq!(value, next, "a refused record is handed back, not dropped");
                // The slow consumer takes one record, freeing one slot.
                delivered.push(receiver.recv().unwrap());
            }
            Err(flume::TrySendError::Disconnected(_)) => unreachable!(),
        }
    }
    drop(sender);
    while let Ok(value) = receiver.recv() {
        delivered.push(value);
    }
    let expected: Vec<i32> = (0..k).collect();
    assert_eq!(delivered, expected);
}

#[test]
fn channel_inspector_forwards_batches() {
    let (sender, receiver) = flume::bounded(8);
    let mut inspector: ChannelInspector<i64, i64> = ChannelInspector::new(sender);
    inspector.inspect(&[(0, 5, -5), (1, 6, -6)]);
    inspector.inspect(&[(2, 7, -7)]);
    drop(inspector);
    let mut processor = CollectAll { seen: Vec::new() };
    Consumer::consume(receiver, &mut processor);
    assert_eq!(processor.seen, vec![(0, 5, -5), (1, 6, -6), (2, 7, -7)]);
}

#[test]
fn search_engine_feeds_the_pipeline_end_to_end() {
    let n = 12;
    let (sender, receiver) = flume::bounded(n);
    let mut engine = RandomSearch {
        config: RandomSearchConfig {
            num_to_search: n,
            parallel_search: false,
            chunk_size: 4,
        },
        genome_maker: UniformRange { low: 0, high: 9 },
        scorer: DistanceToTarget { target: 4 },
        inspector: ChannelInspector::new(sender),
        _genome: PhantomData,
    };
    assert!(engine.search().is_ok());
    // Releasing the engine releases its sending handle, so the consumer
    // observes end-of-stream.
    drop(engine);
    let mut processor = CollectAll { seen: Vec::new() };
    Consumer::consume(receiver, &mut processor);
    assert_eq!(processor.seen.len(), n);
    for (position, record) in processor.seen.iter().enumerate() {
        assert_eq!(record.0, position);
        assert_eq!(record.2, -((record.1 - 4).abs()));
    }
}
