//! A stochastic-search harness: repeated "generate, score, observe" trials
//! over an abstract candidate-solution space, in two algorithmic shapes
//! (independent random sampling and iterative hill climbing), reporting
//! through a composable observation pipeline that may run synchronously or
//! behind a bounded queue.

pub mod capabilities;
pub mod channel;
pub mod channel_consumer;
pub mod consumer;
pub mod hill_climber;
pub mod inspector;
pub mod integer_genomes;
pub mod processor;
pub mod random_search;
mod rng;
pub mod simplifier;
pub mod statistics;
