//! The request to create a persistent subscription.

pub mod settings;

use crate::event_store::client::persistent::create_req::settings::{
    CheckpointAfter, MessageTimeout,
};
use vstd::prelude::*;

verus! {

/// How the server is to run the subscription.
#[derive(Clone, Copy, Debug, PartialEq, Eq)]
pub struct Settings {
    pub resolve_links: bool,
    pub revision: u64,
    pub extra_statistics: bool,
    pub max_retry_count: i32,
    pub min_checkpoint_count: i32,
    pub max_checkpoint_count: i32,
    pub max_subscriber_count: i32,
    pub live_buffer_size: i32,
    pub read_batch_size: i32,
    pub history_buffer_size: i32,
    /// The number of a `ConsumerStrategy`.
    pub named_consumer_strategy: i32,
    pub message_timeout: Option<MessageTimeout>,
    pub checkpoint_after: Option<CheckpointAfter>,
}

/// How the events are handed to the consumers of a group.
#[derive(Clone, Copy, Debug, PartialEq, Eq, Hash, Structural)]
pub enum ConsumerStrategy {
    DispatchToSingle,
    RoundRobin,
    Pinned,
}

/// The number that stands for a strategy in a message.
pub open spec fn strategy_number(strategy: ConsumerStrategy) -> i32 {
    match strategy {
        ConsumerStrategy::DispatchToSingle => 0,
        ConsumerStrategy::RoundRobin => 1,
        ConsumerStrategy::Pinned => 2,
    }
}

impl ConsumerStrategy {
    /// The number that stands for the strategy in a message.
    pub fn number(&self) -> (number: i32)
        ensures
            number == strategy_number(*self),
    {
        match self {
            ConsumerStrategy::DispatchToSingle => 0,
            ConsumerStrategy::RoundRobin => 1,
            ConsumerStrategy::Pinned => 2,
        }
    }
}

} // verus!
