//! The parts of the settings that can be given in more than one unit.

use vstd::prelude::*;

verus! {

/// How long the server waits for a consumer to acknowledge an event.
#[derive(Clone, Copy, Debug, PartialEq, Eq, Structural)]
pub enum MessageTimeout {
    MessageTimeoutTicks(i64),
    MessageTimeoutMs(i32),
}

/// How long the server waits before it writes a checkpoint.
#[derive(Clone, Copy, Debug, PartialEq, Eq, Structural)]
pub enum CheckpointAfter {
    CheckpointAfterTicks(i64),
    CheckpointAfterMs(i32),
}

} // verus!
