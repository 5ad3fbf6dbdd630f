//! Lets input and drawing have a turn while many events come in.

use vstd::prelude::*;

verus! {

/// For how many milliseconds events are handled without a pause.
pub const BATCH: u64 = 4;

/// How many milliseconds a pause takes.
pub const PAUSE: u64 = 1;

/// The events that are handled without a pause. Times are in milliseconds.
#[derive(Debug, Clone, Copy, PartialEq, Eq, Structural)]
pub struct Batch {
    pub started: u64,
}

impl Batch {
    pub fn new(now: u64) -> (batch: Batch)
        ensures
            batch.started == now,
    {
        Batch { started: now }
    }

    /// Whether a pause is due after an event.
    pub fn pause_due(self, now: u64) -> (due: bool)
        ensures
            due == (now - self.started >= BATCH),
    {
        now >= self.started && now - self.started >= BATCH
    }
}

} // verus!
