//! Decisions of the task that keeps the ring filled. The task itself sleeps
//! and talks to the device; what it does next is decided here.

use super::RingBuffer;
use vstd::prelude::*;

verus! {

/// Most bytes asked of the device in one refill.
pub const MAX_REFILL: usize = 65536;

/// Pause when the ring is full enough, in milliseconds.
pub const IDLE_PAUSE_MS: u64 = 10;

/// Pause after a failed device read, in milliseconds.
pub const ERROR_PAUSE_MS: u64 = 100;

/// Failed device reads in a row that the task bears.
pub const MAX_CONSECUTIVE_ERRORS: u32 = 10;

/// What the refill task does next.
#[derive(Debug, Clone, Copy, PartialEq, Eq, Structural)]
pub enum RefillAction {
    /// Sleep this many milliseconds, then look again.
    Pause { millis: u64 },
    /// Read this many bytes from the device and report how it went.
    Fetch { size: usize },
    /// End the task.
    Stop,
}

/// A ring that holds `available` of `capacity` bytes is less than 80% full.
pub open spec fn below_high_water(available: nat, capacity: nat) -> bool {
    5 * available < 4 * capacity
}

/// Bytes to ask of the device for a ring that holds `available` of
/// `capacity` bytes: half of what is free, at most `MAX_REFILL`.
pub open spec fn refill_size(available: nat, capacity: nat) -> nat {
    let half = ((capacity - available) / 2) as nat;
    if half < MAX_REFILL {
        half
    } else {
        MAX_REFILL as nat
    }
}

/// What the task does when it looks at a ring that holds `available` of
/// `capacity` bytes.
pub open spec fn refill_plan(available: nat, capacity: nat) -> RefillAction {
    if below_high_water(available, capacity) {
        RefillAction::Fetch { size: refill_size(available, capacity) as usize }
    } else {
        RefillAction::Pause { millis: IDLE_PAUSE_MS }
    }
}

/// What the task does after a failed device read, the `errors`-th in a row:
/// it stops once more than `MAX_CONSECUTIVE_ERRORS` have failed, else it
/// pauses.
pub open spec fn failure_plan(errors: nat) -> RefillAction {
    if errors > MAX_CONSECUTIVE_ERRORS {
        RefillAction::Stop
    } else {
        RefillAction::Pause { millis: ERROR_PAUSE_MS }
    }
}

/// What the task remembers between two looks at the ring.
pub struct RefillState {
    consecutive_errors: u32,
}

impl RefillState {
    /// Failed device reads since the last good one, counted up to one more
    /// than the task bears.
    pub closed spec fn errors(&self) -> nat {
        self.consecutive_errors as nat
    }

    /// The state of a task that has not read yet.
    pub fn new() -> (state: Self)
        ensures
            state.errors() == 0,
    {
        RefillState { consecutive_errors: 0 }
    }

    /// Look at the ring and decide: fetch while it is less than 80% full,
    /// else pause.
    pub fn plan(&self, ring: &RingBuffer) -> (action: RefillAction)
        ensures
            action == refill_plan(ring@.len(), ring.spec_capacity()),
    {
        let available = ring.available();
        let capacity = ring.capacity();
        if (available as u128) * 5 < (capacity as u128) * 4 {
            let half = (capacity - available) / 2;
            let size = if half < MAX_REFILL {
                half
            } else {
                MAX_REFILL
            };
            RefillAction::Fetch { size }
        } else {
            RefillAction::Pause { millis: IDLE_PAUSE_MS }
        }
    }

    /// The device read went well: write `data` to the ring, forget earlier
    /// failures, and return how many bytes found no room.
    pub fn on_fetched(&mut self, ring: &mut RingBuffer, data: &[u8]) -> (discarded: usize)
        ensures
            final(self).errors() == 0,
            final(ring)@ == old(ring)@ + data@.take(data@.len() - discarded),
            final(ring).spec_capacity() == old(ring).spec_capacity(),
            discarded == data@.len() - super::accepted_len(
                old(ring).spec_capacity(),
                old(ring)@.len(),
                data@.len(),
            ),
    {
        let written = ring.write(data);
        self.consecutive_errors = 0;
        data.len() - written
    }

    /// The device read failed: count it, and stop once more than
    /// `MAX_CONSECUTIVE_ERRORS` reads in a row have failed, else pause.
    pub fn on_failure(&mut self) -> (action: RefillAction)
        ensures
            old(self).errors() <= MAX_CONSECUTIVE_ERRORS ==> final(self).errors() == old(self).errors() + 1,
            old(self).errors() > MAX_CONSECUTIVE_ERRORS ==> final(self).errors() == old(self).errors(),
            action == failure_plan(final(self).errors()),
    {
        if self.consecutive_errors <= MAX_CONSECUTIVE_ERRORS {
            self.consecutive_errors = self.consecutive_errors + 1;
        }
        if self.consecutive_errors > MAX_CONSECUTIVE_ERRORS {
            RefillAction::Stop
        } else {
            RefillAction::Pause { millis: ERROR_PAUSE_MS }
        }
    }
}

} // verus!
