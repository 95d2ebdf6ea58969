//! The clock of the LED task: the pause that the strips need between two
//! frames to latch what they received.
//!
//! Times are in microseconds since an arbitrary start.

use vstd::prelude::*;

verus! {

/// Shortest pause between the end of one transmission and the start of the
/// next, in microseconds.
pub const RESET_DURATION_US: u64 = 280;

/// Pause between two looks at the FIFO while it drains, in microseconds.
pub const DRAIN_POLL_US: u64 = 5;

/// Time on the wire of one LED of every strip, in microseconds: twenty-four
/// bits of 1.25 microseconds.
pub const LED_TIME_US: u64 = 30;

/// How long to wait at `now` so that `RESET_DURATION_US` have passed since `last_write`.
pub open spec fn spec_reset_wait(last_write: u64, now: u64) -> int {
    if now - last_write < RESET_DURATION_US {
        RESET_DURATION_US - (now - last_write)
    } else {
        0
    }
}

/// Computes the rest of the pause that is still due at `now`.
pub fn reset_wait(last_write: u64, now: u64) -> (wait: u64)
    requires
        last_write <= now,
    ensures
        wait == spec_reset_wait(last_write, now),
        now + wait - last_write >= RESET_DURATION_US,
        wait <= RESET_DURATION_US,
{
    let diff = now - last_write;
    if diff < RESET_DURATION_US {
        RESET_DURATION_US - diff
    } else {
        0
    }
}

/// Time on the wire of a frame of `leds` LEDs per strip, in microseconds.
pub fn frame_time_us(leds: usize) -> (t: u64)
    requires
        leds <= crate::wire::MAX_LEDS_PER_STRIP,
    ensures
        t == leds * LED_TIME_US,
{
    (leds as u64) * LED_TIME_US
}

/// Remembers when the last transmission ended.
pub struct LedClock {
    last_write: u64,
}

impl View for LedClock {
    type V = u64;

    /// The time at which the last transmission ended.
    closed spec fn view(&self) -> u64 {
        self.last_write
    }
}

impl LedClock {
    /// A clock for a task that starts at `now`: the pause is counted from
    /// the start of the task.
    pub fn new(now: u64) -> (clock: LedClock)
        ensures
            clock@ == now,
    {
        LedClock { last_write: now }
    }

    /// The time at which the last transmission ended.
    pub fn last_write(&self) -> (t: u64)
        ensures
            t == self@,
    {
        self.last_write
    }

    /// A frame arrived at `now`: says how long to sleep before its first bit
    /// may go out. After the sleep at least [`RESET_DURATION_US`] have
    /// passed since the last transmission ended, and no more than needed.
    pub fn wait_before_frame(&self, now: u64) -> (wait: u64)
        requires
            self@ <= now,
        ensures
            wait == spec_reset_wait(self@, now),
            now + wait - self@ >= RESET_DURATION_US,
    {
        reset_wait(self.last_write, now)
    }

    /// The FIFO ran empty at `now`: the transmission has ended.
    pub fn transmission_ended(&mut self, now: u64)
        ensures
            final(self)@ == now,
    {
        self.last_write = now;
    }
}

} // verus!
