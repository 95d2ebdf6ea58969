//! The active geometry: how many strips are lit and how long each one is.

use vstd::prelude::*;
use crate::wire::{BYTES_PER_LED, MAX_LEDS_PER_STRIP, MAX_STRIPS};

verus! {

/// Number of strips in use and number of LEDs on each of them.
#[derive(Clone, Copy, Debug, PartialEq, Eq, Structural)]
pub struct Config {
    pub strips: usize,
    pub leds: usize,
}

impl Config {
    /// Both numbers are within what the frame buffer can hold.
    pub open spec fn in_range(self) -> bool {
        self.strips <= MAX_STRIPS && self.leds <= MAX_LEDS_PER_STRIP
    }

    /// Number of payload bytes of one frame with this geometry.
    pub open spec fn frame_len(self) -> int {
        BYTES_PER_LED * self.leds * self.strips
    }

    /// A frame never exceeds the frame buffer.
    pub proof fn lemma_frame_fits(self)
        requires
            self.in_range(),
        ensures
            0 <= self.frame_len() <= crate::wire::MAX_BUFFER_SIZE,
    {
        assert(0 <= self.leds * self.strips <= 512 * 8) by (nonlinear_arith)
            requires
                self.strips <= 8,
                self.leds <= 512,
        ;
        assert(3 * self.leds * self.strips == 3 * (self.leds * self.strips)) by (nonlinear_arith);
    }

    /// Computes the number of payload bytes of one frame.
    pub fn payload_len(&self) -> (n: usize)
        requires
            self.in_range(),
        ensures
            n == self.frame_len(),
    {
        proof {
            self.lemma_frame_fits();
            assert(0 <= 3 * self.leds <= 3 * 512);
        }
        BYTES_PER_LED * self.leds * self.strips
    }
}

impl Default for Config {
    /// Three strips of full length, the geometry of a device that was never configured.
    fn default() -> (c: Config)
        ensures
            c == (Config { strips: 3, leds: 512 }),
    {
        Config { strips: 3, leds: MAX_LEDS_PER_STRIP }
    }
}

} // verus!
