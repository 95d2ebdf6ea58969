//! The frame buffer and the step that fills it from an `update` payload.

use vstd::prelude::*;
use vstd::slice::slice_subrange;
use crate::wire::{BYTES_PER_LED, MAX_LEDS_PER_STRIP, MAX_STRIPS};

verus! {

/// One byte per colour, one pixel per LED, one row per strip. Colours are
/// stored red, green, blue.
pub type Leds = [[[u8; BYTES_PER_LED]; MAX_LEDS_PER_STRIP]; MAX_STRIPS];

/// A frame with every LED off.
pub fn blank() -> (frame: Box<Leds>)
    ensures
        forall|s: int, l: int, c: int|
            0 <= s < MAX_STRIPS && 0 <= l < MAX_LEDS_PER_STRIP && 0 <= c < BYTES_PER_LED
                ==> frame[s][l][c] == 0,
{
    Box::new([[[0u8; 3]; 512]; 8])
}

/// A complete `update`: the geometry it was sent under and its pixel bytes,
/// strip after strip, LED after LED, three bytes each.
#[derive(Debug, PartialEq, Eq)]
pub struct FrameUpdate {
    pub strips: usize,
    pub leds: usize,
    pub payload: Vec<u8>,
}

/// A [`FrameUpdate`] with its payload as a sequence.
pub struct UpdateView {
    pub strips: usize,
    pub leds: usize,
    pub payload: Seq<u8>,
}

impl View for FrameUpdate {
    type V = UpdateView;

    open spec fn view(&self) -> UpdateView {
        UpdateView { strips: self.strips, leds: self.leds, payload: self.payload@ }
    }
}

impl UpdateView {
    /// The geometry fits the frame buffer and the payload has exactly three
    /// bytes for each LED of each strip.
    pub open spec fn wf(self) -> bool {
        &&& self.strips <= MAX_STRIPS
        &&& self.leds <= MAX_LEDS_PER_STRIP
        &&& self.payload.len() == BYTES_PER_LED * self.leds * self.strips
    }

    /// The payload byte for colour `c` of LED `l` on strip `s`.
    pub open spec fn pixel_byte(self, s: int, l: int, c: int) -> u8 {
        self.payload[(s * self.leds + l) * 3 + c]
    }

    /// `after` is `before` with the payload written over the first `leds`
    /// pixels of the first `strips` rows, and nothing else touched.
    pub open spec fn loads(self, before: Leds, after: Leds) -> bool {
        forall|s: int, l: int, c: int|
            0 <= s < MAX_STRIPS && 0 <= l < MAX_LEDS_PER_STRIP && 0 <= c < BYTES_PER_LED
                ==> #[trigger] after[s][l][c] == if s < self.strips && l < self.leds {
                self.pixel_byte(s, l, c)
            } else {
                before[s][l][c]
            }
    }
}

/// Reads a byte slice as pixels of three bytes with `bytemuck::cast_slice`.
///
/// The cast reinterprets the same memory, so pixel `i` holds bytes `3 * i`,
/// `3 * i + 1` and `3 * i + 2`. It panics when bytes would be left over, which
/// the precondition rules out; a pixel has the alignment of a byte, so the
/// cast cannot fail for alignment.
#[verifier::external_body]
fn pixels(bytes: &[u8]) -> (px: &[[u8; 3]])
    requires
        bytes@.len() % 3 == 0,
    ensures
        px@.len() * 3 == bytes@.len(),
        forall|i: int, c: int|
            0 <= i < px@.len() && 0 <= c < 3 ==> #[trigger] px@[i][c] == bytes@[3 * i + c],
{
    bytemuck::cast_slice(bytes)
}

impl FrameUpdate {
    /// Copies the payload into the frame buffer: row `s` of the buffer takes
    /// the `leds` pixels of strip `s`. Pixels beyond `leds` and rows beyond
    /// `strips` keep what they held.
    pub fn apply(&self, frame: &mut Leds)
        requires
            self@.wf(),
        ensures
            self@.loads(*old(frame), *final(frame)),
    {
        let data = self.payload.as_slice();
        let leds = self.leds;
        let strips = self.strips;
        let mut s: usize = 0;
        while s < strips
            invariant
                0 <= s <= strips <= MAX_STRIPS,
                leds <= MAX_LEDS_PER_STRIP,
                leds == self.leds,
                data@ == self.payload@,
                data@.len() == 3 * leds * strips,
                forall|t: int, l: int, c: int|
                    0 <= t < MAX_STRIPS && 0 <= l < MAX_LEDS_PER_STRIP && 0 <= c < BYTES_PER_LED
                        ==> #[trigger] frame[t][l][c] == if t < s && l < leds {
                        self@.pixel_byte(t, l, c)
                    } else {
                        old(frame)[t][l][c]
                    },
            decreases strips - s,
        {
            assert(0 <= s * leds <= s * leds + leds == (s + 1) * leds <= strips * leds <= 8 * 512) by (nonlinear_arith)
                requires
                    0 <= s < strips <= 8,
                    0 <= leds <= 512,
            ;
            assert(3 * leds * strips == 3 * (strips * leds)) by (nonlinear_arith);
            let start = s * leds * BYTES_PER_LED;
            let row = pixels(slice_subrange(data, start, start + leds * BYTES_PER_LED));
            let mut l: usize = 0;
            while l < leds
                invariant
                    0 <= l <= leds <= MAX_LEDS_PER_STRIP,
                    0 <= s < strips <= MAX_STRIPS,
                    leds == self.leds,
                    data@ == self.payload@,
                    start == s * leds * 3,
                    start + leds * 3 <= data@.len(),
                    row@.len() == leds,
                    forall|i: int, c: int|
                        0 <= i < leds && 0 <= c < 3 ==> #[trigger] row@[i][c] == data@[start + 3 * i + c],
                    forall|t: int, m: int, c: int|
                        0 <= t < MAX_STRIPS && 0 <= m < MAX_LEDS_PER_STRIP && 0 <= c < BYTES_PER_LED
                            ==> #[trigger] frame[t][m][c] == if (t < s && m < leds) || (t == s && m
                            < l) {
                            self@.pixel_byte(t, m, c)
                        } else {
                            old(frame)[t][m][c]
                        },
                decreases leds - l,
            {
                let ghost prev = *frame;
                frame[s][l] = row[l];
                proof {
                    assert forall|t: int, m: int, c: int|
                        0 <= t < MAX_STRIPS && 0 <= m < MAX_LEDS_PER_STRIP && 0 <= c
                            < BYTES_PER_LED implies #[trigger] frame[t][m][c] == if (t < s && m
                        < leds) || (t == s && m < l + 1) {
                        self@.pixel_byte(t, m, c)
                    } else {
                        old(frame)[t][m][c]
                    } by {
                        if t == s && m == l {
                            assert(frame[t][m] == row@[l as int]);
                            assert((s * leds + l) * 3 + c == start + 3 * l + c) by (nonlinear_arith)
                                requires
                                    start == s * leds * 3,
                            ;
                        } else {
                            assert(frame[t][m][c] == prev[t][m][c]);
                        }
                    }
                }
                l += 1;
            }
            s += 1;
        }
    }
}

} // verus!
