//! The serialiser of the LED task: frame buffer in, wire bytes and FIFO words out.
//!
//! Each wire byte drives the eight output pins for one bit time: bit `s` of
//! the byte, counted from the least significant one, is the level of strip
//! `s`. One LED takes twenty-four wire bytes: eight for green, eight for red,
//! eight for blue, each colour most significant bit first.

use vstd::prelude::*;
use crate::frame::{Leds, UpdateView};
use crate::transpose::{bit_at, compress_byte, lemma_transpose_bit, transpose};
use crate::wire::{BYTES_PER_LED, MAX_BUFFER_SIZE, MAX_LEDS_PER_STRIP, MAX_STRIPS};

verus! {

/// The buffer that the wire bytes of a frame are assembled in.
pub type Scratch = [u8; MAX_BUFFER_SIZE];

/// Wire bytes per LED: eight bit times for each of three colours.
pub const WIRE_BYTES_PER_LED: usize = BYTES_PER_LED * MAX_STRIPS;

/// Bytes per FIFO word.
pub const WORD_LEN: usize = 4;

/// The colour sent in place `j` of an LED: green, red, blue.
pub open spec fn wire_colour(j: int) -> int {
    if j == 0 {
        1
    } else if j == 1 {
        0
    } else {
        2
    }
}

/// Whether wire byte `byte` drives strip `s` high.
pub open spec fn lane(byte: u8, s: int) -> bool {
    bit_at(byte, 7 - s)
}

/// Colour `colour` of LED `led` on all eight strips, the last strip first, so
/// that transposing puts strip `s` on lane `s`.
pub open spec fn column(frame: Leds, led: int, colour: int) -> Seq<u8> {
    Seq::new(8, |r: int| frame[7 - r][led][colour])
}

/// Wire byte number `at` of the frame.
pub open spec fn wire_byte(frame: Leds, at: int) -> u8 {
    transpose(column(frame, at / 24, wire_colour((at % 24) / 8)))[at % 8]
}

/// The first `leds` LEDs of `frame` stand encoded at the start of `out`.
pub open spec fn streamed(frame: Leds, out: Scratch, leds: int) -> bool {
    forall|at: int| 0 <= at < 24 * leds ==> #[trigger] out[at] == wire_byte(frame, at)
}

/// The big-endian word of the four bytes of `b`.
pub open spec fn spec_word(b: Seq<u8>) -> int {
    16777216 * b[0] + 65536 * b[1] + 256 * b[2] + b[3]
}

/// During bit time `k` of colour place `j` of LED `led`, lane `s` carries
/// bit `k` of that colour of that LED of strip `s`.
pub proof fn lemma_wire_lane(frame: Leds, led: int, j: int, k: int, s: int)
    requires
        0 <= led < MAX_LEDS_PER_STRIP,
        0 <= j < 3,
        0 <= k < 8,
        0 <= s < 8,
    ensures
        lane(wire_byte(frame, 24 * led + 8 * j + k), s) == bit_at(
            frame[s][led][wire_colour(j)],
            k,
        ),
{
    let at = 24 * led + 8 * j + k;
    assert(at / 24 == led && (at % 24) / 8 == j && at % 8 == k);
    lemma_transpose_bit(column(frame, led, wire_colour(j)), k, 7 - s);
}

/// What the host sent is what the strips get: once an update is loaded into
/// the frame buffer, lane `s` carries, for each LED of strip `s`, the green,
/// the red and the blue byte of the payload, each most significant bit first.
pub proof fn lemma_payload_reaches_lanes(
    update: UpdateView,
    before: Leds,
    after: Leds,
    s: int,
    led: int,
    j: int,
    k: int,
)
    requires
        update.wf(),
        update.loads(before, after),
        0 <= s < update.strips,
        0 <= led < update.leds,
        0 <= j < 3,
        0 <= k < 8,
    ensures
        lane(wire_byte(after, 24 * led + 8 * j + k), s) == bit_at(
            update.payload[s * update.leds * 3 + led * 3 + wire_colour(j)],
            k,
        ),
{
    lemma_wire_lane(after, led, j, k, s);
    assert(after[s][led][wire_colour(j)] == update.pixel_byte(s, led, wire_colour(j)));
    assert((s * update.leds + led) * 3 + wire_colour(j) == s * update.leds * 3 + led * 3
        + wire_colour(j)) by (nonlinear_arith);
}

/// Rounds a byte count up to whole FIFO words.
pub fn word_aligned(len: usize) -> (total: usize)
    requires
        len + 3 <= usize::MAX,
    ensures
        total % 4 == 0,
        len <= total < len + 4,
{
    if len % WORD_LEN != 0 {
        len + (WORD_LEN - len % WORD_LEN)
    } else {
        len
    }
}

/// The colour sent in place `j` of an LED.
pub fn colour_at(j: usize) -> (colour: usize)
    requires
        j < 3,
    ensures
        colour == wire_colour(j as int),
{
    if j == 0 {
        1
    } else if j == 1 {
        0
    } else {
        2
    }
}

/// Encodes LED `led` of the frame into its twenty-four bytes of `out`, and
/// leaves the rest of `out` alone. All eight rows of the frame are read.
pub fn encode_led(frame: &Leds, led: usize, out: &mut Scratch)
    requires
        led < MAX_LEDS_PER_STRIP,
    ensures
        forall|at: int|
            0 <= at < MAX_BUFFER_SIZE ==> #[trigger] final(out)[at] == if 24 * led <= at < 24 * led
                + 24 {
                wire_byte(*frame, at)
            } else {
                old(out)[at]
            },
{
    let base = WIRE_BYTES_PER_LED * led;
    let mut j: usize = 0;
    while j < 3
        invariant
            0 <= j <= 3,
            led < MAX_LEDS_PER_STRIP,
            base == 24 * led,
            forall|at: int|
                0 <= at < MAX_BUFFER_SIZE ==> #[trigger] out[at] == if base <= at < base + 8 * j {
                    wire_byte(*frame, at)
                } else {
                    old(out)[at]
                },
        decreases 3 - j,
    {
        let colour = colour_at(j);
        let mut current: [u8; 8] = [
            frame[7][led][colour],
            frame[6][led][colour],
            frame[5][led][colour],
            frame[4][led][colour],
            frame[3][led][colour],
            frame[2][led][colour],
            frame[1][led][colour],
            frame[0][led][colour],
        ];
        assert(current@ =~= column(*frame, led as int, colour as int));
        let mut bits = [0u8; 8];
        compress_byte(&mut current, &mut bits);
        let start = base + j * 8;
        let mut k: usize = 0;
        while k < 8
            invariant
                0 <= k <= 8,
                0 <= j < 3,
                led < MAX_LEDS_PER_STRIP,
                base == 24 * led,
                start == base + 8 * j,
                colour == wire_colour(j as int),
                bits@ == transpose(column(*frame, led as int, colour as int)),
                forall|at: int|
                    0 <= at < MAX_BUFFER_SIZE ==> #[trigger] out[at] == if base <= at < start + k {
                        wire_byte(*frame, at)
                    } else {
                        old(out)[at]
                    },
            decreases 8 - k,
        {
            let ghost at = (start + k) as int;
            assert(at / 24 == led && (at % 24) / 8 == j && at % 8 == k);
            out[start + k] = bits[k];
            k += 1;
        }
        j += 1;
    }
}

/// The four bytes of `out` from `at` on as one big-endian word: the first
/// byte leaves the shift register first.
pub fn word_at(out: &Scratch, at: usize) -> (w: u32)
    requires
        at + 4 <= MAX_BUFFER_SIZE,
    ensures
        w == spec_word(out@.subrange(at as int, at + 4)),
{
    let b0 = out[at] as u32;
    let b1 = out[at + 1] as u32;
    let b2 = out[at + 2] as u32;
    let b3 = out[at + 3] as u32;
    16777216 * b0 + 65536 * b1 + 256 * b2 + b3
}

/// Word number `n` of the frame: wire bytes `4 * n` to `4 * n + 3`, the
/// first of them in the top place.
pub open spec fn wire_word(frame: Leds, n: int) -> int {
    16777216 * wire_byte(frame, 4 * n) + 65536 * wire_byte(frame, 4 * n + 1) + 256 * wire_byte(
        frame,
        4 * n + 2,
    ) + wire_byte(frame, 4 * n + 3)
}

/// How far the transmission of one frame has come.
pub struct Progress {
    /// Number of LEDs to send.
    pub leds: nat,
    /// Number of LEDs encoded into the scratch buffer so far.
    pub encoded: nat,
    /// Number of wire bytes handed out as words so far.
    pub written: nat,
}

impl Progress {
    /// No more LEDs than a strip holds, none encoded that is not to be sent,
    /// no byte handed out that is not encoded, and whole words only.
    pub open spec fn wf(self) -> bool {
        &&& self.leds <= MAX_LEDS_PER_STRIP
        &&& self.encoded <= self.leds
        &&& self.written <= 24 * self.encoded
        &&& self.written % 4 == 0
    }

    /// Every LED is encoded and every word handed out.
    pub open spec fn done(self) -> bool {
        self.encoded == self.leds && self.written == 24 * self.leds
    }
}

/// Feeds one frame to the output FIFO, LED by LED and word by word, so that
/// encoding and sending can take turns.
pub struct Feeder {
    leds: usize,
    encoded: usize,
    written: usize,
}

impl View for Feeder {
    type V = Progress;

    closed spec fn view(&self) -> Progress {
        Progress {
            leds: self.leds as nat,
            encoded: self.encoded as nat,
            written: self.written as nat,
        }
    }
}

impl Feeder {
    /// The invariant of the feeder, see [`Progress::wf`].
    pub open spec fn wf(&self) -> bool {
        self@.wf()
    }

    /// Starts the transmission of `to_write` LEDs per strip, at most as many
    /// as a strip holds.
    pub fn new(to_write: usize) -> (feeder: Feeder)
        ensures
            feeder.wf(),
            feeder@ == (Progress {
                leds: if to_write <= MAX_LEDS_PER_STRIP {
                    to_write as nat
                } else {
                    MAX_LEDS_PER_STRIP as nat
                },
                encoded: 0,
                written: 0,
            }),
    {
        let leds = if to_write <= MAX_LEDS_PER_STRIP {
            to_write
        } else {
            MAX_LEDS_PER_STRIP
        };
        Feeder { leds, encoded: 0, written: 0 }
    }

    /// Number of wire bytes of the whole transmission. It is a whole number
    /// of words for every number of LEDs.
    pub fn total(&self) -> (n: usize)
        requires
            self.wf(),
        ensures
            n == 24 * self@.leds,
    {
        word_aligned(WIRE_BYTES_PER_LED * self.leds)
    }

    /// Encodes the next LED, if one is left, and says whether it did.
    pub fn encode_next(&mut self, frame: &Leds, out: &mut Scratch) -> (more: bool)
        requires
            old(self).wf(),
            streamed(*frame, *old(out), old(self)@.encoded as int),
        ensures
            final(self).wf(),
            more == (old(self)@.encoded < old(self)@.leds),
            final(self)@.leds == old(self)@.leds,
            final(self)@.written == old(self)@.written,
            final(self)@.encoded == old(self)@.encoded + if more {
                1nat
            } else {
                0nat
            },
            streamed(*frame, *final(out), final(self)@.encoded as int),
            forall|at: int|
                0 <= at < MAX_BUFFER_SIZE && !(24 * old(self)@.encoded <= at < 24 * final(self)@.encoded)
                    ==> #[trigger] final(out)[at] == old(out)[at],
    {
        if self.encoded < self.leds {
            encode_led(frame, self.encoded, out);
            self.encoded += 1;
            true
        } else {
            false
        }
    }

    /// Hands out the next word, if a whole word is encoded and not yet handed
    /// out. Words come in the order of the wire bytes.
    pub fn next_word(&mut self, out: &Scratch) -> (w: Option<u32>)
        requires
            old(self).wf(),
        ensures
            final(self).wf(),
            final(self)@.leds == old(self)@.leds,
            final(self)@.encoded == old(self)@.encoded,
            match w {
                Some(word) => {
                    &&& old(self)@.written + 4 <= 24 * old(self)@.encoded
                    &&& final(self)@.written == old(self)@.written + 4
                    &&& word == spec_word(
                        out@.subrange(old(self)@.written as int, old(self)@.written + 4 as int),
                    )
                },
                None => {
                    &&& old(self)@.written == 24 * old(self)@.encoded
                    &&& final(self)@ == old(self)@
                },
            },
    {
        if WIRE_BYTES_PER_LED * self.encoded - self.written >= WORD_LEN {
            let word = word_at(out, self.written);
            self.written += WORD_LEN;
            Some(word)
        } else {
            None
        }
    }

    /// Whether the whole frame has been encoded and handed out.
    pub fn finished(&self) -> (done: bool)
        requires
            self.wf(),
        ensures
            done == self@.done(),
    {
        self.encoded == self.leds && self.written == WIRE_BYTES_PER_LED * self.leds
    }
}

/// Encodes the first `to_write` LEDs of the frame, at most as many as a strip
/// holds, and returns the words for the FIFO in the order in which they
/// have to go out: six for each LED.
pub fn frame_words(frame: &Leds, to_write: usize, out: &mut Scratch) -> (words: Vec<u32>)
    ensures
        words@.len() == 6 * if to_write <= MAX_LEDS_PER_STRIP {
            to_write as int
        } else {
            MAX_LEDS_PER_STRIP as int
        },
        forall|n: int| 0 <= n < words@.len() ==> #[trigger] words@[n] == wire_word(*frame, n),
        streamed(*frame, *final(out), words@.len() as int / 6),
{
    let mut feeder = Feeder::new(to_write);
    let mut words: Vec<u32> = Vec::new();
    loop
        invariant
            feeder.wf(),
            feeder@.leds == if to_write <= MAX_LEDS_PER_STRIP {
                to_write as nat
            } else {
                MAX_LEDS_PER_STRIP as nat
            },
            feeder@.written == 24 * feeder@.encoded,
            streamed(*frame, *out, feeder@.encoded as int),
            words@.len() * 4 == feeder@.written,
            forall|n: int| 0 <= n < words@.len() ==> #[trigger] words@[n] == wire_word(*frame, n),
        ensures
            feeder@.encoded == feeder@.leds,
        decreases feeder@.leds - feeder@.encoded,
    {
        if !feeder.encode_next(frame, out) {
            break;
        }
        let ghost encoded = feeder@.encoded;
        loop
            invariant
                feeder.wf(),
                feeder@.encoded == encoded,
                feeder@.leds == if to_write <= MAX_LEDS_PER_STRIP {
                    to_write as nat
                } else {
                    MAX_LEDS_PER_STRIP as nat
                },
                streamed(*frame, *out, feeder@.encoded as int),
                words@.len() * 4 == feeder@.written,
                forall|n: int| 0 <= n < words@.len() ==> #[trigger] words@[n] == wire_word(*frame, n),
            ensures
                feeder@.written == 24 * feeder@.encoded,
            decreases 24 * feeder@.encoded - feeder@.written,
        {
            let ghost at = feeder@.written as int;
            match feeder.next_word(out) {
                Some(word) => {
                    proof {
                        let four = out@.subrange(at, at + 4);
                        assert(four[0] == out[at] && four[1] == out[at + 1] && four[2] == out[at + 2]
                            && four[3] == out[at + 3]);
                        assert(word == wire_word(*frame, at / 4));
                    }
                    words.push(word);
                },
                None => {
                    break;
                },
            }
        }
    }
    words
}

} // verus!
