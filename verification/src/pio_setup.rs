//! The parameters of the output stage: the timing of the five-step output
//! program, the clock divider that gives its bit rate, and the shape of its FIFO.

use vstd::prelude::*;

verus! {

/// Clock cycles of the five steps of the output program: clear the scratch
/// register, load eight bits into it, all pins high, pins to the data bits,
/// all pins low.
pub const STEP_CYCLES: [u32; 5] = [1, 1, 3, 4, 1];

/// Clock cycles that the output program spends on one bit.
pub const CYCLES_PER_BIT: u32 = 10;

/// System clock that the board is run at, in kHz.
pub const SYS_CLOCK_KHZ: u32 = 266_000;

/// Bit rate of the LEDs, in kHz.
pub const WS2812_KHZ: u32 = 800;

/// Fractional bits of a clock divider.
pub const FRAC_BITS: u32 = 8;

/// One in the fixed-point format of the divider.
pub const FIXED_ONE: u32 = 256;

/// Largest whole number that the fixed-point format of the divider holds.
pub const FIXED_INT_MAX: u32 = 0xFF_FFFF;

/// The sum of the first `n` entries of `cycles`.
pub open spec fn spec_sum(cycles: Seq<u32>, n: int) -> int
    decreases n,
{
    if n <= 0 {
        0
    } else {
        spec_sum(cycles, n - 1) + cycles[n - 1]
    }
}

/// Adds up the cycles of the output program. The result is [`CYCLES_PER_BIT`].
pub fn cycles_per_bit() -> (total: u32)
    ensures
        total == spec_sum(STEP_CYCLES@, 5),
        total == CYCLES_PER_BIT,
{
    let mut total: u32 = 0;
    let mut n: usize = 0;
    while n < 5
        invariant
            0 <= n <= 5,
            total == spec_sum(STEP_CYCLES@, n as int),
            total <= 4 * n,
        decreases 5 - n,
    {
        total = total + STEP_CYCLES[n];
        n += 1;
    }
    proof {
        reveal_with_fuel(spec_sum, 6);
    }
    total
}

/// Multiplies a fixed-point number, given by its bits, by a whole number,
/// with the `*` of `fixed::types::U24F8` and `u32`.
///
/// The product of the bits is the bits of the product. The operator panics
/// on overflow in some builds and wraps in others; the precondition rules
/// overflow out.
#[verifier::external_body]
fn fixed_times(bits: u32, factor: u32) -> (product: u32)
    requires
        bits * factor <= u32::MAX,
    ensures
        product == bits * factor,
{
    (fixed::types::U24F8::from_bits(bits) * factor).to_bits()
}

/// Divides two fixed-point numbers, given by their bits, with the `/` of
/// `fixed::types::U24F8`.
///
/// The quotient is rounded towards zero to eight fractional bits: its bits
/// are the dividend's bits, shifted up by eight, over the divisor's bits.
/// The operator panics on a zero divisor, and on a quotient beyond 32 bits
/// in some builds; the precondition rules both out.
#[verifier::external_body]
fn fixed_over(dividend: u32, divisor: u32) -> (quotient: u32)
    requires
        divisor != 0,
        (dividend * 256) / (divisor as int) <= u32::MAX,
    ensures
        quotient == (dividend * 256) / (divisor as int),
{
    (fixed::types::U24F8::from_bits(dividend) / fixed::types::U24F8::from_bits(divisor)).to_bits()
}

/// The bits of the divider for a system clock of `sys_khz` and LEDs that
/// take `led_khz` bits per millisecond: the system clock over the clock of
/// the output program, rounded towards zero to eight fractional bits.
pub open spec fn spec_divider(sys_khz: u32, led_khz: u32) -> int {
    (sys_khz * 256 * 256) / (led_khz * CYCLES_PER_BIT * 256)
}

/// Whether [`clock_divider`] has an answer: both clocks fit the fixed-point
/// format, the LED rate is not zero, and the quotient fits 32 bits.
pub open spec fn divider_exists(sys_khz: u32, led_khz: u32) -> bool {
    &&& sys_khz <= FIXED_INT_MAX
    &&& 0 < led_khz
    &&& led_khz * CYCLES_PER_BIT <= FIXED_INT_MAX
    &&& spec_divider(sys_khz, led_khz) <= u32::MAX
}

/// Computes the clock divider of the output program as fixed-point bits.
///
/// For the clocks of this board, 266 MHz and 800 kHz, the divider is 33.25.
pub fn clock_divider(sys_khz: u32, led_khz: u32) -> (bits: Option<u32>)
    ensures
        bits is Some <==> divider_exists(sys_khz, led_khz),
        bits matches Some(b) ==> b == spec_divider(sys_khz, led_khz),
{
    if sys_khz > FIXED_INT_MAX || led_khz == 0 || led_khz > FIXED_INT_MAX / CYCLES_PER_BIT {
        return None;
    }
    let clock_freq = sys_khz * FIXED_ONE;
    let ws2812_freq = led_khz * FIXED_ONE;
    let bit_freq = fixed_times(ws2812_freq, CYCLES_PER_BIT);
    assert(bit_freq == led_khz * CYCLES_PER_BIT * 256) by (nonlinear_arith)
        requires
            bit_freq == (led_khz * 256) * CYCLES_PER_BIT,
    ;
    assert(clock_freq * 256 == sys_khz * 256 * 256);
    if (clock_freq as u64) * 256 / (bit_freq as u64) > 0xFFFF_FFFF {
        return None;
    }
    Some(fixed_over(clock_freq, bit_freq))
}

/// How the output stage shifts and buffers.
#[derive(Clone, Copy, Debug, PartialEq, Eq, Structural)]
pub struct OutputStage {
    /// Refill the shift register from the FIFO without being asked.
    pub auto_fill: bool,
    /// Number of bits after which the shift register is refilled.
    pub threshold: u8,
    /// Shift the most significant bit out first.
    pub shift_left: bool,
    /// Use both FIFOs for sending.
    pub join_tx: bool,
    /// Number of pins that follow the data bits, from pin 0 on.
    pub out_pins: u8,
    /// Number of pins, from pin 0 on, that `set` reaches.
    pub set_pins: u8,
}

/// The output stage of this board: thirty-two bits per word, first byte
/// first, eight pins.
pub fn output_stage() -> (stage: OutputStage)
    ensures
        stage == (OutputStage {
            auto_fill: true,
            threshold: 32,
            shift_left: true,
            join_tx: true,
            out_pins: 8,
            set_pins: 4,
        }),
{
    OutputStage {
        auto_fill: true,
        threshold: 32,
        shift_left: true,
        join_tx: true,
        out_pins: 8,
        set_pins: 4,
    }
}

} // verus!
