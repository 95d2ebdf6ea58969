use serial_ws2812::pio_setup::{
    clock_divider, cycles_per_bit, output_stage, CYCLES_PER_BIT, STEP_CYCLES, SYS_CLOCK_KHZ,
    WS2812_KHZ,
};

#[test]
fn one_bit_takes_ten_cycles() {
    assert_eq!(STEP_CYCLES, [1, 1, 3, 4, 1]);
    assert_eq!(cycles_per_bit(), 10);
    assert_eq!(CYCLES_PER_BIT, 10);
}

#[test]
fn the_divider_of_the_board_is_33_and_a_quarter() {
    assert_eq!(SYS_CLOCK_KHZ, 266_000);
    assert_eq!(WS2812_KHZ, 800);
    let bits = clock_divider(SYS_CLOCK_KHZ, WS2812_KHZ).unwrap();
    assert_eq!(bits, 33 * 256 + 64);
    assert_eq!(bits as f64 / 256.0, 33.25);
}

#[test]
fn the_divider_is_the_ratio_of_the_clocks_in_256ths() {
    assert_eq!(clock_divider(8_000, 800), Some(256));
    assert_eq!(clock_divider(125_000, 800), Some(4_000));
    assert_eq!(clock_divider(133_000, 800), Some(4_256));
    assert_eq!(clock_divider(1, 800), Some(0));
    assert_eq!(clock_divider(100, 3), Some(853));
    assert_eq!(clock_divider(0, 1), Some(0));
    assert_eq!(clock_divider(0xFF_FFFF, 1), Some(429_496_704));
}

#[test]
fn clocks_beyond_the_format_have_no_divider() {
    assert_eq!(clock_divider(266_000, 0), None);
    assert_eq!(clock_divider(0x100_0000, 800), None);
    assert_eq!(clock_divider(266_000, 1_677_722), None);
    assert!(clock_divider(266_000, 1_677_721).is_some());
    assert_eq!(clock_divider(u32::MAX, u32::MAX), None);
}

#[test]
fn the_output_stage_shifts_words_of_32_bits_to_eight_pins() {
    let stage = output_stage();
    assert!(stage.auto_fill);
    assert_eq!(stage.threshold, 32);
    assert!(stage.shift_left);
    assert!(stage.join_tx);
    assert_eq!(stage.out_pins, 8);
    assert_eq!(stage.set_pins, 4);
}
