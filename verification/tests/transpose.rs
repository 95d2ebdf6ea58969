use serial_ws2812::transpose::{compress_bit, compress_byte, shift};

fn transposed(input: [u8; 8]) -> [u8; 8] {
    let mut column = input;
    let mut out = [0u8; 8];
    compress_byte(&mut column, &mut out);
    out
}

#[test]
fn transpose_of_the_diagonal_is_the_diagonal() {
    let diagonal = [0x80, 0x40, 0x20, 0x10, 0x08, 0x04, 0x02, 0x01];
    assert_eq!(transposed(diagonal), diagonal);
}

#[test]
fn transpose_of_all_ones_is_all_ones() {
    assert_eq!(transposed([0xFF; 8]), [0xFF; 8]);
}

#[test]
fn transpose_of_all_zeros_is_all_zeros() {
    assert_eq!(transposed([0x00; 8]), [0x00; 8]);
}

#[test]
fn transpose_moves_bit_k_of_byte_s_to_bit_s_of_byte_k() {
    for s in 0..8usize {
        for k in 0..8usize {
            let mut input = [0u8; 8];
            input[s] = 0x80 >> k;
            let mut expected = [0u8; 8];
            expected[k] = 0x80 >> s;
            assert_eq!(transposed(input), expected, "s = {}, k = {}", s, k);
        }
    }
}

#[test]
fn transpose_of_one_row_is_one_column() {
    let input = [0xFF, 0, 0, 0, 0, 0, 0, 0];
    assert_eq!(transposed(input), [0x80; 8]);
    let input = [0, 0, 0, 0, 0, 0, 0, 0xA5];
    assert_eq!(transposed(input), [0x01, 0x00, 0x01, 0x00, 0x00, 0x01, 0x00, 0x01]);
}

#[test]
fn transpose_twice_gives_the_input_back() {
    let mut seed: u32 = 0x1234_5678;
    for _ in 0..500 {
        let mut input = [0u8; 8];
        for byte in input.iter_mut() {
            seed = seed.wrapping_mul(1_664_525).wrapping_add(1_013_904_223);
            *byte = (seed >> 24) as u8;
        }
        assert_eq!(transposed(transposed(input)), input);
    }
}

#[test]
fn compress_bit_collects_the_top_bits() {
    assert_eq!(compress_bit(&[0x80, 0, 0, 0, 0, 0, 0, 0]), 0x80);
    assert_eq!(compress_bit(&[0, 0x80, 0, 0, 0, 0, 0, 0]), 0x40);
    assert_eq!(compress_bit(&[0, 0, 0, 0, 0, 0, 0, 0x80]), 0x01);
    assert_eq!(compress_bit(&[0x7F; 8]), 0x00);
    assert_eq!(compress_bit(&[0x80, 0x7F, 0xFF, 0x00, 0x81, 0x01, 0xC0, 0x3F]), 0b1010_1010);
}

#[test]
fn shift_moves_every_byte_one_place_left() {
    let mut column = [0x01, 0x80, 0xFF, 0x40, 0x00, 0x55, 0xAA, 0x7F];
    shift(&mut column);
    assert_eq!(column, [0x02, 0x00, 0xFE, 0x80, 0x00, 0xAA, 0x54, 0xFE]);
}

#[test]
fn compress_byte_fills_an_output_of_any_length() {
    let mut column = [0xC0, 0, 0, 0, 0, 0, 0, 0x40];
    let mut out = [0xEEu8; 3];
    compress_byte(&mut column, &mut out);
    assert_eq!(out, [0x80, 0x81, 0x00]);
    assert_eq!(column, [0x00; 8]);

    let mut column = [0xFF; 8];
    let mut out = [0xEEu8; 10];
    compress_byte(&mut column, &mut out);
    assert_eq!(out, [0xFF, 0xFF, 0xFF, 0xFF, 0xFF, 0xFF, 0xFF, 0xFF, 0x00, 0x00]);
    assert_eq!(column, [0x00; 8]);

    let mut column = [0x12, 0x34, 0, 0, 0, 0, 0, 0];
    let mut out: [u8; 0] = [];
    compress_byte(&mut column, &mut out);
    assert_eq!(column, [0x12, 0x34, 0, 0, 0, 0, 0, 0]);
}
