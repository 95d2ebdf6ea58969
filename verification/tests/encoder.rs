use serial_ws2812::encoder::{
    colour_at, encode_led, frame_words, word_aligned, word_at, Feeder, Scratch,
    WIRE_BYTES_PER_LED, WORD_LEN,
};
use serial_ws2812::frame::{blank, FrameUpdate, Leds};

fn scratch() -> Box<Scratch> {
    Box::new([0u8; 12_288])
}

fn stream(frame: &Leds, leds: usize) -> (Vec<u32>, Box<Scratch>) {
    let mut out = scratch();
    let mut feeder = Feeder::new(leds);
    let mut words = Vec::new();
    while feeder.encode_next(frame, &mut out) {
        while let Some(word) = feeder.next_word(&out) {
            words.push(word);
        }
    }
    assert!(feeder.next_word(&out).is_none());
    assert!(feeder.finished());
    (words, out)
}

fn lane_byte(out: &Scratch, strip: usize, led: usize, place: usize) -> u8 {
    let mut byte = 0u8;
    for k in 0..8 {
        let wire = out[24 * led + 8 * place + k];
        byte = (byte << 1) | ((wire >> strip) & 1);
    }
    byte
}

#[test]
fn colours_go_out_green_red_blue() {
    assert_eq!(colour_at(0), 1);
    assert_eq!(colour_at(1), 0);
    assert_eq!(colour_at(2), 2);
    assert_eq!(WIRE_BYTES_PER_LED, 24);
    assert_eq!(WORD_LEN, 4);
}

#[test]
fn one_led_takes_twenty_four_bytes_in_its_place() {
    let mut frame = blank();
    frame[0][3] = [0x80, 0x01, 0xFF];
    let mut out = Box::new([0xEEu8; 12_288]);
    encode_led(&frame, 3, &mut out);
    let mut expected = [0u8; 24];
    expected[7] = 0x01;
    expected[8] = 0x01;
    for k in 16..24 {
        expected[k] = 0x01;
    }
    assert_eq!(&out[72..96], &expected);
    assert!(out[..72].iter().all(|b| *b == 0xEE));
    assert!(out[96..].iter().all(|b| *b == 0xEE));
}

#[test]
fn strip_s_drives_bit_s_of_every_wire_byte() {
    for strip in 0..8 {
        let mut frame = blank();
        frame[strip][0] = [0xFF, 0xFF, 0xFF];
        let mut out = scratch();
        encode_led(&frame, 0, &mut out);
        assert!(out[..24].iter().all(|b| *b == 1 << strip), "strip {}", strip);
    }
}

#[test]
fn every_colour_byte_goes_out_most_significant_bit_first() {
    let mut frame = blank();
    let mut seed: u32 = 99;
    for strip in frame.iter_mut() {
        for led in strip.iter_mut().take(7) {
            for colour in led.iter_mut() {
                seed = seed.wrapping_mul(1_664_525).wrapping_add(1_013_904_223);
                *colour = (seed >> 24) as u8;
            }
        }
    }
    let (_, out) = stream(&frame, 7);
    for strip in 0..8 {
        for led in 0..7 {
            assert_eq!(lane_byte(&out, strip, led, 0), frame[strip][led][1]);
            assert_eq!(lane_byte(&out, strip, led, 1), frame[strip][led][0]);
            assert_eq!(lane_byte(&out, strip, led, 2), frame[strip][led][2]);
        }
    }
}

#[test]
fn the_payload_of_an_update_comes_out_on_its_strip() {
    let strips = 5;
    let leds = 9;
    let payload: Vec<u8> = (0..strips * leds * 3).map(|i| (i * 37 + 11) as u8).collect();
    let mut frame = blank();
    FrameUpdate { strips, leds, payload: payload.clone() }.apply(&mut frame);
    let (_, out) = stream(&frame, leds);
    for s in 0..strips {
        for i in 0..leds {
            assert_eq!(lane_byte(&out, s, i, 0), payload[s * leds * 3 + i * 3 + 1]);
            assert_eq!(lane_byte(&out, s, i, 1), payload[s * leds * 3 + i * 3]);
            assert_eq!(lane_byte(&out, s, i, 2), payload[s * leds * 3 + i * 3 + 2]);
        }
    }
    for s in strips..8 {
        for i in 0..leds {
            for place in 0..3 {
                assert_eq!(lane_byte(&out, s, i, place), 0);
            }
        }
    }
}

#[test]
fn words_are_big_endian_and_come_in_wire_order() {
    let mut out = scratch();
    out[0] = 0x12;
    out[1] = 0x34;
    out[2] = 0x56;
    out[3] = 0x78;
    out[12_284] = 0xFF;
    out[12_287] = 0x01;
    assert_eq!(word_at(&out, 0), 0x1234_5678);
    assert_eq!(word_at(&out, 1), 0x3456_7800);
    assert_eq!(word_at(&out, 12_284), 0xFF00_0001);

    let mut frame = blank();
    frame[0][0] = [0x0F, 0xF0, 0x81];
    frame[7][1] = [0xFF, 0x00, 0x00];
    let (words, out) = stream(&frame, 2);
    assert_eq!(
        words,
        vec![
            0x0101_0101,
            0x0000_0000,
            0x0000_0000,
            0x0101_0101,
            0x0100_0000,
            0x0000_0001,
            0x0000_0000,
            0x0000_0000,
            0x8080_8080,
            0x8080_8080,
            0x0000_0000,
            0x0000_0000,
        ]
    );
    for (n, word) in words.iter().enumerate() {
        assert_eq!(word.to_be_bytes(), out[4 * n..4 * n + 4]);
    }
}

#[test]
fn the_feeder_hands_out_six_words_for_each_led() {
    let frame = blank();
    for leds in [0usize, 1, 2, 3, 17, 512] {
        let (words, _) = stream(&frame, leds);
        assert_eq!(words.len(), 6 * leds);
        assert_eq!(Feeder::new(leds).total(), 24 * leds);
    }
}

#[test]
fn the_feeder_sends_no_more_leds_than_a_strip_holds() {
    let mut frame = blank();
    frame[2][511] = [0, 0xFF, 0];
    let (words, out) = stream(&frame, 10_000);
    assert_eq!(words.len(), 6 * 512);
    assert_eq!(Feeder::new(10_000).total(), 12_288);
    assert_eq!(Feeder::new(usize::MAX).total(), 12_288);
    assert_eq!(&out[24 * 511..24 * 511 + 8], &[0x04; 8]);
    assert_eq!(words[6 * 511], 0x0404_0404);
}

#[test]
fn the_feeder_hands_out_only_what_is_encoded() {
    let mut frame = blank();
    frame[0][0] = [0xFF, 0xFF, 0xFF];
    let mut out = scratch();
    let mut feeder = Feeder::new(2);
    assert!(!feeder.finished());
    assert_eq!(feeder.next_word(&out), None);
    assert!(feeder.encode_next(&frame, &mut out));
    for _ in 0..6 {
        assert_eq!(feeder.next_word(&out), Some(0x0101_0101));
    }
    assert_eq!(feeder.next_word(&out), None);
    assert!(!feeder.finished());
    assert!(feeder.encode_next(&frame, &mut out));
    assert!(!feeder.encode_next(&frame, &mut out));
    assert!(!feeder.finished());
    for _ in 0..6 {
        assert_eq!(feeder.next_word(&out), Some(0));
    }
    assert_eq!(feeder.next_word(&out), None);
    assert!(feeder.finished());
}

#[test]
fn rows_beyond_the_active_strips_are_sent_as_they_are() {
    let mut frame = blank();
    frame[7][0] = [0xFF, 0xFF, 0xFF];
    FrameUpdate { strips: 1, leds: 1, payload: vec![0xFF, 0xFF, 0xFF] }.apply(&mut frame);
    let (words, _) = stream(&frame, 1);
    assert_eq!(words, vec![0x8181_8181; 6]);
}

#[test]
fn byte_counts_are_rounded_up_to_whole_words() {
    assert_eq!(word_aligned(0), 0);
    assert_eq!(word_aligned(1), 4);
    assert_eq!(word_aligned(2), 4);
    assert_eq!(word_aligned(3), 4);
    assert_eq!(word_aligned(4), 4);
    assert_eq!(word_aligned(5), 8);
    assert_eq!(word_aligned(24), 24);
    assert_eq!(word_aligned(12_288), 12_288);
}

#[test]
fn frame_words_are_the_words_of_the_feeder() {
    let mut frame = blank();
    let mut seed: u32 = 5;
    for strip in frame.iter_mut() {
        for led in strip.iter_mut() {
            for colour in led.iter_mut() {
                seed = seed.wrapping_mul(1_664_525).wrapping_add(1_013_904_223);
                *colour = (seed >> 24) as u8;
            }
        }
    }
    for leds in [0usize, 1, 5, 512, 600] {
        let mut out = scratch();
        let words = frame_words(&frame, leds, &mut out);
        let (expected, expected_out) = stream(&frame, leds);
        assert_eq!(words, expected);
        assert_eq!(words.len(), 6 * leds.min(512));
        assert_eq!(out[..], expected_out[..]);
    }
    let mut dark = blank();
    dark[1][0] = [0x00, 0x80, 0x00];
    let mut out = scratch();
    assert_eq!(frame_words(&dark, 1, &mut out), vec![0x0200_0000, 0, 0, 0, 0, 0]);
}
