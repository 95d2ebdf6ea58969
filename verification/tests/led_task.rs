use serial_ws2812::led_task::{
    frame_time_us, reset_wait, LedClock, DRAIN_POLL_US, LED_TIME_US, RESET_DURATION_US,
};

#[test]
fn the_reset_gap_is_280_microseconds() {
    assert_eq!(RESET_DURATION_US, 280);
    assert_eq!(DRAIN_POLL_US, 5);
    assert_eq!(LED_TIME_US, 30);
}

#[test]
fn a_frame_right_after_the_last_one_waits_for_the_rest_of_the_gap() {
    assert_eq!(reset_wait(1_000, 1_000), 280);
    assert_eq!(reset_wait(1_000, 1_001), 279);
    assert_eq!(reset_wait(1_000, 1_100), 180);
    assert_eq!(reset_wait(1_000, 1_279), 1);
}

#[test]
fn a_late_frame_does_not_wait() {
    assert_eq!(reset_wait(1_000, 1_280), 0);
    assert_eq!(reset_wait(1_000, 1_281), 0);
    assert_eq!(reset_wait(0, u64::MAX), 0);
    assert_eq!(reset_wait(u64::MAX, u64::MAX), 280);
}

#[test]
fn the_gap_is_kept_for_every_arrival() {
    for elapsed in 0..600u64 {
        let wait = reset_wait(5_000, 5_000 + elapsed);
        assert!(elapsed + wait >= 280);
        assert!(wait == 0 || elapsed + wait == 280);
    }
}

#[test]
fn two_frames_back_to_back_are_280_microseconds_apart() {
    let start = 10_000;
    let mut clock = LedClock::new(start);
    let first_arrives = start + 1_000;
    assert_eq!(clock.wait_before_frame(first_arrives), 0);
    let first_ends = first_arrives + frame_time_us(512) + 40;
    clock.transmission_ended(first_ends);
    let second_arrives = first_ends + 3;
    let wait = clock.wait_before_frame(second_arrives);
    assert_eq!(wait, 277);
    let second_starts = second_arrives + wait;
    assert!(second_starts - first_ends >= 280);
    assert_eq!(second_starts - first_ends, 280);
}

#[test]
fn the_gap_counts_from_the_start_of_the_task() {
    let clock = LedClock::new(500);
    assert_eq!(clock.wait_before_frame(500), 280);
    assert_eq!(clock.wait_before_frame(700), 80);
    assert_eq!(clock.wait_before_frame(780), 0);
}

#[test]
fn a_full_frame_takes_about_fifteen_milliseconds() {
    assert_eq!(frame_time_us(0), 0);
    assert_eq!(frame_time_us(1), 30);
    assert_eq!(frame_time_us(512), 15_360);
}

#[test]
fn the_clock_remembers_the_end_of_the_last_transmission() {
    let mut clock = LedClock::new(12);
    assert_eq!(clock.last_write(), 12);
    clock.transmission_ended(9_000);
    assert_eq!(clock.last_write(), 9_000);
    assert_eq!(clock.wait_before_frame(9_000), 280);
}
