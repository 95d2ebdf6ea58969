use serial_ws2812::encoder::{Feeder, Scratch};
use serial_ws2812::frame::blank;
use serial_ws2812::handoff::{Move, Rotation};
use serial_ws2812::host::{Exchange, Resync, SerialWs2812, Stage};
use serial_ws2812::config::Config;
use serial_ws2812::protocol::Protocol;
use serial_ws2812::wire::{Reply, SET_LEDS_MESSAGE, SET_STRIPS_MESSAGE, UPDATE_MESSAGE};

fn reply_bytes(protocol: &mut Protocol, packet: &[u8]) -> Vec<u8> {
    let outcome = protocol.on_packet(packet).unwrap();
    outcome.replies.iter().map(|r| r.byte()).collect()
}

#[test]
fn init_configure_and_show_three_strips_of_two_leds() {
    let mut protocol = Protocol::new();
    assert_eq!(reply_bytes(&mut protocol, &[0x00]), b"e");
    assert_eq!(reply_bytes(&mut protocol, b"strips\0\0"), b"p");
    assert_eq!(reply_bytes(&mut protocol, &[0x03, 0x00, 0x00, 0x00]), b"k");
    assert_eq!(reply_bytes(&mut protocol, b"leds\0\0\0\0"), b"p");
    assert_eq!(reply_bytes(&mut protocol, &[0x02, 0x00, 0x00, 0x00]), b"k");
    assert_eq!(reply_bytes(&mut protocol, b"update\0\0"), b"p");
    let payload = [
        0xFF, 0x00, 0x00, 0x00, 0xFF, 0x00, 0x00, 0x00, 0xFF, 0xFF, 0x00, 0x00, 0x00, 0xFF, 0x00,
        0x00, 0x00, 0xFF,
    ];
    let outcome = protocol.on_packet(&payload).unwrap();
    assert_eq!(outcome.replies, vec![Reply::Accepted]);
    let update = outcome.update.unwrap();
    assert_eq!((update.strips, update.leds), (3, 2));

    let mut rotation = Rotation::boot();
    let mut frame = blank();
    assert!(rotation.step(Move::Acquire));
    update.apply(&mut frame);
    assert!(rotation.step(Move::Submit { leds: update.leds }));

    let red = [0xFF, 0x00, 0x00];
    let green = [0x00, 0xFF, 0x00];
    let blue = [0x00, 0x00, 0xFF];
    assert_eq!((frame[0][0], frame[0][1]), (red, green));
    assert_eq!((frame[1][0], frame[1][1]), (blue, red));
    assert_eq!((frame[2][0], frame[2][1]), (green, blue));

    assert!(rotation.step(Move::Receive));
    let leds = update.leds;
    let mut out: Box<Scratch> = Box::new([0u8; 12_288]);
    let mut feeder = Feeder::new(leds);
    let mut words = Vec::new();
    while feeder.encode_next(&frame, &mut out) {
        while let Some(word) = feeder.next_word(&out) {
            words.push(word);
        }
    }
    assert!(rotation.step(Move::GiveBack));
    assert_eq!(rotation, Rotation::boot());
    assert_eq!(
        words,
        vec![
            0x0404_0404,
            0x0404_0404,
            0x0101_0101,
            0x0101_0101,
            0x0202_0202,
            0x0202_0202,
            0x0101_0101,
            0x0101_0101,
            0x0202_0202,
            0x0202_0202,
            0x0404_0404,
            0x0404_0404,
        ]
    );
}

#[test]
fn the_host_and_the_device_agree_on_a_session() {
    let mut device = Protocol::new();
    let mut to_host: Vec<u8> = Vec::new();
    let mut controller = SerialWs2812::new(Config { strips: 2, leds: 3 });
    let frame: Vec<u8> = (1..=18).collect();
    let plan = controller.send_leds(&frame);

    assert!(plan.resync);
    let mut resync = Resync::new();
    let mut done = false;
    for _ in 0..20 {
        if to_host.is_empty() {
            let nulls = resync.on_timeout();
            for r in device.on_packet(&vec![0u8; nulls]).unwrap().replies {
                to_host.push(r.byte());
            }
        } else {
            let received: Vec<u8> = to_host.drain(..).collect();
            if resync.on_read(&received) {
                done = true;
                break;
            }
        }
    }
    assert!(done);
    controller.resynced();

    let mut shown = Vec::new();
    for message in &plan.messages {
        let tag = message.command.tag();
        let mut exchange = Exchange::new(tag.len(), message.data.len());
        loop {
            match exchange.stage() {
                Stage::WriteTag => {
                    for r in device.on_packet(&tag).unwrap().replies {
                        to_host.push(r.byte());
                    }
                    exchange.advance(tag.len(), 0).unwrap();
                }
                Stage::WriteData => {
                    for chunk in message.data.chunks(64) {
                        let outcome = device.on_packet(chunk).unwrap();
                        for r in outcome.replies {
                            to_host.push(r.byte());
                        }
                        shown.extend(outcome.update);
                    }
                    exchange.advance(message.data.len(), 0).unwrap();
                }
                Stage::ReadPartial | Stage::ReadAccepted => {
                    let received: Vec<u8> = to_host.drain(..).collect();
                    let first = received.first().copied().unwrap_or(0);
                    exchange.advance(received.len(), first).unwrap();
                }
                Stage::Done => break,
            }
        }
    }
    assert_eq!(device.config(), Config { strips: 2, leds: 3 });
    assert_eq!(shown.len(), 1);
    assert_eq!(shown[0].payload, frame);
    assert_eq!((shown[0].strips, shown[0].leds), (2, 3));
    assert!(!controller.send_leds(&frame).resync);
}

#[test]
fn a_session_that_broke_off_in_a_payload_is_found_again() {
    let mut device = Protocol::new();
    device.on_packet(&SET_STRIPS_MESSAGE).unwrap();
    device.on_packet(&[8, 0, 0, 0]).unwrap();
    device.on_packet(&SET_LEDS_MESSAGE).unwrap();
    device.on_packet(&[6, 0, 0, 0]).unwrap();
    device.on_packet(&UPDATE_MESSAGE).unwrap();
    device.on_packet(&[0xAA; 50]).unwrap();

    let mut resync = Resync::new();
    let mut to_host: Vec<u8> = Vec::new();
    let mut timeouts = 0;
    let mut done = false;
    for _ in 0..100 {
        if to_host.is_empty() {
            timeouts += 1;
            let nulls = resync.on_timeout();
            for r in device.on_packet(&vec![0u8; nulls]).unwrap().replies {
                to_host.push(r.byte());
            }
        } else {
            let received: Vec<u8> = to_host.drain(..).collect();
            if resync.on_read(&received) {
                done = true;
                break;
            }
        }
    }
    assert!(done);
    assert!(timeouts >= 8);
    assert_eq!(device.pending(), None);
    assert_eq!(device.buffered(), 0);
    assert_eq!(reply_bytes(&mut device, b"strips\0\0"), b"p");
}

#[test]
fn bursts_of_null_bytes_bring_every_parser_back_to_idle() {
    let fresh = Protocol::new();
    let mut in_a_tag = Protocol::new();
    in_a_tag.on_packet(b"upda").unwrap();
    let mut before_a_number = Protocol::new();
    before_a_number.on_packet(&SET_LEDS_MESSAGE).unwrap();
    let mut in_a_frame = Protocol::new();
    in_a_frame.on_packet(&SET_STRIPS_MESSAGE).unwrap();
    in_a_frame.on_packet(&[8, 0, 0, 0]).unwrap();
    in_a_frame.on_packet(&UPDATE_MESSAGE).unwrap();
    in_a_frame.on_packet(&[1]).unwrap();

    for mut device in [fresh, in_a_tag, before_a_number, in_a_frame] {
        let mut bursts = 0;
        while device.buffered() != 0 || device.pending().is_some() {
            device.on_packet(&[0; 32]).unwrap();
            bursts += 1;
            assert!(bursts <= 385);
        }
        for _ in 0..3 {
            let outcome = device.on_packet(&[0; 32]).unwrap();
            assert_eq!(outcome.replies, vec![Reply::Rejected]);
            assert!(outcome.update.is_none());
            assert_eq!(device.buffered(), 0);
        }
    }
}
