use serial_ws2812::identity::{
    device_id, hex_digit, serial_number, usb_descriptor, FLASH_ID_BYTES, FLASH_JEDEC_BYTES,
    ID_BYTES, SERIAL_LEN,
};

#[test]
fn the_id_is_the_jedec_id_and_then_the_unique_id() {
    let jedec = [0xEF, 0x40, 0x15, 0x00];
    let unique = [1, 2, 3, 4, 5, 6, 7, 8, 9, 10, 11, 12, 13, 14, 15, 16];
    assert_eq!(
        device_id(&jedec, &unique),
        [0xEF, 0x40, 0x15, 0x00, 1, 2, 3, 4, 5, 6, 7, 8, 9, 10, 11, 12, 13, 14, 15, 16]
    );
    assert_eq!(FLASH_JEDEC_BYTES, 4);
    assert_eq!(FLASH_ID_BYTES, 16);
    assert_eq!(ID_BYTES, 20);
    assert_eq!(SERIAL_LEN, 40);
}

#[test]
fn hex_digits_are_upper_case() {
    let digits: Vec<u8> = (0..16).map(hex_digit).collect();
    assert_eq!(digits, b"0123456789ABCDEF");
    assert_eq!(hex_digit(0x1A), b'A');
    assert_eq!(hex_digit(0xF0), b'0');
}

#[test]
fn the_serial_number_spells_the_id_in_hex() {
    let id = [
        0xEF, 0x40, 0x15, 0x00, 0xE6, 0x60, 0x58, 0x38, 0x83, 0x4A, 0x9B, 0x2F, 0x00, 0xFF, 0x10,
        0x01, 0xAB, 0xCD, 0x0A, 0xA0,
    ];
    let serial = serial_number(&id);
    assert_eq!(&serial, b"EF401500E6605838834A9B2F00FF1001ABCD0AA0");
    assert_eq!(std::str::from_utf8(&serial).unwrap().len(), 40);
    assert_eq!(&serial_number(&[0; 20]), &[b'0'; 40]);
    assert_eq!(&serial_number(&[0xFF; 20]), &[b'F'; 40]);
}

#[test]
fn the_descriptor_of_the_device() {
    let d = usb_descriptor();
    assert_eq!(d.vendor_id, 0x1209);
    assert_eq!(d.product_id, 0xF0F0);
    assert_eq!(d.manufacturer, "hrmny.sh");
    assert_eq!(d.product, "Serial WS2812");
    assert_eq!(d.max_power, 100);
    assert_eq!(d.max_packet_size_0, 64);
    assert_eq!(d.device_class, 0xEF);
    assert_eq!(d.device_sub_class, 0x02);
    assert_eq!(d.device_protocol, 0x01);
    assert!(d.composite_with_iads);
}
