//! What the device tells the bus about itself.

use vstd::prelude::*;
use crate::wire::{
    DEVICE_MANUFACTURER, DEVICE_PRODUCT_ID, DEVICE_PRODUCT_NAME, DEVICE_VENDOR_ID, PACKET_LEN,
};

verus! {

/// Length of the JEDEC id of the flash chip.
pub const FLASH_JEDEC_BYTES: usize = 4;

/// Length of the unique id of the flash chip.
pub const FLASH_ID_BYTES: usize = 16;

/// Length of the device id: JEDEC id, then unique id.
pub const ID_BYTES: usize = FLASH_JEDEC_BYTES + FLASH_ID_BYTES;

/// Length of the serial number: two characters for each byte of the id.
pub const SERIAL_LEN: usize = ID_BYTES * 2;

/// The upper-case hexadecimal digit for the low four bits of `nibble`.
pub open spec fn spec_hex_digit(nibble: u8) -> u8 {
    if nibble % 16 < 10 {
        (0x30 + nibble % 16) as u8
    } else {
        (0x41 + nibble % 16 - 10) as u8
    }
}

/// `c` is one of `0`..`9`, `A`..`F`.
pub open spec fn is_upper_hex(c: u8) -> bool {
    0x30 <= c <= 0x39 || 0x41 <= c <= 0x46
}

/// `text` spells out `id` in upper-case hexadecimal, high nibble first.
pub open spec fn spells(text: Seq<u8>, id: Seq<u8>) -> bool {
    &&& text.len() == 2 * id.len()
    &&& forall|i: int|
        #![trigger id[i]]
        0 <= i < id.len() ==> text[2 * i] == spec_hex_digit(id[i] / 16) && text[2 * i + 1]
            == spec_hex_digit(id[i] % 16)
}

/// Computes the upper-case hexadecimal digit for the low four bits of `nibble`.
pub fn hex_digit(nibble: u8) -> (c: u8)
    ensures
        c == spec_hex_digit(nibble),
        is_upper_hex(c),
{
    let low = nibble % 16;
    if low < 10 {
        low + 0x30
    } else {
        low - 10 + 0x41
    }
}

/// Joins the JEDEC id and the unique id of the flash chip into the device id.
pub fn device_id(jedec: &[u8; 4], unique: &[u8; 16]) -> (id: [u8; 20])
    ensures
        id@ == jedec@ + unique@,
{
    let mut id = [0u8; 20];
    let mut i: usize = 0;
    while i < 4
        invariant
            0 <= i <= 4,
            forall|k: int| 0 <= k < i ==> id[k] == jedec[k],
        decreases 4 - i,
    {
        id[i] = jedec[i];
        i += 1;
    }
    let mut j: usize = 0;
    while j < 16
        invariant
            0 <= j <= 16,
            forall|k: int| 0 <= k < 4 ==> id[k] == jedec[k],
            forall|k: int| 0 <= k < j ==> id[4 + k] == unique[k],
        decreases 16 - j,
    {
        id[4 + j] = unique[j];
        j += 1;
    }
    assert(id@ =~= jedec@ + unique@);
    id
}

/// Renders the device id as the forty characters of the USB serial number.
pub fn serial_number(id: &[u8; 20]) -> (serial: [u8; 40])
    ensures
        spells(serial@, id@),
        forall|k: int| 0 <= k < 40 ==> is_upper_hex(#[trigger] serial[k]),
{
    let mut serial = [0x30u8; 40];
    let mut i: usize = 0;
    while i < 20
        invariant
            0 <= i <= 20,
            forall|k: int|
                #![trigger id[k]]
                0 <= k < i ==> serial[2 * k] == spec_hex_digit(id[k] / 16) && serial[2 * k + 1]
                    == spec_hex_digit(id[k] % 16),
            forall|k: int| 0 <= k < 40 ==> is_upper_hex(#[trigger] serial[k]),
        decreases 20 - i,
    {
        let byte = id[i];
        serial[2 * i] = hex_digit(byte / 16);
        serial[2 * i + 1] = hex_digit(byte % 16);
        i += 1;
    }
    serial
}

/// The fields of the USB device descriptor that this device sets.
#[derive(Clone, Copy, Debug)]
pub struct UsbDescriptor {
    pub vendor_id: u16,
    pub product_id: u16,
    pub manufacturer: &'static str,
    pub product: &'static str,
    /// In milliamperes.
    pub max_power: u16,
    pub max_packet_size_0: u8,
    pub device_class: u8,
    pub device_sub_class: u8,
    pub device_protocol: u8,
    pub composite_with_iads: bool,
}

/// The descriptor of the device: a miscellaneous-class composite device with
/// interface association descriptors, which some hosts need to bind a serial
/// driver.
pub fn usb_descriptor() -> (d: UsbDescriptor)
    ensures
        d.vendor_id == DEVICE_VENDOR_ID,
        d.product_id == DEVICE_PRODUCT_ID,
        d.manufacturer == DEVICE_MANUFACTURER,
        d.product == DEVICE_PRODUCT_NAME,
        d.max_power == 100,
        d.max_packet_size_0 == PACKET_LEN,
        d.device_class == 0xEF,
        d.device_sub_class == 0x02,
        d.device_protocol == 0x01,
        d.composite_with_iads,
{
    UsbDescriptor {
        vendor_id: DEVICE_VENDOR_ID,
        product_id: DEVICE_PRODUCT_ID,
        manufacturer: DEVICE_MANUFACTURER,
        product: DEVICE_PRODUCT_NAME,
        max_power: 100,
        max_packet_size_0: 64,
        device_class: 0xEF,
        device_sub_class: 0x02,
        device_protocol: 0x01,
        composite_with_iads: true,
    }
}

} // verus!
