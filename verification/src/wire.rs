//! Constants of the serial link: message tags, sizes and the identity of the device.

use vstd::prelude::*;

verus! {

/// Length of the tag that opens every message from the host.
pub const MESSAGE_TYPE_LEN: usize = 8;

/// Length of the number that follows a `strips` or `leds` tag.
pub const MESSAGE_NUM_LEN: usize = 4;

/// `update\0\0`: a frame of pixel data follows.
pub const UPDATE_MESSAGE: [u8; 8] = [0x75, 0x70, 0x64, 0x61, 0x74, 0x65, 0, 0];

/// `strips\0\0`: the number of active strips follows.
pub const SET_STRIPS_MESSAGE: [u8; 8] = [0x73, 0x74, 0x72, 0x69, 0x70, 0x73, 0, 0];

/// `leds\0\0\0\0`: the number of LEDs per strip follows.
pub const SET_LEDS_MESSAGE: [u8; 8] = [0x6c, 0x65, 0x64, 0x73, 0, 0, 0, 0];

/// The output stage always drives eight strips in parallel.
pub const MAX_STRIPS: usize = 8;

/// Longest strip that still leaves room for about sixty frames per second.
pub const MAX_LEDS_PER_STRIP: usize = 512;

/// Red, green and blue.
pub const BYTES_PER_LED: usize = 3;

/// Size of a frame with every strip at full length.
pub const MAX_BUFFER_SIZE: usize = BYTES_PER_LED * MAX_LEDS_PER_STRIP * MAX_STRIPS;

/// Largest packet the bulk endpoint delivers.
pub const PACKET_LEN: usize = 64;

/// Room for the longest message plus one packet of slack.
pub const INPUT_CAPACITY: usize = MESSAGE_TYPE_LEN + MAX_BUFFER_SIZE + PACKET_LEN;

/// Length of every reply of the device.
pub const DEVICE_MESSAGE_TYPE_LEN: usize = 1;

/// `i`: the device has just started.
pub const DEVICE_INIT_MESSAGE: [u8; 1] = [0x69];

/// `e`: unknown tag or value out of range.
pub const DEVICE_ERROR_MESSAGE: [u8; 1] = [0x65];

/// `p`: tag accepted, payload awaited.
pub const DEVICE_PARTIAL_MESSAGE: [u8; 1] = [0x70];

/// `k`: command complete.
pub const DEVICE_OK_MESSAGE: [u8; 1] = [0x6b];

/// USB vendor id, see <https://pid.codes/1209/F0F0/>.
pub const DEVICE_VENDOR_ID: u16 = 0x1209;

/// USB product id.
pub const DEVICE_PRODUCT_ID: u16 = 0xF0F0;

/// USB product string.
pub const DEVICE_PRODUCT_NAME: &'static str = "Serial WS2812";

/// USB manufacturer string.
pub const DEVICE_MANUFACTURER: &'static str = "hrmny.sh";

/// The single-byte replies of the device.
#[derive(Clone, Copy, Debug, PartialEq, Eq, Structural)]
pub enum Reply {
    /// `i`
    Init,
    /// `p`
    Partial,
    /// `k`
    Accepted,
    /// `e`
    Rejected,
}

impl Reply {
    /// The byte that stands for this reply on the wire.
    pub open spec fn wire_byte(self) -> u8 {
        match self {
            Reply::Init => DEVICE_INIT_MESSAGE[0],
            Reply::Partial => DEVICE_PARTIAL_MESSAGE[0],
            Reply::Accepted => DEVICE_OK_MESSAGE[0],
            Reply::Rejected => DEVICE_ERROR_MESSAGE[0],
        }
    }

    /// Encodes the reply.
    pub fn byte(self) -> (b: u8)
        ensures
            b == self.wire_byte(),
    {
        match self {
            Reply::Init => DEVICE_INIT_MESSAGE[0],
            Reply::Partial => DEVICE_PARTIAL_MESSAGE[0],
            Reply::Accepted => DEVICE_OK_MESSAGE[0],
            Reply::Rejected => DEVICE_ERROR_MESSAGE[0],
        }
    }

    /// Decodes a byte received from the device; `None` for a byte that is no reply.
    pub fn from_byte(b: u8) -> (r: Option<Reply>)
        ensures
            match r {
                Some(reply) => reply.wire_byte() == b,
                None => forall|reply: Reply| reply.wire_byte() != b,
            },
    {
        if b == DEVICE_INIT_MESSAGE[0] {
            Some(Reply::Init)
        } else if b == DEVICE_PARTIAL_MESSAGE[0] {
            Some(Reply::Partial)
        } else if b == DEVICE_OK_MESSAGE[0] {
            Some(Reply::Accepted)
        } else if b == DEVICE_ERROR_MESSAGE[0] {
            Some(Reply::Rejected)
        } else {
            None
        }
    }
}

/// The three commands of the host.
#[derive(Clone, Copy, Debug, PartialEq, Eq, Structural)]
pub enum Command {
    /// Show a frame.
    Update,
    /// Set the number of active strips.
    SetStrips,
    /// Set the number of LEDs per strip.
    SetLeds,
}

impl Command {
    /// The tag that announces this command.
    pub open spec fn spec_tag(self) -> Seq<u8> {
        match self {
            Command::Update => UPDATE_MESSAGE@,
            Command::SetStrips => SET_STRIPS_MESSAGE@,
            Command::SetLeds => SET_LEDS_MESSAGE@,
        }
    }

    /// Encodes the tag of this command.
    pub fn tag(self) -> (t: [u8; 8])
        ensures
            t@ == self.spec_tag(),
    {
        match self {
            Command::Update => UPDATE_MESSAGE,
            Command::SetStrips => SET_STRIPS_MESSAGE,
            Command::SetLeds => SET_LEDS_MESSAGE,
        }
    }
}

/// The command whose tag is `tag`, if it is one of the three.
pub open spec fn spec_parse_tag(tag: Seq<u8>) -> Option<Command> {
    if tag == UPDATE_MESSAGE@ {
        Some(Command::Update)
    } else if tag == SET_STRIPS_MESSAGE@ {
        Some(Command::SetStrips)
    } else if tag == SET_LEDS_MESSAGE@ {
        Some(Command::SetLeds)
    } else {
        None
    }
}

/// Whether the first eight bytes of `bytes` are exactly `tag`.
fn starts_with_tag(bytes: &[u8], tag: &[u8; 8]) -> (r: bool)
    requires
        bytes@.len() >= 8,
    ensures
        r == (bytes@.subrange(0, 8) == tag@),
{
    let mut k: usize = 0;
    while k < 8
        invariant
            0 <= k <= 8,
            bytes@.len() >= 8,
            forall|t: int| 0 <= t < k ==> bytes[t] == tag[t],
        decreases 8 - k,
    {
        if bytes[k] != tag[k] {
            assert(bytes@.subrange(0, 8)[k as int] != tag@[k as int]);
            return false;
        }
        k += 1;
    }
    assert(bytes@.subrange(0, 8) =~= tag@);
    true
}

/// Matches the first eight bytes of `bytes` against the three known tags.
/// Fewer than eight bytes are no tag.
pub fn parse_tag(bytes: &[u8]) -> (r: Option<Command>)
    ensures
        r == if bytes@.len() >= MESSAGE_TYPE_LEN {
            spec_parse_tag(bytes@.subrange(0, 8))
        } else {
            None
        },
{
    if bytes.len() < MESSAGE_TYPE_LEN {
        None
    } else if starts_with_tag(bytes, &UPDATE_MESSAGE) {
        Some(Command::Update)
    } else if starts_with_tag(bytes, &SET_STRIPS_MESSAGE) {
        Some(Command::SetStrips)
    } else if starts_with_tag(bytes, &SET_LEDS_MESSAGE) {
        Some(Command::SetLeds)
    } else {
        None
    }
}

/// The value of four bytes read as a little-endian number.
pub open spec fn spec_le_u32(b: Seq<u8>) -> int
    recommends
        b.len() == 4,
{
    b[0] + 256 * b[1] + 65536 * b[2] + 16777216 * b[3]
}

/// Reads the four bytes at `at` as a little-endian number.
pub fn le_u32(bytes: &[u8], at: usize) -> (n: u32)
    requires
        at + MESSAGE_NUM_LEN <= bytes@.len(),
    ensures
        n == spec_le_u32(bytes@.subrange(at as int, at + 4)),
{
    let b0 = bytes[at] as u32;
    let b1 = bytes[at + 1] as u32;
    let b2 = bytes[at + 2] as u32;
    let b3 = bytes[at + 3] as u32;
    b0 + 256 * b1 + 65536 * b2 + 16777216 * b3
}

/// Writes `n` as four little-endian bytes.
pub fn to_le_bytes(n: u32) -> (b: [u8; 4])
    ensures
        spec_le_u32(b@) == n,
{
    let b0 = (n % 256) as u8;
    let b1 = ((n / 256) % 256) as u8;
    let b2 = ((n / 65536) % 256) as u8;
    let b3 = (n / 16777216) as u8;
    [b0, b1, b2, b3]
}

} // verus!
