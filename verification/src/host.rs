//! The host side of the link, without the port: what to send, what to expect,
//! and what to make of what came back.
//!
//! The caller owns the serial port. It performs each transfer that the types
//! of this module ask for and reports how the transfer went.

use vstd::prelude::*;
use crate::config::Config;
use crate::wire::{
    spec_le_u32, to_le_bytes, Command, Reply, DEVICE_ERROR_MESSAGE, DEVICE_INIT_MESSAGE,
    DEVICE_PRODUCT_ID, DEVICE_VENDOR_ID,
};

verus! {

/// Speed of the serial link.
pub const BAUD_RATE: u32 = 921_600;

/// Read timeout while commands are exchanged, in milliseconds.
pub const COMMAND_TIMEOUT_MS: u64 = 50;

/// Read timeout while looking for the start of a command, in milliseconds.
pub const RESYNC_TIMEOUT_MS: u64 = 10;

/// Number of bytes asked for by each read while looking for the start of a command.
pub const RESYNC_READ_LEN: usize = 4;

/// Number of the timeout from which on a burst is written in place of a
/// single null byte.
pub const BURST_AFTER: u8 = 8;

/// Number of null bytes in a burst: enough to complete a number that the
/// device may be waiting for, and then to fill a tag.
pub const BURST_LEN: usize = 32;

/// What can go wrong in an exchange with the device.
#[derive(Clone, Copy, Debug, PartialEq, Eq, Structural)]
pub enum Error {
    /// No device with the expected identity is attached.
    DeviceNotFound,
    /// The device answered with another byte than the one that was due.
    UnexpectedResponse { expected: u8, received: u8 },
    /// The device did not answer with exactly one byte.
    NoResponse,
    /// The port took fewer bytes than the message has.
    IncompleteWrite,
}

/// The USB identity of a serial port.
#[derive(Clone, Copy, Debug, PartialEq, Eq, Structural)]
pub struct UsbId {
    pub vid: u16,
    pub pid: u16,
}

impl UsbId {
    /// The port carries the vendor id or the product id of the device.
    pub open spec fn is_device(self) -> bool {
        self.vid == DEVICE_VENDOR_ID || self.pid == DEVICE_PRODUCT_ID
    }
}

/// The product string of the device, byte by byte.
pub const PRODUCT_NAME_BYTES: [u8; 13] = [
    0x53, 0x65, 0x72, 0x69, 0x61, 0x6c, 0x20, 0x57, 0x53, 0x32, 0x38, 0x31, 0x32,
];

/// `product` is the product string of the device, as it is or with an
/// underscore in place of the space, as some systems report it.
pub open spec fn names_device(product: Seq<u8>) -> bool {
    &&& product.len() == PRODUCT_NAME_BYTES@.len()
    &&& forall|i: int|
        0 <= i < product.len() ==> product[i] == PRODUCT_NAME_BYTES[i] || (PRODUCT_NAME_BYTES[i]
            == 0x20 && #[trigger] product[i] == 0x5f)
}

/// Whether entry `i` of `products` is a product string of the device.
pub open spec fn is_named_candidate(products: Seq<Option<Vec<u8>>>, i: int) -> bool {
    &&& 0 <= i < products.len()
    &&& products[i] matches Some(name)
    &&& names_device(name@)
}

/// Tells whether a product string is that of the device.
pub fn is_product_name(product: &[u8]) -> (r: bool)
    ensures
        r == names_device(product@),
{
    if product.len() != PRODUCT_NAME_BYTES.len() {
        return false;
    }
    let mut i: usize = 0;
    while i < product.len()
        invariant
            0 <= i <= product@.len(),
            product@.len() == PRODUCT_NAME_BYTES@.len(),
            forall|j: int|
                0 <= j < i ==> product[j] == PRODUCT_NAME_BYTES[j] || (PRODUCT_NAME_BYTES[j] == 0x20
                    && #[trigger] product[j] == 0x5f),
        decreases product@.len() - i,
    {
        if !(product[i] == PRODUCT_NAME_BYTES[i] || (PRODUCT_NAME_BYTES[i] == 0x20 && product[i]
            == 0x5f)) {
            return false;
        }
        i += 1;
    }
    true
}

/// Whether entry `i` of `ports` is a USB port with the identity of the device.
pub open spec fn is_candidate(ports: Seq<Option<UsbId>>, i: int) -> bool {
    &&& 0 <= i < ports.len()
    &&& ports[i] matches Some(id)
    &&& id.is_device()
}

/// The search for the start of a command after the port was opened.
///
/// The caller reads up to [`RESYNC_READ_LEN`] bytes with a timeout of
/// [`RESYNC_TIMEOUT_MS`]. After a timeout it writes as many null bytes as
/// [`Resync::on_timeout`] says; after a read it asks [`Resync::on_read`]
/// whether the search is over.
pub struct Resync {
    timeouts: u8,
}

impl View for Resync {
    type V = int;

    /// Number of timeouts since the last read of more than one byte, counted
    /// up to [`BURST_AFTER`].
    closed spec fn view(&self) -> int {
        self.timeouts as int
    }
}

impl Resync {
    /// The counter never passes [`BURST_AFTER`].
    pub open spec fn wf(&self) -> bool {
        0 <= self@ <= BURST_AFTER
    }

    /// A search that has seen no timeout yet.
    pub fn new() -> (r: Resync)
        ensures
            r@ == 0,
            r.wf(),
    {
        Resync { timeouts: 0 }
    }

    /// A read timed out: says how many null bytes to write. The first seven
    /// timeouts in a row take one byte each, every later one a burst.
    pub fn on_timeout(&mut self) -> (nulls: usize)
        requires
            old(self).wf(),
        ensures
            final(self).wf(),
            final(self)@ == if old(self)@ < BURST_AFTER {
                old(self)@ + 1
            } else {
                old(self)@
            },
            nulls == if final(self)@ < BURST_AFTER {
                1usize
            } else {
                BURST_LEN
            },
    {
        if self.timeouts < BURST_AFTER {
            self.timeouts += 1;
        }
        if self.timeouts < BURST_AFTER {
            1
        } else {
            BURST_LEN
        }
    }

    /// A read returned `received`: says whether the device stands at the
    /// start of a command, which is so when it sent the single byte `i` or
    /// `e`. More than one byte restarts the count of timeouts.
    pub fn on_read(&mut self, received: &[u8]) -> (done: bool)
        requires
            old(self).wf(),
        ensures
            final(self).wf(),
            done == (received@.len() == 1 && (received@[0] == DEVICE_INIT_MESSAGE[0]
                || received@[0] == DEVICE_ERROR_MESSAGE[0])),
            final(self)@ == if received@.len() > 1 {
                0
            } else {
                old(self)@
            },
    {
        if received.len() > 1 {
            self.timeouts = 0;
            return false;
        }
        received.len() == 1 && (received[0] == DEVICE_INIT_MESSAGE[0] || received[0]
            == DEVICE_ERROR_MESSAGE[0])
    }
}

/// The four transfers of one command, and the end.
#[derive(Clone, Copy, Debug, PartialEq, Eq, Structural)]
pub enum Stage {
    /// Write the tag.
    WriteTag,
    /// Read one byte, which must be `p`.
    ReadPartial,
    /// Write the payload.
    WriteData,
    /// Read one byte, which must be `k`.
    ReadAccepted,
    /// Nothing is left to do.
    Done,
}

/// Judges a write of `count` bytes of a message of `len` bytes.
pub open spec fn written_verdict(count: usize, len: usize) -> Option<Error> {
    if count != len {
        Some(Error::IncompleteWrite)
    } else {
        None
    }
}

/// Judges a read that returned `count` bytes, the first of them `byte`, where
/// the reply `expected` was due.
pub open spec fn reply_verdict(expected: Reply, count: usize, byte: u8) -> Option<Error> {
    if count != 1 {
        Some(Error::NoResponse)
    } else if byte != expected.wire_byte() {
        Some(Error::UnexpectedResponse { expected: expected.wire_byte(), received: byte })
    } else {
        None
    }
}

/// The stage after `stage`, with what could stop it: a transfer of `count`
/// bytes was made, and `byte` is the first byte read if it was a read.
pub open spec fn spec_advance(
    stage: Stage,
    tag_len: usize,
    data_len: usize,
    count: usize,
    byte: u8,
) -> Result<Stage, Error> {
    match stage {
        Stage::WriteTag => match written_verdict(count, tag_len) {
            Some(e) => Err(e),
            None => Ok(Stage::ReadPartial),
        },
        Stage::ReadPartial => match reply_verdict(Reply::Partial, count, byte) {
            Some(e) => Err(e),
            None => Ok(Stage::WriteData),
        },
        Stage::WriteData => match written_verdict(count, data_len) {
            Some(e) => Err(e),
            None => Ok(Stage::ReadAccepted),
        },
        Stage::ReadAccepted => match reply_verdict(Reply::Accepted, count, byte) {
            Some(e) => Err(e),
            None => Ok(Stage::Done),
        },
        Stage::Done => Ok(Stage::Done),
    }
}

/// Checks a write.
pub fn check_written(count: usize, len: usize) -> (r: Result<(), Error>)
    ensures
        match r {
            Ok(_) => written_verdict(count, len) is None,
            Err(e) => written_verdict(count, len) == Some(e),
        },
{
    if count != len {
        Err(Error::IncompleteWrite)
    } else {
        Ok(())
    }
}

/// Checks a reply.
pub fn check_reply(expected: Reply, count: usize, byte: u8) -> (r: Result<(), Error>)
    ensures
        match r {
            Ok(_) => reply_verdict(expected, count, byte) is None,
            Err(e) => reply_verdict(expected, count, byte) == Some(e),
        },
{
    if count != 1 {
        Err(Error::NoResponse)
    } else if byte != expected.byte() {
        Err(Error::UnexpectedResponse { expected: expected.byte(), received: byte })
    } else {
        Ok(())
    }
}

/// One message to the device.
#[derive(Debug, PartialEq, Eq)]
pub struct Message {
    pub command: Command,
    pub data: Vec<u8>,
}

/// The exchange of one command: tag out, `p` back, payload out, `k` back.
/// Any other course ends the exchange with an error.
pub struct Exchange {
    stage: Stage,
    tag_len: usize,
    data_len: usize,
}

/// An [`Exchange`] as plain values.
pub struct ExchangeView {
    pub stage: Stage,
    pub tag_len: usize,
    pub data_len: usize,
}

impl View for Exchange {
    type V = ExchangeView;

    closed spec fn view(&self) -> ExchangeView {
        ExchangeView { stage: self.stage, tag_len: self.tag_len, data_len: self.data_len }
    }
}

impl Exchange {
    /// The exchange of a message with a tag of `tag_len` and a payload of
    /// `data_len` bytes, before its first transfer.
    pub fn new(tag_len: usize, data_len: usize) -> (x: Exchange)
        ensures
            x@ == (ExchangeView { stage: Stage::WriteTag, tag_len, data_len }),
    {
        Exchange { stage: Stage::WriteTag, tag_len, data_len }
    }

    /// The transfer that is due.
    pub fn stage(&self) -> (s: Stage)
        ensures
            s == self@.stage,
    {
        self.stage
    }

    /// Takes the result of the transfer that was due: `count` bytes moved,
    /// and `byte` was the first one if the transfer was a read. Moves on to
    /// the next stage, or fails and stays.
    pub fn advance(&mut self, count: usize, byte: u8) -> (r: Result<Stage, Error>)
        ensures
            r == spec_advance(old(self)@.stage, old(self)@.tag_len, old(self)@.data_len, count, byte),
            final(self)@.tag_len == old(self)@.tag_len,
            final(self)@.data_len == old(self)@.data_len,
            final(self)@.stage == match r {
                Ok(next) => next,
                Err(_) => old(self)@.stage,
            },
    {
        let verdict = match self.stage {
            Stage::WriteTag => check_written(count, self.tag_len),
            Stage::ReadPartial => check_reply(Reply::Partial, count, byte),
            Stage::WriteData => check_written(count, self.data_len),
            Stage::ReadAccepted => check_reply(Reply::Accepted, count, byte),
            Stage::Done => Ok(()),
        };
        match verdict {
            Err(e) => Err(e),
            Ok(_) => {
                let next = match self.stage {
                    Stage::WriteTag => Stage::ReadPartial,
                    Stage::ReadPartial => Stage::WriteData,
                    Stage::WriteData => Stage::ReadAccepted,
                    Stage::ReadAccepted => Stage::Done,
                    Stage::Done => Stage::Done,
                };
                self.stage = next;
                Ok(next)
            },
        }
    }
}

/// What the controller asks its caller to do on the wire.
#[derive(Debug, PartialEq, Eq)]
pub struct Plan {
    /// Look for the start of a command first, and report success with
    /// [`SerialWs2812::resynced`].
    pub resync: bool,
    /// The messages to exchange after that, in order.
    pub messages: Vec<Message>,
}

/// The number that a `strips` or `leds` message carries for `n`.
pub open spec fn wire_number(n: usize) -> u32 {
    n as u32
}

/// `m` sets the number `n` with the command `command`.
pub open spec fn is_number_message(m: Message, command: Command, n: usize) -> bool {
    &&& m.command == command
    &&& m.data@.len() == 4
    &&& spec_le_u32(m.data@) == wire_number(n)
}

/// `messages` holds the two messages that configure the device: first the
/// number of strips, then the number of LEDs.
pub open spec fn configures(messages: Seq<Message>, config: Config) -> bool {
    &&& messages.len() == 2
    &&& is_number_message(messages[0], Command::SetStrips, config.strips)
    &&& is_number_message(messages[1], Command::SetLeds, config.leds)
}

/// The controller of one device.
pub struct SerialWs2812 {
    config: Config,
    initialized: bool,
}

/// A [`SerialWs2812`] as plain values.
pub struct ControllerView {
    pub config: Config,
    /// The start of a command has been found on this port.
    pub initialized: bool,
}

impl View for SerialWs2812 {
    type V = ControllerView;

    closed spec fn view(&self) -> ControllerView {
        ControllerView { config: self.config, initialized: self.initialized }
    }
}

fn number_message(command: Command, n: usize) -> (m: Message)
    ensures
        is_number_message(m, command, n),
{
    let bytes = to_le_bytes(#[verifier::truncate] (n as u32));
    let mut data: Vec<u8> = Vec::new();
    data.push(bytes[0]);
    data.push(bytes[1]);
    data.push(bytes[2]);
    data.push(bytes[3]);
    assert(data@ =~= bytes@);
    Message { command, data }
}

impl SerialWs2812 {
    /// A controller for a port that was just opened.
    pub fn new(config: Config) -> (c: SerialWs2812)
        ensures
            c@ == (ControllerView { config, initialized: false }),
    {
        SerialWs2812 { config, initialized: false }
    }

    /// Picks the device among the serial ports of the machine, given in
    /// the order in which the system lists them, `None` standing for a port
    /// that is not on USB. Of several candidates the last one is taken.
    pub fn find(ports: &[Option<UsbId>]) -> (found: Option<usize>)
        ensures
            match found {
                Some(i) => is_candidate(ports@, i as int) && forall|j: int|
                    i < j < ports@.len() ==> !is_candidate(ports@, j),
                None => forall|j: int| 0 <= j < ports@.len() ==> !is_candidate(ports@, j),
            },
    {
        let mut found: Option<usize> = None;
        let mut i: usize = 0;
        while i < ports.len()
            invariant
                0 <= i <= ports@.len(),
                match found {
                    Some(f) => f < i && is_candidate(ports@, f as int) && forall|j: int|
                        f < j < i ==> !is_candidate(ports@, j),
                    None => forall|j: int| 0 <= j < i ==> !is_candidate(ports@, j),
                },
            decreases ports@.len() - i,
        {
            match ports[i] {
                Some(id) => {
                    if id.vid == DEVICE_VENDOR_ID || id.pid == DEVICE_PRODUCT_ID {
                        found = Some(i);
                    }
                },
                None => {},
            }
            i += 1;
        }
        found
    }

    /// Picks the device by the product string of each serial port,
    /// `None` standing for a port without one. Of several candidates the
    /// last one is taken.
    pub fn find_by_product(products: &[Option<Vec<u8>>]) -> (found: Option<usize>)
        ensures
            match found {
                Some(i) => is_named_candidate(products@, i as int) && forall|j: int|
                    i < j < products@.len() ==> !is_named_candidate(products@, j),
                None => forall|j: int| 0 <= j < products@.len() ==> !is_named_candidate(products@, j),
            },
    {
        let mut found: Option<usize> = None;
        let mut i: usize = 0;
        while i < products.len()
            invariant
                0 <= i <= products@.len(),
                match found {
                    Some(f) => f < i && is_named_candidate(products@, f as int) && forall|j: int|
                        f < j < i ==> !is_named_candidate(products@, j),
                    None => forall|j: int| 0 <= j < i ==> !is_named_candidate(products@, j),
                },
            decreases products@.len() - i,
        {
            match &products[i] {
                Some(name) => {
                    if is_product_name(name.as_slice()) {
                        found = Some(i);
                    }
                },
                None => {},
            }
            i += 1;
        }
        found
    }

    /// The configuration that the controller was given last.
    pub fn config(&self) -> (c: Config)
        ensures
            c == self@.config,
    {
        self.config
    }

    /// Whether the start of a command has been found on this port.
    pub fn initialized(&self) -> (b: bool)
        ensures
            b == self@.initialized,
    {
        self.initialized
    }

    /// Records that the search for the start of a command has succeeded.
    pub fn resynced(&mut self)
        ensures
            final(self)@ == (ControllerView { config: old(self)@.config, initialized: true }),
    {
        self.initialized = true;
    }

    /// Takes a new configuration and plans how to send it, as
    /// [`SerialWs2812::configure`] does.
    pub fn set_config(&mut self, config: Config) -> (plan: Plan)
        ensures
            final(self)@ == (ControllerView { config, initialized: old(self)@.initialized }),
            plan.resync == !old(self)@.initialized,
            configures(plan.messages@, config),
    {
        self.config = config;
        self.configure()
    }

    /// Plans how to send the configuration: after a search for the start of
    /// a command, if none was made on this port yet, the number of strips and
    /// the number of LEDs.
    pub fn configure(&self) -> (plan: Plan)
        ensures
            plan.resync == !self@.initialized,
            configures(plan.messages@, self@.config),
    {
        let mut messages: Vec<Message> = Vec::new();
        messages.push(number_message(Command::SetStrips, self.config.strips));
        messages.push(number_message(Command::SetLeds, self.config.leds));
        Plan { resync: !self.initialized, messages }
    }

    /// Plans how to send one frame: the configuration first, if the port is
    /// new, then an `update` with `leds` as its payload. The frame is shown
    /// in full only if `leds` holds three bytes for every LED of every strip
    /// of the configuration.
    pub fn send_leds(&self, leds: &[u8]) -> (plan: Plan)
        ensures
            plan.resync == !self@.initialized,
            plan.messages@.len() == if self@.initialized {
                1nat
            } else {
                3nat
            },
            !self@.initialized ==> configures(plan.messages@.subrange(0, 2), self@.config),
            plan.messages@.last().command == Command::Update,
            plan.messages@.last().data@ == leds@,
    {
        let mut plan = if !self.initialized {
            self.configure()
        } else {
            Plan { resync: false, messages: Vec::new() }
        };
        let ghost before = plan.messages@;
        plan.messages.push(Message { command: Command::Update, data: vstd::slice::slice_to_vec(leds) });
        assert(!self@.initialized ==> plan.messages@.subrange(0, 2) =~= before);
        plan
    }
}

} // verus!
