//! The command parser of the device: packets in, replies and frames out.
//!
//! The parser owns the input buffer and the active configuration. It never
//! touches the endpoint itself: the caller hands over each packet that arrived
//! and sends the replies that come back.

use vstd::prelude::*;
use vstd::slice::{slice_subrange, slice_to_vec};
use crate::config::Config;
use crate::frame::{FrameUpdate, UpdateView};
use crate::wire::{
    le_u32, parse_tag, spec_le_u32, spec_parse_tag, Command, Reply, INPUT_CAPACITY,
    MAX_LEDS_PER_STRIP, MAX_STRIPS, MESSAGE_NUM_LEN, MESSAGE_TYPE_LEN,
};

verus! {

/// What the parser remembers between two packets.
pub struct State {
    /// Bytes received since the last message ended.
    pub input: Seq<u8>,
    /// The command whose tag was accepted and whose payload is still incomplete.
    pub pending: Option<Command>,
    /// The active configuration.
    pub config: Config,
}

/// What one packet leads to.
pub struct Reaction {
    /// The parser afterwards.
    pub state: State,
    /// The replies to send, in order.
    pub replies: Seq<Reply>,
    /// The frame to show, if the packet completed an `update`.
    pub update: Option<UpdateView>,
}

/// Number of payload bytes that `cmd` takes under `config`.
pub open spec fn payload_len(cmd: Command, config: Config) -> int {
    match cmd {
        Command::Update => config.frame_len(),
        Command::SetStrips => MESSAGE_NUM_LEN as int,
        Command::SetLeds => MESSAGE_NUM_LEN as int,
    }
}

impl State {
    /// Nothing buffered, nothing pending.
    pub open spec fn idle(config: Config) -> State {
        State { input: Seq::empty(), pending: None, config }
    }

    /// The configuration is in range, a tag is pending exactly when eight bytes
    /// or more are buffered, and a pending payload is still incomplete.
    pub open spec fn wf(self) -> bool {
        &&& self.config.in_range()
        &&& match self.pending {
            None => self.input.len() < MESSAGE_TYPE_LEN,
            Some(cmd) => MESSAGE_TYPE_LEN <= self.input.len() < MESSAGE_TYPE_LEN + payload_len(
                cmd,
                self.config,
            ),
        }
    }
}

/// A lone null byte that reaches a parser with nothing buffered and nothing
/// pending: the host is probing for the start of a command.
pub open spec fn is_probe(pre: State, packet: Seq<u8>) -> bool {
    pre.pending is None && pre.input.len() == 0 && packet == seq![0u8]
}

/// The effect of `cmd` once its whole payload is in `message`, which starts
/// with the tag. The parser is idle afterwards whatever the verdict.
pub open spec fn complete(cmd: Command, message: Seq<u8>, config: Config) -> Reaction {
    match cmd {
        Command::SetStrips => {
            let n = spec_le_u32(message.subrange(8, 12));
            if n > MAX_STRIPS {
                Reaction { state: State::idle(config), replies: seq![Reply::Rejected], update: None }
            } else {
                Reaction {
                    state: State::idle(Config { strips: n as usize, leds: config.leds }),
                    replies: seq![Reply::Accepted],
                    update: None,
                }
            }
        },
        Command::SetLeds => {
            let n = spec_le_u32(message.subrange(8, 12));
            if n > MAX_LEDS_PER_STRIP {
                Reaction { state: State::idle(config), replies: seq![Reply::Rejected], update: None }
            } else {
                Reaction {
                    state: State::idle(Config { strips: config.strips, leds: n as usize }),
                    replies: seq![Reply::Accepted],
                    update: None,
                }
            }
        },
        Command::Update => Reaction {
            state: State::idle(config),
            replies: seq![Reply::Accepted],
            update: Some(
                UpdateView {
                    strips: config.strips,
                    leds: config.leds,
                    payload: message.subrange(8, 8 + config.frame_len()),
                },
            ),
        },
    }
}

/// The transition function of the parser.
///
/// - A probe is answered with `e` and changes nothing.
/// - Fewer than eight bytes are kept for later.
/// - With eight bytes and no command pending, the first eight are matched
///   against the known tags: `p` on a match, `e` and an empty buffer otherwise.
/// - A pending command waits until its payload is complete, then takes
///   effect, is answered with `k` or `e`, and leaves an empty buffer.
pub open spec fn react(pre: State, packet: Seq<u8>) -> Reaction {
    let message = pre.input + packet;
    if is_probe(pre, packet) {
        Reaction { state: pre, replies: seq![Reply::Rejected], update: None }
    } else if message.len() < MESSAGE_TYPE_LEN {
        Reaction {
            state: State { input: message, pending: pre.pending, config: pre.config },
            replies: Seq::empty(),
            update: None,
        }
    } else {
        let announce = if pre.pending is None {
            seq![Reply::Partial]
        } else {
            Seq::empty()
        };
        let cmd = if pre.pending is None {
            spec_parse_tag(message.subrange(0, 8))
        } else {
            pre.pending
        };
        match cmd {
            None => Reaction {
                state: State::idle(pre.config),
                replies: seq![Reply::Rejected],
                update: None,
            },
            Some(c) => if message.len() < MESSAGE_TYPE_LEN + payload_len(c, pre.config) {
                Reaction {
                    state: State { input: message, pending: Some(c), config: pre.config },
                    replies: announce,
                    update: None,
                }
            } else {
                let done = complete(c, message, pre.config);
                Reaction {
                    state: done.state,
                    replies: announce + done.replies,
                    update: done.update,
                }
            },
        }
    }
}

/// What the endpoint can fail with.
#[derive(Clone, Copy, Debug, PartialEq, Eq, Structural)]
pub enum EndpointFault {
    /// A packet was longer than the buffer it was read into.
    BufferOverflow,
    /// The endpoint is disabled: the host is gone.
    Disabled,
}

/// The connection to the host is lost; the parser starts afresh with the next one.
#[derive(Clone, Copy, Debug, PartialEq, Eq, Structural)]
pub struct Disconnected;

impl EndpointFault {
    /// Reads the fault as a lost connection. An overflow is none: the
    /// buffers are sized so that it cannot happen, and it has no recovery.
    pub fn disconnected(self) -> (d: Option<Disconnected>)
        ensures
            d is Some <==> self is Disabled,
    {
        match self {
            EndpointFault::Disabled => Some(Disconnected),
            EndpointFault::BufferOverflow => None,
        }
    }
}

/// The packet would not fit into the input buffer.
#[derive(Clone, Copy, Debug, PartialEq, Eq, Structural)]
pub struct BufferOverflow;

/// What the caller has to do after a packet.
#[derive(Debug, PartialEq, Eq)]
pub struct Outcome {
    /// The replies to send, in order.
    pub replies: Vec<Reply>,
    /// The frame to hand to the LED task.
    pub update: Option<FrameUpdate>,
}

impl Outcome {
    /// The outcome carries the replies and the frame of `reaction`.
    pub open spec fn matches(self, reaction: Reaction) -> bool {
        &&& self.replies@ == reaction.replies
        &&& match self.update {
            Some(u) => reaction.update == Some(u@),
            None => reaction.update is None,
        }
    }
}

/// The command parser.
pub struct Protocol {
    input: Vec<u8>,
    pending: Option<Command>,
    config: Config,
}

impl View for Protocol {
    type V = State;

    closed spec fn view(&self) -> State {
        State { input: self.input@, pending: self.pending, config: self.config }
    }
}

impl Protocol {
    /// The invariant of the parser, see [`State::wf`].
    pub open spec fn wf(&self) -> bool {
        self@.wf()
    }

    /// A parser with the default configuration and an empty buffer.
    pub fn new() -> (p: Protocol)
        ensures
            p@ == State::idle(Config { strips: 3, leds: 512 }),
            p.wf(),
    {
        Protocol { input: Vec::new(), pending: None, config: Config::default() }
    }

    /// Forgets everything, as after a lost connection.
    pub fn reset(&mut self)
        ensures
            final(self)@ == State::idle(Config { strips: 3, leds: 512 }),
            final(self).wf(),
    {
        self.input.clear();
        self.pending = None;
        self.config = Config::default();
    }

    /// The active configuration.
    pub fn config(&self) -> (c: Config)
        ensures
            c == self@.config,
    {
        self.config
    }

    /// The command that is waiting for its payload.
    pub fn pending(&self) -> (c: Option<Command>)
        ensures
            c == self@.pending,
    {
        self.pending
    }

    /// Number of bytes in the input buffer.
    pub fn buffered(&self) -> (n: usize)
        ensures
            n == self@.input.len(),
    {
        self.input.len()
    }

    /// Takes one packet from the endpoint.
    ///
    /// Fails, and changes nothing, exactly when the packet does not fit into
    /// the input buffer. Otherwise the parser moves as [`react`] says.
    pub fn on_packet(&mut self, packet: &[u8]) -> (r: Result<Outcome, BufferOverflow>)
        requires
            old(self).wf(),
        ensures
            final(self).wf(),
            match r {
                Ok(outcome) => {
                    &&& old(self)@.input.len() + packet@.len() <= INPUT_CAPACITY
                    &&& final(self)@ == react(old(self)@, packet@).state
                    &&& outcome.matches(react(old(self)@, packet@))
                    &&& outcome.update matches Some(u) ==> u@.wf()
                },
                Err(_) => {
                    &&& old(self)@.input.len() + packet@.len() > INPUT_CAPACITY
                    &&& final(self)@ == old(self)@
                },
            },
    {
        proof {
            self.config.lemma_frame_fits();
        }
        if packet.len() > INPUT_CAPACITY - self.input.len() {
            return Err(BufferOverflow);
        }
        let mut replies: Vec<Reply> = Vec::new();
        if self.pending.is_none() && self.input.len() == 0 && packet.len() == 1 && packet[0] == 0 {
            assert(packet@ =~= seq![0u8]);
            replies.push(Reply::Rejected);
            assert(replies@ =~= seq![Reply::Rejected]);
            return Ok(Outcome { replies, update: None });
        }
        assert(!is_probe(self@, packet@)) by {
            if packet@ == seq![0u8] {
                assert(packet@.len() == 1 && packet@[0] == 0);
            }
        }
        self.input.extend_from_slice(packet);
        assert(self.input@ =~= old(self).input@ + packet@);
        if self.input.len() < MESSAGE_TYPE_LEN {
            return Ok(Outcome { replies, update: None });
        }
        let cmd = match self.pending {
            Some(c) => c,
            None => match parse_tag(self.input.as_slice()) {
                Some(c) => {
                    replies.push(Reply::Partial);
                    assert(replies@ =~= seq![Reply::Partial]);
                    c
                },
                None => {
                    self.input.clear();
                    replies.push(Reply::Rejected);
                    assert(replies@ =~= seq![Reply::Rejected]);
                    return Ok(Outcome { replies, update: None });
                },
            },
        };
        let need = match cmd {
            Command::Update => self.config.payload_len(),
            Command::SetStrips => MESSAGE_NUM_LEN,
            Command::SetLeds => MESSAGE_NUM_LEN,
        };
        if self.input.len() - MESSAGE_TYPE_LEN < need {
            self.pending = Some(cmd);
            return Ok(Outcome { replies, update: None });
        }
        let ghost announce = replies@;
        let mut update: Option<FrameUpdate> = None;
        match cmd {
            Command::SetStrips => {
                let n = le_u32(self.input.as_slice(), MESSAGE_TYPE_LEN);
                if n as usize > MAX_STRIPS {
                    replies.push(Reply::Rejected);
                } else {
                    replies.push(Reply::Accepted);
                    self.config.strips = n as usize;
                }
            },
            Command::SetLeds => {
                let n = le_u32(self.input.as_slice(), MESSAGE_TYPE_LEN);
                if n as usize > MAX_LEDS_PER_STRIP {
                    replies.push(Reply::Rejected);
                } else {
                    replies.push(Reply::Accepted);
                    self.config.leds = n as usize;
                }
            },
            Command::Update => {
                replies.push(Reply::Accepted);
                let payload = slice_to_vec(
                    slice_subrange(self.input.as_slice(), MESSAGE_TYPE_LEN, MESSAGE_TYPE_LEN + need),
                );
                update = Some(
                    FrameUpdate { strips: self.config.strips, leds: self.config.leds, payload },
                );
            },
        }
        proof {
            let done = complete(cmd, old(self).input@ + packet@, old(self).config);
            assert(replies@ =~= announce + done.replies);
        }
        self.pending = None;
        self.input.clear();
        Ok(Outcome { replies, update })
    }
}

} // verus!
