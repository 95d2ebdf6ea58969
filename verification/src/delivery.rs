//! What the command parser does with runs of packets: whole messages,
//! however the link cuts them, and the null bytes with which a host looks
//! for the start of a command.

use vstd::prelude::*;
use crate::config::Config;
use crate::frame::UpdateView;
use crate::host::{configures, Message};
use crate::protocol::{complete, is_probe, payload_len, react, Reaction, State};
use crate::wire::{
    spec_le_u32, spec_parse_tag, Command, Reply, INPUT_CAPACITY, MAX_LEDS_PER_STRIP, MAX_STRIPS,
    MESSAGE_TYPE_LEN, PACKET_LEN, SET_LEDS_MESSAGE, SET_STRIPS_MESSAGE, UPDATE_MESSAGE,
};

verus! {

/// What a run of packets leads to.
pub struct Trace {
    /// The parser afterwards.
    pub state: State,
    /// All replies, in order.
    pub replies: Seq<Reply>,
    /// All frames to show, in order.
    pub updates: Seq<UpdateView>,
}

/// The bytes of all packets, in order.
pub open spec fn spec_concat(packets: Seq<Seq<u8>>) -> Seq<u8>
    decreases packets.len(),
{
    if packets.len() == 0 {
        Seq::empty()
    } else {
        spec_concat(packets.drop_last()) + packets.last()
    }
}

/// The frame of a reaction as a sequence of at most one frame.
pub open spec fn shown(update: Option<UpdateView>) -> Seq<UpdateView> {
    match update {
        Some(u) => seq![u],
        None => Seq::empty(),
    }
}

/// The parser takes the packets one after the other, starting in `start`.
pub open spec fn spec_feed(start: State, packets: Seq<Seq<u8>>) -> Trace
    decreases packets.len(),
{
    if packets.len() == 0 {
        Trace { state: start, replies: Seq::empty(), updates: Seq::empty() }
    } else {
        let before = spec_feed(start, packets.drop_last());
        let r = react(before.state, packets.last());
        Trace {
            state: r.state,
            replies: before.replies + r.replies,
            updates: before.updates + shown(r.update),
        }
    }
}

/// A message: the tag of the command, then its payload.
pub open spec fn message(cmd: Command, payload: Seq<u8>) -> Seq<u8> {
    cmd.spec_tag() + payload
}

/// What a whole message leads to in an idle parser: `p`, then the verdict
/// and the effect of the command.
pub open spec fn delivered(cmd: Command, payload: Seq<u8>, config: Config) -> Trace {
    let done = complete(cmd, message(cmd, payload), config);
    Trace {
        state: done.state,
        replies: seq![Reply::Partial] + done.replies,
        updates: shown(done.update),
    }
}

/// The parser keeps its invariant whatever arrives.
pub proof fn lemma_react_keeps_wf(pre: State, packet: Seq<u8>)
    requires
        pre.wf(),
    ensures
        react(pre, packet).state.wf(),
{
    let message = pre.input + packet;
    if !is_probe(pre, packet) && message.len() >= MESSAGE_TYPE_LEN {
        assert(spec_le_u32(message.subrange(8, 12)) >= 0);
    }
}

/// A packet of the endpoint always fits: the input buffer has room for the
/// longest message and one packet more.
pub proof fn lemma_packet_fits(pre: State, packet: Seq<u8>)
    requires
        pre.wf(),
        packet.len() <= PACKET_LEN,
    ensures
        pre.input.len() + packet.len() <= INPUT_CAPACITY,
{
    pre.config.lemma_frame_fits();
}

/// A frame is shown only when an `update` is accepted, and then it holds
/// exactly three bytes for each LED of each strip of the configuration: the
/// bytes that followed the tag.
pub proof fn lemma_update_takes_whole_frame(pre: State, packet: Seq<u8>)
    requires
        pre.wf(),
        react(pre, packet).update is Some,
    ensures
        ({
            let reaction = react(pre, packet);
            let update = reaction.update->Some_0;
            &&& reaction.replies.last() == Reply::Accepted
            &&& update.wf()
            &&& update.strips == pre.config.strips
            &&& update.leds == pre.config.leds
            &&& update.payload.len() == 3 * pre.config.leds * pre.config.strips
            &&& update.payload == (pre.input + packet).subrange(8, 8 + pre.config.frame_len())
        }),
{
    pre.config.lemma_frame_fits();
}

/// Every tag has eight bytes, starts with a letter, and stands for its own
/// command only.
pub proof fn lemma_tag_parses(cmd: Command)
    ensures
        cmd.spec_tag().len() == MESSAGE_TYPE_LEN,
        cmd.spec_tag()[0] != 0,
        spec_parse_tag(cmd.spec_tag()) == Some(cmd),
{
    assert(UPDATE_MESSAGE@[0] == 0x75);
    assert(SET_STRIPS_MESSAGE@[0] == 0x73);
    assert(SET_LEDS_MESSAGE@[0] == 0x6c);
}

/// A command whose payload is complete leaves the parser idle.
pub proof fn lemma_complete_is_idle(cmd: Command, bytes: Seq<u8>, config: Config)
    ensures
        complete(cmd, bytes, config).state == State::idle(complete(cmd, bytes, config).state.config),
{
}

/// While a message arrives, the parser holds exactly what has arrived: no
/// reply before the tag is complete, `p` alone until the payload is
/// complete, and then the verdict.
proof fn lemma_prefix(cmd: Command, payload: Seq<u8>, config: Config, packets: Seq<Seq<u8>>)
    requires
        payload.len() == payload_len(cmd, config),
        spec_concat(packets).len() <= message(cmd, payload).len(),
        spec_concat(packets) == message(cmd, payload).subrange(0, spec_concat(packets).len() as int),
    ensures
        ({
            let got = spec_concat(packets);
            let trace = spec_feed(State::idle(config), packets);
            if got.len() < MESSAGE_TYPE_LEN {
                trace == (Trace {
                    state: State { input: got, pending: None, config },
                    replies: Seq::empty(),
                    updates: Seq::empty(),
                })
            } else if got.len() < message(cmd, payload).len() {
                trace == (Trace {
                    state: State { input: got, pending: Some(cmd), config },
                    replies: seq![Reply::Partial],
                    updates: Seq::empty(),
                })
            } else {
                trace == delivered(cmd, payload, config)
            }
        }),
    decreases packets.len(),
{
    let msg = message(cmd, payload);
    let got = spec_concat(packets);
    let trace = spec_feed(State::idle(config), packets);
    lemma_tag_parses(cmd);
    if packets.len() == 0 {
        assert(trace.state.input =~= got);
    } else {
        let init = packets.drop_last();
        let last = packets.last();
        let got0 = spec_concat(init);
        assert(got0 =~= msg.subrange(0, got0.len() as int)) by {
            assert(got =~= got0 + last);
            assert forall|i: int| 0 <= i < got0.len() implies got0[i] == msg[i] by {
                assert(got[i] == got0[i]);
                assert(got[i] == msg.subrange(0, got.len() as int)[i]);
            }
        }
        lemma_prefix(cmd, payload, config, init);
        let before = spec_feed(State::idle(config), init);
        let r = react(before.state, last);
        assert(got =~= got0 + last);
        if got0.len() < MESSAGE_TYPE_LEN {
            assert(!is_probe(before.state, last)) by {
                if got0.len() == 0 && last == seq![0u8] {
                    assert(got[0] == last[0]);
                    assert(got[0] == msg.subrange(0, got.len() as int)[0]);
                    assert(msg[0] == cmd.spec_tag()[0]);
                }
            }
            if got.len() >= MESSAGE_TYPE_LEN {
                assert(got.subrange(0, 8) =~= cmd.spec_tag()) by {
                    assert forall|i: int| 0 <= i < 8 implies got[i] == cmd.spec_tag()[i] by {
                        assert(got[i] == msg.subrange(0, got.len() as int)[i]);
                    }
                }
            }
        }
        if got0.len() < msg.len() {
            if got.len() >= msg.len() {
                assert(got =~= msg);
            }
        } else {
            lemma_complete_is_idle(cmd, msg, config);
            assert(last.len() == 0);
            assert(r.state.input =~= Seq::<u8>::empty());
        }
    }
}

/// A whole message that reaches an idle parser has the same effect however
/// it is cut into packets: `p` once the tag is in, then `k` or `e` once the
/// payload is in, and an idle parser at the end.
pub proof fn lemma_message_delivery(
    cmd: Command,
    payload: Seq<u8>,
    config: Config,
    packets: Seq<Seq<u8>>,
)
    requires
        payload.len() == payload_len(cmd, config),
        spec_concat(packets) == message(cmd, payload),
    ensures
        spec_feed(State::idle(config), packets) == delivered(cmd, payload, config),
{
    let msg = message(cmd, payload);
    assert(msg =~= msg.subrange(0, msg.len() as int));
    lemma_tag_parses(cmd);
    lemma_prefix(cmd, payload, config, packets);
}

/// Feeding two runs of packets one after the other is feeding the second
/// run to the parser that the first run left.
pub proof fn lemma_feed_in_turn(start: State, first: Seq<Seq<u8>>, second: Seq<Seq<u8>>)
    ensures
        ({
            let a = spec_feed(start, first);
            let b = spec_feed(a.state, second);
            spec_feed(start, first + second) == (Trace {
                state: b.state,
                replies: a.replies + b.replies,
                updates: a.updates + b.updates,
            })
        }),
    decreases second.len(),
{
    let a = spec_feed(start, first);
    let b = spec_feed(a.state, second);
    let all = spec_feed(start, first + second);
    if second.len() == 0 {
        assert(first + second =~= first);
        assert(a.replies + b.replies =~= a.replies);
        assert(a.updates + b.updates =~= a.updates);
    } else {
        assert((first + second).drop_last() =~= first + second.drop_last());
        lemma_feed_in_turn(start, first, second.drop_last());
        assert(all.replies =~= a.replies + b.replies);
        assert(all.updates =~= a.updates + b.updates);
    }
}

/// A number of strips beyond eight, or of LEDs beyond 512, is answered with
/// `p` and `e` and leaves the configuration as it was.
pub proof fn lemma_out_of_range_is_rejected(
    cmd: Command,
    number: Seq<u8>,
    config: Config,
    packets: Seq<Seq<u8>>,
)
    requires
        number.len() == 4,
        cmd == Command::SetStrips && spec_le_u32(number) > MAX_STRIPS || cmd == Command::SetLeds
            && spec_le_u32(number) > MAX_LEDS_PER_STRIP,
        spec_concat(packets) == message(cmd, number),
    ensures
        spec_feed(State::idle(config), packets) == (Trace {
            state: State::idle(config),
            replies: seq![Reply::Partial, Reply::Rejected],
            updates: Seq::empty(),
        }),
{
    lemma_message_delivery(cmd, number, config, packets);
    lemma_tag_parses(cmd);
    assert(message(cmd, number).subrange(8, 12) =~= number);
    assert(seq![Reply::Partial] + seq![Reply::Rejected] =~= seq![Reply::Partial, Reply::Rejected]);
}

/// Eight bytes or more that do not start with a tag are answered with `e`
/// and forgotten: the parser is idle again and takes the next tag.
pub proof fn lemma_unknown_tag_is_rejected(pre: State, packet: Seq<u8>)
    requires
        pre.pending is None,
        pre.input.len() + packet.len() >= MESSAGE_TYPE_LEN,
        spec_parse_tag((pre.input + packet).subrange(0, 8)) is None,
    ensures
        react(pre, packet) == (Reaction {
            state: State::idle(pre.config),
            replies: seq![Reply::Rejected],
            update: None,
        }),
{
    if is_probe(pre, packet) {
        assert(packet.len() == 1);
    }
}

/// A lone null byte that reaches an idle parser is answered with `e` and
/// changes nothing.
pub proof fn lemma_probe_is_answered(config: Config)
    ensures
        react(State::idle(config), seq![0u8]) == (Reaction {
            state: State::idle(config),
            replies: seq![Reply::Rejected],
            update: None,
        }),
{
}

/// A packet of `n` null bytes.
pub open spec fn nulls(n: nat) -> Seq<u8> {
    Seq::new(n, |i: int| 0u8)
}

/// `count` packets of `n` null bytes each.
pub open spec fn null_bursts(count: nat, n: nat) -> Seq<Seq<u8>> {
    Seq::new(count, |i: int| nulls(n))
}

/// Number of bursts of thirty-two null bytes after which every parser is idle.
pub const BURSTS_TO_IDLE: usize = 385;

/// An idle parser answers a lone null byte, and every run of eight null
/// bytes or more, with `e` alone, and stays idle.
pub proof fn lemma_nulls_at_idle(config: Config, n: nat)
    requires
        n == 1 || n >= MESSAGE_TYPE_LEN,
    ensures
        react(State::idle(config), nulls(n)) == (Reaction {
            state: State::idle(config),
            replies: seq![Reply::Rejected],
            update: None,
        }),
{
    let pre = State::idle(config);
    if n == 1 {
        assert(nulls(n) =~= seq![0u8]);
    } else {
        let tag = (pre.input + nulls(n)).subrange(0, 8);
        assert(tag[0] == 0);
        assert(UPDATE_MESSAGE@[0] == 0x75);
        assert(SET_STRIPS_MESSAGE@[0] == 0x73);
        assert(SET_LEDS_MESSAGE@[0] == 0x6c);
        assert(nulls(n).len() != 1);
    }
}

/// A burst of eight bytes or more either leaves the parser idle or is kept
/// whole as payload.
proof fn lemma_burst_step(pre: State, burst: Seq<u8>)
    requires
        pre.wf(),
        burst.len() >= MESSAGE_TYPE_LEN,
    ensures
        ({
            let post = react(pre, burst).state;
            post == State::idle(post.config) || post.input == pre.input + burst
        }),
{
}

/// After `count` bursts of thirty-two null bytes the parser is idle, or
/// holds all of them.
proof fn lemma_bursts_pile_up(pre: State, count: nat)
    requires
        pre.wf(),
    ensures
        ({
            let post = spec_feed(pre, null_bursts(count, 32)).state;
            &&& post.wf()
            &&& post == State::idle(post.config) || post.input.len() >= 32 * count
        }),
    decreases count,
{
    if count > 0 {
        let bursts = null_bursts(count, 32);
        assert(bursts.drop_last() =~= null_bursts((count - 1) as nat, 32));
        assert(bursts.last() == nulls(32));
        lemma_bursts_pile_up(pre, (count - 1) as nat);
        let before = spec_feed(pre, null_bursts((count - 1) as nat, 32)).state;
        lemma_react_keeps_wf(before, nulls(32));
        lemma_burst_step(before, nulls(32));
        if before == State::idle(before.config) {
            lemma_nulls_at_idle(before.config, 32);
        }
    }
}

/// However far a session got before it broke off, a host that writes
/// bursts of thirty-two null bytes finds the parser again: after
/// [`BURSTS_TO_IDLE`] bursts at the latest the parser is idle, and from then
/// on it answers every further burst with `e` alone.
pub proof fn lemma_bursts_reach_idle(pre: State, count: nat)
    requires
        pre.wf(),
        count >= BURSTS_TO_IDLE,
    ensures
        ({
            let before = spec_feed(pre, null_bursts(count, 32)).state;
            &&& before == State::idle(before.config)
            &&& react(before, nulls(32)) == (Reaction {
                state: before,
                replies: seq![Reply::Rejected],
                update: None,
            })
        }),
{
    lemma_bursts_pile_up(pre, count);
    let before = spec_feed(pre, null_bursts(count, 32)).state;
    before.config.lemma_frame_fits();
    lemma_nulls_at_idle(before.config, 32);
}

/// As long as the payload of an `update` is incomplete, the parser waits:
/// it sends nothing and shows nothing.
pub proof fn lemma_short_update_waits(pre: State, packet: Seq<u8>)
    requires
        pre.wf(),
        pre.pending == Some(Command::Update),
        pre.input.len() + packet.len() < MESSAGE_TYPE_LEN + pre.config.frame_len(),
    ensures
        react(pre, packet) == (Reaction {
            state: State { input: pre.input + packet, pending: pre.pending, config: pre.config },
            replies: Seq::empty(),
            update: None,
        }),
{
}

/// Setting `strips` strips, then `leds` LEDs, then sending a frame of three
/// bytes for each LED of each strip is answered with `p` and `k` three
/// times, leaves the parser idle with the new configuration, and shows
/// exactly that frame with exactly that geometry.
pub proof fn lemma_configure_then_update(
    start: Config,
    strips: usize,
    leds: usize,
    strips_number: Seq<u8>,
    leds_number: Seq<u8>,
    frame: Seq<u8>,
    first: Seq<Seq<u8>>,
    second: Seq<Seq<u8>>,
    third: Seq<Seq<u8>>,
)
    requires
        strips <= MAX_STRIPS,
        leds <= MAX_LEDS_PER_STRIP,
        strips_number.len() == 4 && spec_le_u32(strips_number) == strips,
        leds_number.len() == 4 && spec_le_u32(leds_number) == leds,
        frame.len() == 3 * leds * strips,
        spec_concat(first) == message(Command::SetStrips, strips_number),
        spec_concat(second) == message(Command::SetLeds, leds_number),
        spec_concat(third) == message(Command::Update, frame),
    ensures
        spec_feed(State::idle(start), first + second + third) == (Trace {
            state: State::idle(Config { strips, leds }),
            replies: seq![
                Reply::Partial,
                Reply::Accepted,
                Reply::Partial,
                Reply::Accepted,
                Reply::Partial,
                Reply::Accepted,
            ],
            updates: seq![UpdateView { strips, leds, payload: frame }],
        }),
{
    let c1 = Config { strips, leds: start.leds };
    let c2 = Config { strips, leds };
    lemma_message_delivery(Command::SetStrips, strips_number, start, first);
    lemma_message_delivery(Command::SetLeds, leds_number, c1, second);
    lemma_message_delivery(Command::Update, frame, c2, third);
    lemma_tag_parses(Command::SetStrips);
    lemma_tag_parses(Command::SetLeds);
    lemma_tag_parses(Command::Update);
    assert(message(Command::SetStrips, strips_number).subrange(8, 12) =~= strips_number);
    assert(message(Command::SetLeds, leds_number).subrange(8, 12) =~= leds_number);
    assert(message(Command::Update, frame).subrange(8, 8 + c2.frame_len()) =~= frame);
    lemma_feed_in_turn(State::idle(start), first, second);
    lemma_feed_in_turn(State::idle(start), first + second, third);
    let all = spec_feed(State::idle(start), first + second + third);
    assert(all.replies =~= seq![
        Reply::Partial,
        Reply::Accepted,
        Reply::Partial,
        Reply::Accepted,
        Reply::Partial,
        Reply::Accepted,
    ]);
    assert(all.updates =~= seq![UpdateView { strips, leds, payload: frame }]);
}

/// The host and the device agree: the three messages that a controller
/// plans for a frame on a new port, with three bytes for each LED of each
/// strip of its configuration, are all accepted by an idle parser, set
/// that configuration and show that frame.
pub proof fn lemma_plan_is_accepted(
    start: Config,
    config: Config,
    messages: Seq<Message>,
    frame: Seq<u8>,
    first: Seq<Seq<u8>>,
    second: Seq<Seq<u8>>,
    third: Seq<Seq<u8>>,
)
    requires
        config.in_range(),
        frame.len() == 3 * config.leds * config.strips,
        messages.len() == 3,
        configures(messages.subrange(0, 2), config),
        messages[2].command == Command::Update,
        messages[2].data@ == frame,
        spec_concat(first) == message(messages[0].command, messages[0].data@),
        spec_concat(second) == message(messages[1].command, messages[1].data@),
        spec_concat(third) == message(messages[2].command, messages[2].data@),
    ensures
        spec_feed(State::idle(start), first + second + third) == (Trace {
            state: State::idle(config),
            replies: seq![
                Reply::Partial,
                Reply::Accepted,
                Reply::Partial,
                Reply::Accepted,
                Reply::Partial,
                Reply::Accepted,
            ],
            updates: seq![UpdateView { strips: config.strips, leds: config.leds, payload: frame }],
        }),
{
    let numbers = messages.subrange(0, 2);
    assert(numbers[0] == messages[0] && numbers[1] == messages[1]);
    lemma_configure_then_update(
        start,
        config.strips,
        config.leds,
        messages[0].data@,
        messages[1].data@,
        frame,
        first,
        second,
        third,
    );
}

} // verus!
