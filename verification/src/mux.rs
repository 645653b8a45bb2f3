//! The stream multiplexer of one control connection: which logical streams
//! are live, what to do with each inbound packet, and the queue of packets
//! that wait to be written to the transport.
//!
//! The multiplexer decides; it performs nothing. Each call hands back the
//! one thing that its caller has to do (open a forwarding target, hand bytes
//! to one, start a grace period), and the caller reports back what came of
//! it (`forward_unavailable`, `grace_elapsed`).

use crate::error::Error;
use crate::ids::ReconnectToken;
use crate::ids::StreamId;
use crate::streams::ActiveStreams;
use crate::packet::packet_bytes;
use crate::packet::parse_packet;
use crate::packet::ControlPacket;
use crate::packet::PacketView;
use vstd::prelude::*;

verus! {

/// What a forwarding target is handed.
#[derive(Debug, Clone, PartialEq, Eq)]
pub enum StreamMessage {
    Data(Vec<u8>),
    Close,
}

/// A forwarding message as plain values.
pub enum MessageView {
    Data(Seq<u8>),
    Close,
}

impl View for StreamMessage {
    type V = MessageView;

    open spec fn view(&self) -> MessageView {
        match self {
            StreamMessage::Data(bytes) => MessageView::Data(bytes@),
            StreamMessage::Close => MessageView::Close,
        }
    }
}

/// What the caller has to do after an event.
#[derive(Debug, Clone, PartialEq, Eq)]
pub enum StreamAction {
    /// Nothing.
    Nothing,
    /// Open a forwarding target for `id`, which is registered from now on,
    /// and hand it `data`. If it cannot be opened, report
    /// `forward_unavailable`.
    Open { id: StreamId, data: Vec<u8> },
    /// Hand `message` to the forwarding target of `id`.
    Forward { id: StreamId, message: StreamMessage },
    /// Wait for the grace period, then report `grace_elapsed` for `id`.
    ScheduleClose { id: StreamId },
}

/// An action as plain values.
pub enum ActionView {
    Nothing,
    Open { id: u64, data: Seq<u8> },
    Forward { id: u64, message: MessageView },
    ScheduleClose { id: u64 },
}

impl View for StreamAction {
    type V = ActionView;

    open spec fn view(&self) -> ActionView {
        match self {
            StreamAction::Nothing => ActionView::Nothing,
            StreamAction::Open { id, data } => ActionView::Open { id: id.0, data: data@ },
            StreamAction::Forward { id, message } => ActionView::Forward {
                id: id.0,
                message: message@,
            },
            StreamAction::ScheduleClose { id } => ActionView::ScheduleClose { id: id.0 },
        }
    }
}

/// The multiplexer's state as plain values.
pub struct MuxView {
    /// The live streams, each with whether its grace period is running.
    pub streams: Map<u64, bool>,
    /// The packets that wait to be written, the next one first.
    pub outbound: Seq<PacketView>,
    /// The latest reconnect token that a ping brought.
    pub token: Option<Seq<char>>,
}

/// The seconds between a stream's end and the closing of its forwarding
/// target, so that bytes already under way still arrive.
pub const GRACE_PERIOD_SECS: u64 = 5;

/// Whether the multiplexer accepts a packet. `Refused` is what this side
/// sends; to receive it is a violation of the protocol.
pub open spec fn accepted(packet: PacketView) -> bool {
    !(packet is Refused)
}

/// The state after an accepted packet.
pub open spec fn after_packet(pre: MuxView, packet: PacketView) -> MuxView {
    match packet {
        PacketView::Init(_) => pre,
        PacketView::Data(id, _) => if pre.streams.contains_key(id) {
            pre
        } else {
            MuxView { streams: pre.streams.insert(id, false), ..pre }
        },
        PacketView::Refused(_) => pre,
        PacketView::End(id) => if pre.streams.contains_key(id) {
            MuxView { streams: pre.streams.insert(id, true), ..pre }
        } else {
            pre
        },
        PacketView::Ping(token) => MuxView {
            outbound: pre.outbound.push(PacketView::Ping(None)),
            token: if token is Some {
                token
            } else {
                pre.token
            },
            ..pre
        },
    }
}

/// What the caller has to do after an accepted packet.
pub open spec fn action_after_packet(pre: MuxView, packet: PacketView) -> ActionView {
    match packet {
        PacketView::Data(id, data) => if pre.streams.contains_key(id) {
            ActionView::Forward { id, message: MessageView::Data(data) }
        } else {
            ActionView::Open { id, data }
        },
        PacketView::End(id) => if pre.streams.contains_key(id) && !pre.streams[id] {
            ActionView::ScheduleClose { id }
        } else {
            ActionView::Nothing
        },
        _ => ActionView::Nothing,
    }
}

/// The state and the action after one inbound message of the transport, or
/// nothing where the bytes are no packet or the packet is not accepted.
pub open spec fn after_message(pre: MuxView, payload: Seq<u8>) -> Option<(MuxView, ActionView)> {
    match parse_packet(payload) {
        Ok(packet) => if accepted(packet) {
            Some((after_packet(pre, packet), action_after_packet(pre, packet)))
        } else {
            None
        },
        Err(_) => None,
    }
}

/// Whether the end of a grace period closes a stream: the stream is live
/// and its grace period was running.
pub open spec fn closes(pre: MuxView, id: u64) -> bool {
    pre.streams.contains_key(id) && pre.streams[id]
}

/// The state after the grace period of `id` has run out.
pub open spec fn after_grace(pre: MuxView, id: u64) -> MuxView {
    if closes(pre, id) {
        MuxView { streams: pre.streams.remove(id), ..pre }
    } else {
        pre
    }
}

/// What the caller has to do after the grace period of `id` has run out.
pub open spec fn action_after_grace(pre: MuxView, id: u64) -> ActionView {
    if closes(pre, id) {
        ActionView::Forward { id, message: MessageView::Close }
    } else {
        ActionView::Nothing
    }
}

/// The state after the forwarding target of `id` could not be opened or has
/// failed: the stream is forgotten and the peer is told so.
pub open spec fn after_unavailable(pre: MuxView, id: u64) -> MuxView {
    MuxView {
        streams: pre.streams.remove(id),
        outbound: pre.outbound.push(PacketView::Refused(id)),
        ..pre
    }
}

/// The packets of a queue as plain values.
pub open spec fn packets_view(packets: Seq<ControlPacket>) -> Seq<PacketView> {
    packets.map_values(|p: ControlPacket| p@)
}

/// The frames of a list as plain values.
pub open spec fn frames_view(frames: Seq<Vec<u8>>) -> Seq<Seq<u8>> {
    frames.map_values(|f: Vec<u8>| f@)
}

/// The text of an optional token.
pub open spec fn token_view(token: Option<ReconnectToken>) -> Option<Seq<char>> {
    match token {
        Some(t) => Some(t@),
        None => None,
    }
}

/// The multiplexer of one control connection.
#[derive(Debug)]
pub struct Multiplexer {
    streams: ActiveStreams,
    outbound: Vec<ControlPacket>,
    token: Option<ReconnectToken>,
}

impl View for Multiplexer {
    type V = MuxView;

    closed spec fn view(&self) -> MuxView {
        MuxView {
            streams: self.streams@,
            outbound: packets_view(self.outbound@),
            token: token_view(self.token),
        }
    }
}

impl Multiplexer {
    /// A multiplexer for a new connection: no streams, nothing to write, and
    /// the reconnect token that earlier connections left, if any.
    pub fn new(token: Option<ReconnectToken>) -> (mux: Multiplexer)
        ensures
            mux@ == (MuxView {
                streams: Map::<u64, bool>::empty(),
                outbound: Seq::<PacketView>::empty(),
                token: token_view(token),
            }),
    {
        let mux = Multiplexer { streams: ActiveStreams::new(), outbound: Vec::new(), token };
        proof {
            assert(packets_view(mux.outbound@) =~= Seq::<PacketView>::empty());
        }
        mux
    }

    /// Whether `id` is a live stream.
    pub fn is_active(&self, id: StreamId) -> (r: bool)
        ensures
            r == self@.streams.contains_key(id.0),
    {
        self.streams.contains(id)
    }

    /// Whether `id` is a live stream whose grace period is running.
    pub fn is_closing(&self, id: StreamId) -> (r: bool)
        ensures
            r == closes(self@, id.0),
    {
        self.streams.is_closing(id)
    }

    /// The latest reconnect token that a ping brought.
    pub fn captured_token(&self) -> (token: Option<ReconnectToken>)
        ensures
            token_view(token) == self@.token,
    {
        match &self.token {
            Some(t) => Some(ReconnectToken(t.0.clone())),
            None => None,
        }
    }

    /// How many packets wait to be written.
    pub fn pending(&self) -> (n: usize)
        ensures
            n == self@.outbound.len(),
    {
        self.outbound.len()
    }

    /// Puts a packet at the end of the outbound queue.
    pub fn enqueue(&mut self, packet: ControlPacket)
        ensures
            final(self)@ == (MuxView {
                outbound: old(self)@.outbound.push(packet@),
                ..old(self)@
            }),
    {
        self.outbound.push(packet);
        proof {
            assert(packets_view(self.outbound@) =~= packets_view(old(self).outbound@).push(
                packet@,
            ));
        }
    }

    /// Takes the packet at the front of the outbound queue, encoded for the
    /// transport. The writer of the connection calls this and nothing else
    /// takes packets out, so packets are written in the order in which they
    /// were enqueued.
    pub fn next_frame(&mut self) -> (frame: Option<Vec<u8>>)
        ensures
            match frame {
                Some(bytes) => {
                    &&& old(self)@.outbound.len() > 0
                    &&& bytes@ == packet_bytes(old(self)@.outbound[0])
                    &&& final(self)@ == (MuxView {
                        outbound: old(self)@.outbound.drop_first(),
                        ..old(self)@
                    })
                },
                None => old(self)@.outbound.len() == 0 && final(self)@ == old(self)@,
            },
    {
        if self.outbound.len() == 0 {
            return None;
        }
        let packet = self.outbound.remove(0);
        proof {
            assert(packets_view(self.outbound@) =~= packets_view(old(self).outbound@).drop_first());
        }
        Some(packet.serialize())
    }

    /// Takes every packet that waits, each encoded for the transport, in
    /// the order in which the writer has to put them on the transport: the
    /// order in which they were enqueued.
    pub fn take_frames(&mut self) -> (frames: Vec<Vec<u8>>)
        ensures
            frames_view(frames@) == write_order(old(self)@.outbound),
            final(self)@ == (MuxView { outbound: Seq::<PacketView>::empty(), ..old(self)@ }),
    {
        let mut frames: Vec<Vec<u8>> = Vec::new();
        loop
            invariant
                frames_view(frames@) + write_order(self@.outbound) == write_order(
                    old(self)@.outbound,
                ),
                self@.streams == old(self)@.streams,
                self@.token == old(self)@.token,
            ensures
                self@.outbound.len() == 0,
            decreases self@.outbound.len(),
        {
            let ghost waiting = self@.outbound;
            let ghost taken = frames@;
            match self.next_frame() {
                Some(frame) => {
                    frames.push(frame);
                    proof {
                        assert(frames_view(frames@) =~= frames_view(taken).push(
                            packet_bytes(waiting[0]),
                        ));
                        assert(frames_view(frames@) + write_order(waiting.drop_first())
                            =~= frames_view(taken) + write_order(waiting));
                    }
                },
                None => {
                    break ;
                },
            }
        }
        proof {
            assert(self@.outbound =~= Seq::<PacketView>::empty());
            assert(frames_view(frames@) =~= frames_view(frames@) + write_order(self@.outbound));
        }
        frames
    }

    /// Handles one decoded inbound packet.
    ///
    /// `Init` asks for nothing. `Data` for an id that is not live registers
    /// the id and asks for a forwarding target to be opened and handed the
    /// bytes; `Data` for a live id asks for the bytes to be handed on. `End`
    /// starts the grace period of a live id, once. `Ping` keeps the token it
    /// brings, if any, and queues a bare `Ping` in reply. `Refused` is never
    /// accepted, and leaves everything as it was.
    pub fn on_packet(&mut self, packet: ControlPacket) -> (r: Result<StreamAction, Error>)
        ensures
            match r {
                Ok(action) => {
                    &&& accepted(packet@)
                    &&& final(self)@ == after_packet(old(self)@, packet@)
                    &&& action@ == action_after_packet(old(self)@, packet@)
                },
                Err(e) => {
                    &&& !accepted(packet@)
                    &&& e == Error::MalformedMessageFromServer
                    &&& final(self)@ == old(self)@
                },
            },
    {
        match packet {
            ControlPacket::Init(_) => Ok(StreamAction::Nothing),
            ControlPacket::Data(id, data) => {
                if self.streams.register(id) {
                    Ok(StreamAction::Open { id, data })
                } else {
                    Ok(StreamAction::Forward { id, message: StreamMessage::Data(data) })
                }
            },
            ControlPacket::Refused(_) => Err(Error::MalformedMessageFromServer),
            ControlPacket::End(id) => {
                if self.streams.start_closing(id) {
                    Ok(StreamAction::ScheduleClose { id })
                } else {
                    Ok(StreamAction::Nothing)
                }
            },
            ControlPacket::Ping(token) => {
                if token.is_some() {
                    self.token = token;
                }
                self.enqueue(ControlPacket::Ping(None));
                Ok(StreamAction::Nothing)
            },
        }
    }

    /// Handles one inbound message of the transport: decodes it and handles
    /// the packet. Bytes that are no packet, and a packet that is not
    /// accepted, are a malformed message and change nothing.
    pub fn process_control_flow_message(&mut self, payload: &[u8]) -> (r: Result<
        StreamAction,
        Error,
    >)
        ensures
            match r {
                Ok(action) => after_message(old(self)@, payload@) == Some((final(self)@, action@)),
                Err(e) => {
                    &&& after_message(old(self)@, payload@) is None
                    &&& e == Error::MalformedMessageFromServer
                    &&& final(self)@ == old(self)@
                },
            },
    {
        match ControlPacket::deserialize(payload) {
            Ok(packet) => self.on_packet(packet),
            Err(_) => Err(Error::MalformedMessageFromServer),
        }
    }

    /// The grace period of `id` has run out: a stream whose grace period
    /// was running is forgotten, and its forwarding target is to be closed.
    pub fn grace_elapsed(&mut self, id: StreamId) -> (action: StreamAction)
        ensures
            final(self)@ == after_grace(old(self)@, id.0),
            action@ == action_after_grace(old(self)@, id.0),
    {
        if self.streams.is_closing(id) {
            self.streams.remove(id);
            StreamAction::Forward { id, message: StreamMessage::Close }
        } else {
            StreamAction::Nothing
        }
    }

    /// The forwarding target of `id` could not be opened, or has failed:
    /// the stream is forgotten and `Refused` is queued for the peer. The
    /// connection goes on.
    pub fn forward_unavailable(&mut self, id: StreamId)
        ensures
            final(self)@ == after_unavailable(old(self)@, id.0),
    {
        self.streams.remove(id);
        self.enqueue(ControlPacket::Refused(id));
    }

    /// Ends the connection's cycle: every live stream is forgotten, and the
    /// ids handed back are those whose forwarding targets are to be closed,
    /// each once. The token stays for the next connection.
    pub fn shutdown(&mut self) -> (ids: Vec<StreamId>)
        ensures
            final(self)@ == (MuxView { streams: Map::<u64, bool>::empty(), ..old(self)@ }),
            ids@.no_duplicates(),
            forall|id: u64| old(self)@.streams.contains_key(id) <==> ids@.contains(StreamId(id)),
    {
        self.streams.drain()
    }
}

/// The state after a run of inbound packets, the first one first.
pub open spec fn after_packets(pre: MuxView, packets: Seq<PacketView>) -> MuxView
    decreases packets.len(),
{
    if packets.len() == 0 {
        pre
    } else {
        after_packets(after_packet(pre, packets[0]), packets.drop_first())
    }
}

/// Whether an action asks for a forwarding target for `id` to be opened.
pub open spec fn opens(action: ActionView, id: u64) -> bool {
    action matches ActionView::Open { id: opened, .. } && opened == id
}

/// How often a run of inbound packets asks for a forwarding target for `id`
/// to be opened.
pub open spec fn opens_for(pre: MuxView, packets: Seq<PacketView>, id: u64) -> nat
    decreases packets.len(),
{
    if packets.len() == 0 {
        0
    } else {
        let first: nat = if opens(action_after_packet(pre, packets[0]), id) {
            1
        } else {
            0
        };
        first + opens_for(after_packet(pre, packets[0]), packets.drop_first(), id)
    }
}

/// Whether a run of packets holds data for `id`.
pub open spec fn has_data_for(packets: Seq<PacketView>, id: u64) -> bool {
    exists|i: int| 0 <= i < packets.len() && is_data_for(#[trigger] packets[i], id)
}

/// Whether a packet is data for `id`.
pub open spec fn is_data_for(packet: PacketView, id: u64) -> bool {
    packet matches PacketView::Data(to, _) && to == id
}

/// One open per stream: however many packets arrive, and however many of
/// them bring data for a stream that was not live before, they ask exactly
/// once for its forwarding target to be opened; and never for a stream that
/// was live, or for which no data came.
pub proof fn lemma_one_open_per_stream(pre: MuxView, packets: Seq<PacketView>, id: u64)
    ensures
        opens_for(pre, packets, id) == if !pre.streams.contains_key(id) && has_data_for(
            packets,
            id,
        ) {
            1nat
        } else {
            0nat
        },
        pre.streams.contains_key(id) || has_data_for(packets, id) ==> after_packets(
            pre,
            packets,
        ).streams.contains_key(id),
    decreases packets.len(),
{
    if packets.len() > 0 {
        let first = packets[0];
        let rest = packets.drop_first();
        let mid = after_packet(pre, first);
        lemma_one_open_per_stream(mid, rest, id);
        if has_data_for(rest, id) {
            let i = choose|i: int| 0 <= i < rest.len() && is_data_for(#[trigger] rest[i], id);
            assert(packets[i + 1] == rest[i]);
        }
        if has_data_for(packets, id) {
            let i = choose|i: int|
                0 <= i < packets.len() && is_data_for(#[trigger] packets[i], id);
            if i > 0 {
                assert(rest[i - 1] == packets[i]);
            }
        }
    }
}

/// End, then the grace period: once a stream has ended and its grace period
/// has run out, the stream is no longer live. If it was live, its
/// forwarding target is told to close at that moment, and not again when a
/// grace period runs out later; if it was not, nothing is closed. No other
/// stream is touched.
pub proof fn lemma_end_then_grace(pre: MuxView, id: u64)
    ensures
        ({
            let ended = after_packet(pre, PacketView::End(id));
            let closed = after_grace(ended, id);
            &&& !closed.streams.contains_key(id)
            &&& action_after_grace(ended, id) == if pre.streams.contains_key(id) {
                ActionView::Forward { id, message: MessageView::Close }
            } else {
                ActionView::Nothing
            }
            &&& action_after_grace(closed, id) == ActionView::Nothing
            &&& closed.streams == pre.streams.remove(id)
            &&& closed.outbound == pre.outbound
            &&& closed.token == pre.token
        }),
{
    let ended = after_packet(pre, PacketView::End(id));
    let closed = after_grace(ended, id);
    assert(closed.streams =~= pre.streams.remove(id));
}

/// A grace period is started at most once for a stream: a second `End`
/// while the first grace period runs asks for nothing.
pub proof fn lemma_second_end_asks_nothing(pre: MuxView, id: u64)
    ensures
        action_after_packet(after_packet(pre, PacketView::End(id)), PacketView::End(id))
            == ActionView::Nothing,
{
}

/// A ping that brings a token: the token is the captured one afterwards,
/// whatever was captured before, and exactly one bare ping is added to the
/// end of the outbound queue. A ping without a token leaves the captured
/// token as it was.
pub proof fn lemma_ping(pre: MuxView, token: Option<Seq<char>>)
    ensures
        ({
            let post = after_packet(pre, PacketView::Ping(token));
            &&& post.token == if token is Some {
                token
            } else {
                pre.token
            }
            &&& post.outbound == pre.outbound.push(PacketView::Ping(None))
            &&& post.streams == pre.streams
            &&& action_after_packet(pre, PacketView::Ping(token)) == ActionView::Nothing
        }),
{
}

/// Pings are only answered, never begun: no other packet puts anything on
/// the outbound queue or changes the captured token.
pub proof fn lemma_only_pings_are_answered(pre: MuxView, packet: PacketView)
    requires
        !(packet is Ping),
    ensures
        after_packet(pre, packet).outbound == pre.outbound,
        after_packet(pre, packet).token == pre.token,
{
}

/// The frames that the writer puts on the transport when it empties a
/// queue by taking the front packet again and again.
pub open spec fn write_order(outbound: Seq<PacketView>) -> Seq<Seq<u8>>
    decreases outbound.len(),
{
    if outbound.len() == 0 {
        Seq::<Seq<u8>>::empty()
    } else {
        seq![packet_bytes(outbound[0])] + write_order(outbound.drop_first())
    }
}

/// First in, first out: the frames are written in the order of the queue.
pub proof fn lemma_write_order(outbound: Seq<PacketView>)
    ensures
        write_order(outbound).len() == outbound.len(),
        forall|i: int|
            0 <= i < outbound.len() ==> #[trigger] write_order(outbound)[i] == packet_bytes(
                outbound[i],
            ),
    decreases outbound.len(),
{
    if outbound.len() > 0 {
        let rest = outbound.drop_first();
        lemma_write_order(rest);
        assert forall|i: int| 0 <= i < outbound.len() implies #[trigger] write_order(
            outbound,
        )[i] == packet_bytes(outbound[i]) by {
            if i > 0 {
                assert(write_order(outbound)[i] == write_order(rest)[i - 1]);
                assert(rest[i - 1] == outbound[i]);
            }
        }
    }
}

/// A packet that is enqueued is written after everything that was enqueued
/// before it.
pub proof fn lemma_enqueued_is_written_last(outbound: Seq<PacketView>, packet: PacketView)
    ensures
        write_order(outbound.push(packet)) == write_order(outbound).push(packet_bytes(packet)),
{
    lemma_write_order(outbound);
    lemma_write_order(outbound.push(packet));
    assert(write_order(outbound.push(packet)) =~= write_order(outbound).push(
        packet_bytes(packet),
    ));
}

/// Three packets enqueued one after the other on an empty queue are written
/// in that order.
pub proof fn lemma_three_in_order(first: PacketView, second: PacketView, third: PacketView)
    ensures
        write_order(Seq::<PacketView>::empty().push(first).push(second).push(third)) == seq![
            packet_bytes(first),
            packet_bytes(second),
            packet_bytes(third),
        ],
{
    let queue = Seq::<PacketView>::empty().push(first).push(second).push(third);
    lemma_write_order(queue);
    assert(write_order(queue) =~= seq![
        packet_bytes(first),
        packet_bytes(second),
        packet_bytes(third),
    ]);
}

} // verus!
