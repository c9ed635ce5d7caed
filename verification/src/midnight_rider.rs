//! The state of a node and its routing decisions.
use crate::errors::{
    decimal, decimal_string, decode_error_text, ln_error, outcome_view, to_ln_error, DecodeError,
    ErrorAction, LightningError, LightningErrorView,
};
use crate::node::{NodeId, NodeMap};
use crate::routed_message::{
    proxy_result, read_proxy, ProxyMessage, ProxyMessageView, RoutedMessage, RoutedMessageView,
    ROUTED_MESSAGE_TYPE_ID,
};
use crate::segmentation::{
    chunk_count, chunk_data, chunk_refusal, expecting_chunk, get_segments, new_reader,
    process_segment_chunk, process_segment_start, reader_view, reset_reader, start_data,
    start_refusal, ReaderView, MAX_SEGMENTS, MAX_WIRE_SIZE,
};
use crate::wire::{be_value, copy_range, read_be};
use dlc_messages::segmentation::segment_reader::SegmentReader;
use std::collections::VecDeque;
use vstd::prelude::*;

verus! {

/// The size of the transport's buffer: a longer message is sent in segments.
pub const MAX_BUF_SIZE: usize = 65536;

/// A node: the messages that it has to send, those that were received for it, the
/// peers that it is connected to, and the segments that are coming in.
pub struct MidnightRider {
    events: VecDeque<(NodeId, ProxyMessage)>,
    received_messages: Vec<(NodeId, RoutedMessage)>,
    connected_peers: NodeMap<bool>,
    segment_readers: NodeMap<SegmentReader>,
    proxy_node_id: NodeId,
    my_node_id: NodeId,
}

/// The mathematical view of a [`MidnightRider`].
#[verifier::ext_equal]
pub struct RiderView {
    /// The messages to send, oldest first, each with the peer it goes to.
    pub events: Seq<(Seq<u8>, ProxyMessageView)>,
    /// The messages received for this node, oldest first, each with its sender.
    pub received: Seq<(Seq<u8>, RoutedMessageView)>,
    /// The peers that the node is connected to.
    pub connected: Set<Seq<u8>>,
    /// The readers of the peers that sent anything.
    pub readers: Map<Seq<u8>, ReaderView>,
    /// The node through which messages are routed.
    pub proxy_node_id: Seq<u8>,
    /// This node.
    pub my_node_id: Seq<u8>,
}

/// The view of addressed messages.
pub open spec fn events_view(events: Seq<(NodeId, ProxyMessage)>) -> Seq<
    (Seq<u8>, ProxyMessageView),
> {
    Seq::new(events.len(), |i: int| (events[i].0@, events[i].1@))
}

/// The view of received messages.
pub open spec fn received_view(received: Seq<(NodeId, RoutedMessage)>) -> Seq<
    (Seq<u8>, RoutedMessageView),
> {
    Seq::new(received.len(), |i: int| (received[i].0@, received[i].1@))
}

impl View for MidnightRider {
    type V = RiderView;

    closed spec fn view(&self) -> RiderView {
        RiderView {
            events: events_view(self.events@),
            received: received_view(self.received_messages@),
            connected: self.connected_peers@.dom(),
            readers: self.segment_readers@.map_values(|r: SegmentReader| reader_view(r)),
            proxy_node_id: self.proxy_node_id@,
            my_node_id: self.my_node_id@,
        }
    }
}

/// What is sent for a message: the message itself if it fits in the buffer, else
/// its segments.
pub open spec fn packets(m: RoutedMessageView) -> Seq<ProxyMessageView> {
    let bytes = m.bytes();
    if bytes.len() > MAX_BUF_SIZE {
        seq![
            ProxyMessageView::SegmentStart(
                (chunk_count(bytes.len()) + 1) as u16,
                start_data(bytes, ROUTED_MESSAGE_TYPE_ID),
            ),
        ] + Seq::new(
            chunk_count(bytes.len()),
            |i: int| ProxyMessageView::SegmentChunk(chunk_data(bytes, i)),
        )
    } else {
        seq![ProxyMessageView::RoutedMessage(m)]
    }
}

/// Messages on their way to a peer.
pub open spec fn addressed(node: Seq<u8>, messages: Seq<ProxyMessageView>) -> Seq<
    (Seq<u8>, ProxyMessageView),
> {
    Seq::new(messages.len(), |i: int| (node, messages[i]))
}

impl RiderView {
    /// The state of each reader is sound.
    pub open spec fn wf(self) -> bool {
        forall|node: Seq<u8>| #[trigger]
            self.readers.dom().contains(node) ==> self.readers[node].wf()
    }

    /// Whether the node is the proxy itself.
    pub open spec fn is_proxy(self) -> bool {
        self.my_node_id == self.proxy_node_id
    }

    /// The state of a node that has just been started.
    pub open spec fn initial(proxy_node_id: Seq<u8>, my_node_id: Seq<u8>) -> RiderView {
        RiderView {
            events: Seq::empty(),
            received: Seq::empty(),
            connected: Set::empty(),
            readers: Map::empty(),
            proxy_node_id,
            my_node_id,
        }
    }

    /// The reader of a peer: an idle one if the peer has sent nothing yet.
    pub open spec fn reader(self, node: Seq<u8>) -> ReaderView {
        if self.readers.dom().contains(node) {
            self.readers[node]
        } else {
            ReaderView::idle()
        }
    }

    /// The state with another reader for a peer.
    pub open spec fn with_reader(self, node: Seq<u8>, reader: ReaderView) -> RiderView {
        RiderView { readers: self.readers.insert(node, reader), ..self }
    }

    /// The state once a message is queued for a peer.
    pub open spec fn send(self, m: RoutedMessageView, node: Seq<u8>) -> RiderView {
        RiderView { events: self.events + addressed(node, packets(m)), ..self }
    }

    /// The peer that a message for `to` is handed to first.
    pub open spec fn next_hop(self, to: Seq<u8>) -> Seq<u8> {
        if self.is_proxy() {
            to
        } else {
            self.proxy_node_id
        }
    }

    /// Whether a message that `sender` hands over is for this node: it is for the
    /// proxy and this is the proxy, or it is for this node and the proxy hands it over.
    pub open spec fn is_for_me(self, m: RoutedMessageView, sender: Seq<u8>) -> bool {
        ||| self.is_proxy() && m.to == self.proxy_node_id
        ||| sender == self.proxy_node_id && m.to == self.my_node_id
    }

    /// The state once a message that `sender` handed over is received, passed on to
    /// a connected peer, or dropped.
    pub open spec fn route(self, m: RoutedMessageView, sender: Seq<u8>) -> RiderView {
        if self.is_for_me(m, sender) {
            RiderView { received: self.received.push((m.from, m)), ..self }
        } else if self.connected.contains(m.to) {
            self.send(m, m.to)
        } else {
            self
        }
    }

    /// The state and the outcome once the bytes behind the type prefix of a message
    /// that was put together from segments are read.
    pub open spec fn decoded(
        self,
        message_type: u16,
        reading: Result<ProxyMessageView, DecodeError>,
        sender: Seq<u8>,
    ) -> (RiderView, Result<(), LightningErrorView>) {
        match reading {
            Ok(ProxyMessageView::RoutedMessage(m)) => (self.route(m, sender), Ok(())),
            Ok(_) => (
                self,
                Err(ln_error("Unexpected message type"@, decimal(message_type as nat))),
            ),
            Err(e) => (
                self,
                Err(
                    ln_error(decode_error_text(e), "Could not reconstruct message from segments"@),
                ),
            ),
        }
    }

    /// The state and the outcome once a message is put together from segments.
    pub open spec fn reassembled(self, message: Seq<u8>, sender: Seq<u8>) -> (
        RiderView,
        Result<(), LightningErrorView>,
    ) {
        if message.len() < 2 {
            self.decoded(0, Err(DecodeError::ShortRead), sender)
        } else {
            let message_type = be_value(message.take(2)) as u16;
            self.decoded(message_type, read_proxy(message_type, message.skip(2)), sender)
        }
    }

    /// The state and the outcome once `sender` hands over a chunk that is waited for.
    pub open spec fn receive_chunk(self, data: Seq<u8>, sender: Seq<u8>) -> (
        RiderView,
        Result<(), LightningErrorView>,
    ) {
        let reader = self.reader(sender);
        match chunk_refusal(reader, data) {
            Some(e) => (
                self.with_reader(sender, reader),
                Err(ln_error(e.text(), "Error processing segment chunk"@)),
            ),
            None => if reader.remaining == 1 {
                self.with_reader(sender, ReaderView::idle()).reassembled(reader.data + data, sender)
            } else {
                (
                    self.with_reader(
                        sender,
                        ReaderView {
                            data: reader.data + data,
                            remaining: (reader.remaining - 1) as nat,
                        },
                    ),
                    Ok(()),
                )
            },
        }
    }

    /// The state and the outcome once `sender` hands over a message. A chunk that is
    /// waited for goes to the sender's reader; anything else makes the reader
    /// forget what it holds.
    pub open spec fn receive(self, msg: ProxyMessageView, sender: Seq<u8>) -> (
        RiderView,
        Result<(), LightningErrorView>,
    ) {
        let idle = self.with_reader(sender, ReaderView::idle());
        match msg {
            ProxyMessageView::RoutedMessage(m) => (idle.route(m, sender), Ok(())),
            ProxyMessageView::SegmentStart(nb_segments, data) => {
                match start_refusal(ReaderView::idle(), nb_segments, data) {
                    Some(e) => (
                        idle,
                        Err(ln_error(e.text(), "Error processing segment start"@)),
                    ),
                    None => (
                        self.with_reader(
                            sender,
                            ReaderView { data, remaining: (nb_segments - 1) as nat },
                        ),
                        Ok(()),
                    ),
                }
            },
            ProxyMessageView::SegmentChunk(data) => if self.reader(sender).remaining != 0 {
                self.receive_chunk(data, sender)
            } else {
                (
                    idle,
                    Err(
                        LightningErrorView {
                            err: "Received a SegmentChunk while not expecting one."@,
                            action: ErrorAction::DisconnectPeer,
                        },
                    ),
                )
            },
        }
    }

    /// The state and the outcome once `sender` hands over several messages. The
    /// first that is refused is the last that is looked at.
    pub open spec fn receive_all(self, msgs: Seq<ProxyMessageView>, sender: Seq<u8>) -> (
        RiderView,
        Result<(), LightningErrorView>,
    )
        decreases msgs.len(),
    {
        if msgs.len() == 0 {
            (self, Ok(()))
        } else {
            let (next, outcome) = self.receive(msgs[0], sender);
            if outcome is Ok {
                next.receive_all(msgs.skip(1), sender)
            } else {
                (next, outcome)
            }
        }
    }

    /// The state once there is a connection to a peer.
    pub open spec fn connect(self, node: Seq<u8>) -> RiderView {
        RiderView { connected: self.connected.insert(node), ..self }
    }

    /// The state once the connection to a peer is gone.
    pub open spec fn disconnect(self, node: Seq<u8>) -> RiderView {
        RiderView { connected: self.connected.remove(node), ..self }
    }
}

impl MidnightRider {
    /// The maps of the node hold each peer at most once.
    pub closed spec fn maps_wf(&self) -> bool {
        self.connected_peers.wf() && self.segment_readers.wf()
    }

    /// The state of the node is sound.
    pub open spec fn wf(&self) -> bool {
        self.maps_wf() && self@.wf()
    }

    /// A node that routes its messages through the given proxy.
    pub fn new(proxy_node_id: NodeId, my_node_id: NodeId) -> (r: MidnightRider)
        ensures
            r.wf(),
            r@ == RiderView::initial(proxy_node_id@, my_node_id@),
    {
        let r = MidnightRider {
            events: VecDeque::new(),
            received_messages: Vec::new(),
            connected_peers: NodeMap::new(),
            segment_readers: NodeMap::new(),
            proxy_node_id,
            my_node_id,
        };
        assert(r@ =~= RiderView::initial(proxy_node_id@, my_node_id@));
        r
    }

    /// Whether the node is the proxy itself.
    pub fn is_proxy_node(&self) -> (r: bool)
        ensures
            r == self@.is_proxy(),
    {
        self.my_node_id.same(&self.proxy_node_id)
    }

    /// Queues a message for a peer, in segments if it does not fit in the buffer.
    pub fn send_message(&mut self, msg: RoutedMessage, node_id: NodeId)
        requires
            old(self).wf(),
            msg@.sendable(),
        ensures
            final(self).wf(),
            final(self)@ == old(self)@.send(msg@, node_id@),
    {
        let ghost start = self.events@;
        if msg.serialized_length() > MAX_BUF_SIZE {
            let ghost bytes = msg@.bytes();
            let (seg_start, seg_chunks) = get_segments(msg.encode(), msg.type_id());
            self.events.push_back((node_id, ProxyMessage::SegmentStart(seg_start)));
            let ghost chunks = seg_chunks@;
            let ghost head = events_view(self.events@);
            for chunk in it: seg_chunks
                invariant
                    it.seq() == chunks,
                    events_view(self.events@) == head + Seq::new(
                        it.index() as nat,
                        |i: int| (node_id@, ProxyMessageView::SegmentChunk(chunks[i].data@)),
                    ),
                    self.received_messages == old(self).received_messages,
                    self.connected_peers == old(self).connected_peers,
                    self.segment_readers == old(self).segment_readers,
                    self.proxy_node_id == old(self).proxy_node_id,
                    self.my_node_id == old(self).my_node_id,
            {
                let ghost before = events_view(self.events@);
                self.events.push_back((node_id, ProxyMessage::SegmentChunk(chunk)));
                assert(events_view(self.events@) =~= before.push(
                    (node_id@, ProxyMessageView::SegmentChunk(chunk.data@)),
                ));
                assert(events_view(self.events@) =~= head + Seq::new(
                    (it.index() + 1) as nat,
                    |i: int| (node_id@, ProxyMessageView::SegmentChunk(chunks[i].data@)),
                ));
            }
            assert(events_view(self.events@) =~= events_view(start) + addressed(
                node_id@,
                packets(msg@),
            ));
        } else {
            self.events.push_back((node_id, ProxyMessage::RoutedMessage(msg)));
            assert(events_view(self.events@) =~= events_view(start) + addressed(
                node_id@,
                packets(msg@),
            ));
        }
        assert(self@.readers == old(self)@.readers);
    }

    /// The peer that a message for `to` is handed to first: the node itself if this
    /// is the proxy, else the proxy.
    pub fn next_hop(&self, to: NodeId) -> (r: NodeId)
        ensures
            r@ == self@.next_hop(to@),
            self@.my_node_id == self@.proxy_node_id ==> r@ == to@,
            self@.my_node_id != self@.proxy_node_id ==> r@ == self@.proxy_node_id,
    {
        if self.is_proxy_node() {
            to
        } else {
            self.proxy_node_id
        }
    }

    /// Queues a message for the peer that it is handed to first.
    pub fn send_to_next_hop(&mut self, msg: RoutedMessage)
        requires
            old(self).wf(),
            msg@.sendable(),
        ensures
            final(self).wf(),
            final(self)@ == old(self)@.send(msg@, old(self)@.next_hop(msg@.to)),
    {
        let node_id = self.next_hop(msg.to);
        self.send_message(msg, node_id)
    }

    /// Takes in a message that `sender` hands over: it is received if it is for this
    /// node, passed on if its receiver is connected, and dropped otherwise. That the
    /// sender is not the node that the message names does not change this.
    pub fn handle_routed_message(&mut self, message: RoutedMessage, sender: &NodeId) -> (r: Result<
        (),
        LightningError,
    >)
        requires
            old(self).wf(),
            message@.sendable(),
        ensures
            final(self).wf(),
            final(self)@ == old(self)@.route(message@, sender@),
            final(self)@.received == (if message.to@ == old(self)@.my_node_id && (
            old(self)@.proxy_node_id == old(self)@.my_node_id || old(self)@.proxy_node_id
                == sender@) {
                old(self)@.received.push((message.from@, message@))
            } else {
                old(self)@.received
            }),
            message.to@ != old(self)@.my_node_id && old(self)@.connected.contains(message.to@)
                ==> final(self)@.events == old(self)@.events + addressed(
                message.to@,
                packets(message@),
            ),
            message.to@ != old(self)@.my_node_id && !old(self)@.connected.contains(message.to@)
                ==> final(self)@ == old(self)@,
            r == Ok::<(), LightningError>(()),
    {
        let ghost start = self.received_messages@;
        if self.is_proxy_node() && message.to.same(&self.proxy_node_id) {
            self.received_messages.push((message.from, message));
            assert(received_view(self.received_messages@) =~= received_view(start).push(
                (message@.from, message@),
            ));
            assert(self@.readers == old(self)@.readers);
            return Ok(());
        }
        if sender.same(&self.proxy_node_id) && message.to.same(&self.my_node_id) {
            self.received_messages.push((message.from, message));
            assert(received_view(self.received_messages@) =~= received_view(start).push(
                (message@.from, message@),
            ));
            assert(self@.readers == old(self)@.readers);
            return Ok(());
        }
        if self.connected_peers.contains_key(&message.to) {
            let to = message.to;
            self.send_message(message, to);
        }
        Ok(())
    }

    /// Returns the messages that were received for this node, oldest first, and
    /// forgets them.
    pub fn get_and_clear_received_messages(&mut self) -> (r: Vec<(NodeId, RoutedMessage)>)
        requires
            old(self).wf(),
        ensures
            final(self).wf(),
            received_view(r@) == old(self)@.received,
            final(self)@ == (RiderView { received: Seq::empty(), ..old(self)@ }),
    {
        let mut ret: Vec<(NodeId, RoutedMessage)> = Vec::new();
        std::mem::swap(&mut self.received_messages, &mut ret);
        assert(self@ =~= RiderView { received: Seq::empty(), ..old(self)@ });
        ret
    }

    /// Reads the bytes behind a type prefix.
    pub fn read(&self, msg_type: u16, bytes: &[u8]) -> (r: Result<
        Option<ProxyMessage>,
        DecodeError,
    >)
        ensures
            (match r {
                Ok(Some(m)) => read_proxy(msg_type, bytes@) == Ok::<ProxyMessageView, DecodeError>(
                    m@,
                ),
                Ok(None) => false,
                Err(e) => read_proxy(msg_type, bytes@) == Err::<ProxyMessageView, DecodeError>(e),
            }),
            bytes@.len() <= MAX_WIRE_SIZE ==> (r matches Ok(Some(m)) ==> m@.acceptable()),
    {
        match ProxyMessage::read(msg_type, bytes) {
            Ok(m) => Ok(Some(m)),
            Err(e) => Err(e),
        }
    }

    /// Takes in what came out of reading a message that was put together from
    /// segments, behind its type prefix.
    pub fn handle_decoded(
        &mut self,
        message_type: u16,
        reading: Result<ProxyMessage, DecodeError>,
        sender: &NodeId,
    ) -> (r: Result<(), LightningError>)
        requires
            old(self).wf(),
            reading matches Ok(ProxyMessage::RoutedMessage(m)) ==> m@.sendable(),
        ensures
            final(self).wf(),
            (final(self)@, outcome_view(r)) == old(self)@.decoded(
                message_type,
                proxy_result(reading),
                sender@,
            ),
    {
        match reading {
            Ok(ProxyMessage::RoutedMessage(message)) => self.handle_routed_message(message, sender),
            Ok(_) => Err(
                to_ln_error("Unexpected message type", decimal_string(message_type).as_str()),
            ),
            Err(e) => Err(to_ln_error(e.text(), "Could not reconstruct message from segments")),
        }
    }

    /// Reads a message that was put together from segments, and takes it in.
    fn handle_reassembled(&mut self, message: &Vec<u8>, sender: &NodeId) -> (r: Result<
        (),
        LightningError,
    >)
        requires
            old(self).wf(),
            message@.len() <= MAX_SEGMENTS * MAX_WIRE_SIZE,
        ensures
            final(self).wf(),
            (final(self)@, outcome_view(r)) == old(self)@.reassembled(message@, sender@),
    {
        if message.len() < 2 {
            return self.handle_decoded(0, Err(DecodeError::ShortRead), sender);
        }
        let message_type: u16 = read_be(message.as_slice(), 0, 2) as u16;
        assert(message@.take(2) =~= message@.subrange(0, 2));
        let rest = copy_range(message.as_slice(), 2, message.len());
        assert(rest@ =~= message@.skip(2));
        self.handle_decoded(message_type, ProxyMessage::read(message_type, rest.as_slice()), sender)
    }

    /// Takes in a message that `sender` hands over. A chunk that is waited for is
    /// added to the sender's segments, and the message that the last one completes is
    /// routed. Anything else makes the segments of the sender be forgotten.
    pub fn handle_custom_message(&mut self, msg: ProxyMessage, sender: &NodeId) -> (r: Result<
        (),
        LightningError,
    >)
        requires
            old(self).wf(),
            msg@.acceptable(),
        ensures
            final(self).wf(),
            (final(self)@, outcome_view(r)) == old(self)@.receive(msg@, sender@),
    {
        let ghost readers = self@.readers;
        let ghost held = self@.reader(sender@);
        let mut reader = match self.segment_readers.remove(sender) {
            Some(reader) => reader,
            None => new_reader(),
        };
        assert(reader_view(reader) == held);
        if expecting_chunk(&reader) {
            match msg {
                ProxyMessage::SegmentChunk(chunk) => {
                    let outcome = process_segment_chunk(&mut reader, chunk);
                    self.segment_readers.insert(sender, reader);
                    assert(self@.readers =~= readers.insert(sender@, reader_view(reader)));
                    return match outcome {
                        Ok(Some(message)) => self.handle_reassembled(&message, sender),
                        Ok(None) => Ok(()),
                        Err(e) => Err(
                            to_ln_error(e.text().as_str(), "Error processing segment chunk"),
                        ),
                    };
                },
                _ => reset_reader(&mut reader),
            }
        }
        assert(reader_view(reader) =~= ReaderView::idle());
        match msg {
            ProxyMessage::RoutedMessage(message) => {
                self.segment_readers.insert(sender, reader);
                assert(self@.readers =~= readers.insert(sender@, ReaderView::idle()));
                self.handle_routed_message(message, sender)
            },
            ProxyMessage::SegmentStart(start) => {
                let outcome = process_segment_start(&mut reader, start);
                self.segment_readers.insert(sender, reader);
                assert(self@.readers =~= readers.insert(sender@, reader_view(reader)));
                match outcome {
                    Ok(_) => Ok(()),
                    Err(e) => Err(to_ln_error(e.text().as_str(), "Error processing segment start")),
                }
            },
            ProxyMessage::SegmentChunk(_) => {
                self.segment_readers.insert(sender, reader);
                assert(self@.readers =~= readers.insert(sender@, ReaderView::idle()));
                Err(
                    LightningError {
                        err: "Received a SegmentChunk while not expecting one.".to_owned(),
                        action: ErrorAction::DisconnectPeer,
                    },
                )
            },
        }
    }

    /// Returns the messages that are queued, oldest first, and forgets them.
    pub fn get_and_clear_pending_msg(&mut self) -> (r: Vec<(NodeId, ProxyMessage)>)
        requires
            old(self).wf(),
        ensures
            final(self).wf(),
            events_view(r@) == old(self)@.events,
            final(self)@ == (RiderView { events: Seq::empty(), ..old(self)@ }),
    {
        let mut pending: VecDeque<(NodeId, ProxyMessage)> = VecDeque::new();
        std::mem::swap(&mut self.events, &mut pending);
        let ghost all = pending@;
        let mut ret: Vec<(NodeId, ProxyMessage)> = Vec::new();
        while pending.len() > 0
            invariant
                ret@ + pending@ == all,
            decreases pending@.len(),
        {
            if let Some(event) = pending.pop_front() {
                ret.push(event);
            }
            assert(ret@ + pending@ =~= all);
        }
        assert(ret@ =~= all);
        assert(self@ =~= RiderView { events: Seq::empty(), ..old(self)@ });
        ret
    }

    /// Whether there is a message to send.
    pub fn has_pending_messages(&self) -> (r: bool)
        ensures
            r == (self@.events.len() > 0),
    {
        self.events.len() > 0
    }

    /// The connection to a peer is gone.
    pub fn peer_disconnected(&mut self, their_node_id: &NodeId)
        requires
            old(self).wf(),
        ensures
            final(self).wf(),
            final(self)@ == old(self)@.disconnect(their_node_id@),
    {
        let _ = self.connected_peers.remove(their_node_id);
        assert(self@ =~= old(self)@.disconnect(their_node_id@));
    }

    /// There is a connection to a peer. It is never refused.
    pub fn peer_connected(&mut self, their_node_id: &NodeId) -> (r: Result<(), ()>)
        requires
            old(self).wf(),
        ensures
            final(self).wf(),
            final(self)@ == old(self)@.connect(their_node_id@),
            r == Ok::<(), ()>(()),
    {
        self.connected_peers.insert(their_node_id, true);
        assert(self@ =~= old(self)@.connect(their_node_id@));
        Ok(())
    }
}

} // verus!
