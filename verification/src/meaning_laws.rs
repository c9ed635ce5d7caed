//! What each step of a node does, said of its keys, its queues and its segments.
use crate::city_tavern::{can_send, node_key, outgoing, CityTavern, NodeSeeds};
use crate::dlc::{MessageKind, MessageView};
use crate::errors::{decimal, decode_error_text, DecodeError, ErrorAction, LightningErrorView};
use crate::laws::law_sent_message_arrives;
use crate::midnight_rider::{addressed, packets, RiderView};
use crate::node::{is_public_key, NodeId};
use crate::relay::report;
use crate::routed_message::{read_proxy, ProxyMessageView, RoutedMessageView};
use crate::segmentation::{
    chunk_count, chunk_refusal, reader_data, reader_remaining, reader_view, start_data, start_refusal,
    ReaderView, SegmentErrorView,
};
use crate::wire::{be_bytes, be_value, lemma_be_bytes_len};
use dlc_messages::segmentation::segment_reader::SegmentReader;
use vstd::prelude::*;

verus! {

/// A relay sends a message on exactly if the peer that it came from is connected,
/// whoever the message names, and then sends that very message.
pub proof fn law_relay_sends_on(
    relay: Seq<u8>,
    sender: Seq<u8>,
    m: RoutedMessageView,
    connected: Set<Seq<u8>>,
)
    ensures
        report(relay, sender, m, connected).forward is Some <==> connected.contains(sender),
        report(relay, sender, m, connected).forward matches Some(sent) ==> sent == m,
{
}

/// A relay finds a message misattributed exactly if it names another sender than
/// the peer that it came from, and for itself exactly if it names the relay as
/// receiver. Neither finding depends on who is connected.
pub proof fn law_relay_findings(
    relay: Seq<u8>,
    sender: Seq<u8>,
    m: RoutedMessageView,
    connected: Set<Seq<u8>>,
)
    ensures
        report(relay, sender, m, connected).misattributed <==> m.from != sender,
        report(relay, sender, m, connected).for_relay <==> m.to == relay,
{
}

/// What a node sends carries the receiver, the sender and the message that it was
/// sent with, under the type of the message's own kind.
pub proof fn law_outgoing_carries_what_was_sent(from: Seq<u8>, to: Seq<u8>, message: MessageView)
    ensures
        outgoing(from, to, message).to == to,
        outgoing(from, to, message).from == from,
        outgoing(from, to, message).message == message,
        can_send(message) ==> outgoing(from, to, message).msg_type == message.kind.spec_type_id(),
{
}

/// A message can be sent exactly if it is an offer, an acceptance, signatures or a
/// rejection, and is not too long.
pub proof fn law_what_can_be_sent(message: MessageView)
    ensures
        can_send(message) <==> {
            &&& {
                ||| message.kind == MessageKind::Offer
                ||| message.kind == MessageKind::Accept
                ||| message.kind == MessageKind::Sign
                ||| message.kind == MessageKind::Reject
            }
            &&& 68 + message.body.len() <= 4294377476
        },
{
}

/// A node is the proxy exactly if it is the node that messages are routed through.
pub proof fn law_who_is_the_proxy(s: RiderView)
    ensures
        s.is_proxy() <==> s.my_node_id == s.proxy_node_id,
{
}

/// The proxy hands what it sends straight to the receiver, and any other node hands
/// everything to the proxy, whatever else is going on at the node.
pub proof fn law_next_hop(s: RiderView, to: Seq<u8>)
    ensures
        s.my_node_id == s.proxy_node_id ==> s.next_hop(to) == to,
        s.my_node_id != s.proxy_node_id ==> s.next_hop(to) == s.proxy_node_id,
{
}

/// To send a message leaves what is queued in place, adds what is sent for the
/// message, all of it for the given peer, and changes nothing else.
pub proof fn law_sending(s: RiderView, m: RoutedMessageView, node: Seq<u8>, i: int)
    ensures
        s.send(m, node).events.len() == s.events.len() + packets(m).len(),
        0 <= i < s.events.len() ==> s.send(m, node).events[i] == s.events[i],
        0 <= i < packets(m).len() ==> s.send(m, node).events[s.events.len() + i] == (
            node,
            packets(m)[i],
        ),
        s.send(m, node).received == s.received,
        s.send(m, node).connected == s.connected,
        s.send(m, node).readers == s.readers,
        s.send(m, node).proxy_node_id == s.proxy_node_id,
        s.send(m, node).my_node_id == s.my_node_id,
{
}

/// A message that fits in the buffer is sent as it is. For a longer one a first
/// segment is sent that counts all segments and holds the type of a routed message
/// and the first bytes.
pub proof fn law_first_packet(m: RoutedMessageView)
    ensures
        m.bytes().len() <= 65536 ==> {
            &&& packets(m).len() == 1
            &&& packets(m)[0] == ProxyMessageView::RoutedMessage(m)
        },
        m.bytes().len() > 65536 ==> {
            &&& packets(m).len() >= 2
            &&& packets(m)[0] matches ProxyMessageView::SegmentStart(n, data)
            &&& packets(m).len() <= 65535 ==> n == packets(m).len()
            &&& data.len() == 65526
            &&& data[0] == 6 && data[1] == 240
            &&& data.skip(2) == m.bytes().take(65524)
        },
{
    if m.bytes().len() > 65536 {
        let data = start_data(m.bytes(), 1776);
        reveal_with_fuel(be_bytes, 3);
        lemma_be_bytes_len(1776, 2);
        assert(data.skip(2) =~= m.bytes().take(65524));
    }
}

/// The later segments of a message hold its bytes where the first one and those
/// before them end: each is full but for the last, and the last one ends with the
/// message and is not empty.
pub proof fn law_later_packets(m: RoutedMessageView, i: int)
    requires
        m.bytes().len() > 65536,
        1 <= i < packets(m).len(),
    ensures
        packets(m)[i] is SegmentChunk,
        ({
            let data = packets(m)[i]->SegmentChunk_0;
            let at = 65524 + 65528 * (i - 1);
            &&& 0 < data.len() <= 65528
            &&& i + 1 < packets(m).len() ==> data.len() == 65528
            &&& i + 1 == packets(m).len() ==> at + data.len() == m.bytes().len()
            &&& at + data.len() <= m.bytes().len()
            &&& data == m.bytes().subrange(at, at + data.len())
        }),
{
    let len = m.bytes().len();
    let count = chunk_count(len);
    assert(65528 * (i - 1) <= 65528 * (count - 1)) by (nonlinear_arith)
        requires
            i - 1 <= count - 1,
    ;
    if i < count {
        assert(65528 * i <= 65528 * (count - 1)) by (nonlinear_arith)
            requires
                i <= count - 1,
        ;
    }
    assert(65528 * i == 65528 * (i - 1) + 65528) by (nonlinear_arith);
    assert((i - 1) * 65528 == 65528 * (i - 1) && i * 65528 == 65528 * i) by (nonlinear_arith);
}

/// A message is received only by the node that it names, and there only if that is
/// the proxy or the proxy hands it over. It is received once, with the sender that
/// it names, and not passed on.
pub proof fn law_who_receives(s: RiderView, m: RoutedMessageView, sender: Seq<u8>)
    ensures
        s.route(m, sender).received != s.received ==> m.to == s.my_node_id && (s.proxy_node_id
            == s.my_node_id || s.proxy_node_id == sender),
        m.to == s.my_node_id && (s.proxy_node_id == s.my_node_id || s.proxy_node_id == sender)
            ==> {
            &&& s.route(m, sender).received == s.received.push((m.from, m))
            &&& s.route(m, sender).events == s.events
        },
{
}

/// A message for another node is passed on to that node, all of it and to nobody
/// else, if that node is connected. Whoever it comes from does not matter.
pub proof fn law_who_passes_on(s: RiderView, m: RoutedMessageView, sender: Seq<u8>)
    requires
        m.to != s.my_node_id,
        s.connected.contains(m.to),
    ensures
        s.route(m, sender).events == s.events + addressed(m.to, packets(m)),
        s.route(m, sender).received == s.received,
{
}

/// A message for a node that is neither this one nor connected is dropped, and
/// leaves no trace.
pub proof fn law_who_drops(s: RiderView, m: RoutedMessageView, sender: Seq<u8>)
    requires
        m.to != s.my_node_id,
        !s.connected.contains(m.to),
    ensures
        s.route(m, sender) == s,
{
}

/// A message for this node that someone else than the proxy hands over is not
/// received. It is treated as one for another node: passed on if the node counts
/// itself among its peers, and dropped otherwise.
pub proof fn law_who_is_not_heard(s: RiderView, m: RoutedMessageView, sender: Seq<u8>)
    requires
        m.to == s.my_node_id,
        s.proxy_node_id != s.my_node_id,
        s.proxy_node_id != sender,
    ensures
        s.connected.contains(m.to) ==> s.route(m, sender).events == s.events + addressed(
            m.to,
            packets(m),
        ),
        !s.connected.contains(m.to) ==> s.route(m, sender).events == s.events,
        s.route(m, sender).received == s.received,
{
}

/// Messages on their way to a peer are as many as there are, in their order, and
/// all go to that peer.
pub proof fn law_addressed(node: Seq<u8>, messages: Seq<ProxyMessageView>, i: int)
    ensures
        addressed(node, messages).len() == messages.len(),
        0 <= i < messages.len() ==> addressed(node, messages)[i] == (node, messages[i]),
{
}

/// What the proxy sends to a peer is queued for that peer, behind what is queued,
/// and is received there as it was sent.
pub proof fn law_delivery_from_proxy(proxy: RiderView, bob: RiderView, m: RoutedMessageView)
    requires
        m.bytes().len() > 65536 ==> m.wf(),
        packets(m).len() <= 1000,
        proxy.my_node_id == proxy.proxy_node_id,
        bob.proxy_node_id == proxy.my_node_id,
        m.to == bob.my_node_id,
    ensures
        ({
            let sent = proxy.send(m, proxy.next_hop(m.to));
            let (got, outcome) = bob.receive_all(packets(m), proxy.my_node_id);
            &&& sent.events == proxy.events + addressed(m.to, packets(m))
            &&& sent.received == proxy.received
            &&& outcome is Ok
            &&& got.received == bob.received.push((m.from, m))
            &&& got.events == bob.events
        }),
{
    law_sent_message_arrives(bob, m, proxy.my_node_id);
}

/// A node that has just been started has nothing queued, nothing received, no peer
/// and no segments, and knows itself and its proxy.
pub proof fn law_initial_state(proxy: Seq<u8>, me: Seq<u8>, node: Seq<u8>)
    ensures
        RiderView::initial(proxy, me).events.len() == 0,
        RiderView::initial(proxy, me).received.len() == 0,
        !RiderView::initial(proxy, me).connected.contains(node),
        !RiderView::initial(proxy, me).readers.dom().contains(node),
        RiderView::initial(proxy, me).proxy_node_id == proxy,
        RiderView::initial(proxy, me).my_node_id == me,
{
}

/// The reader of a peer is the one that is kept for it. A peer without one has sent
/// nothing that is waited for.
pub proof fn law_readers(s: RiderView, node: Seq<u8>)
    ensures
        s.readers.dom().contains(node) ==> s.reader(node) == s.readers[node],
        !s.readers.dom().contains(node) ==> s.reader(node).data.len() == 0 && s.reader(
            node,
        ).remaining == 0,
        ReaderView::idle().data.len() == 0,
        ReaderView::idle().remaining == 0,
{
}

/// A node that is started has exactly the identity that belongs to the whole of its
/// seed, keeps the seeds and the port that it was given, routes as that identity
/// through its proxy, or through itself without one, and is empty.
pub proof fn law_started(
    tavern: CityTavern,
    seeds: NodeSeeds,
    listening_port: u16,
    proxy: Option<NodeId>,
    node: Seq<u8>,
)
    requires
        tavern.started(seeds, listening_port, proxy),
    ensures
        tavern.node_id@ == node_key(seeds.seed_bytes@),
        is_public_key(tavern.node_id@),
        tavern.seeds == seeds,
        tavern.listening_port == listening_port,
        tavern.midnight_rider@.my_node_id == node_key(seeds.seed_bytes@),
        proxy matches Some(p) ==> tavern.midnight_rider@.proxy_node_id == p.bytes@,
        proxy is None ==> tavern.midnight_rider@.proxy_node_id == node_key(seeds.seed_bytes@),
        tavern.midnight_rider@.events.len() == 0,
        tavern.midnight_rider@.received.len() == 0,
        !tavern.midnight_rider@.connected.contains(node),
        !tavern.midnight_rider@.readers.dom().contains(node),
        tavern.wf(),
{
}

/// A node whose state is sound routes as the one that it is.
pub proof fn law_sound_nodes(tavern: CityTavern)
    ensures
        tavern.wf() <==> tavern.midnight_rider.wf() && tavern.midnight_rider@.my_node_id
            == tavern.node_id.bytes@,
        tavern.midnight_rider.wf() ==> tavern.midnight_rider@.wf(),
{
}

/// A reader refuses a first segment while it holds data, one that counts too few or
/// too many segments, or one that is not full, and no other.
pub proof fn law_refused_first_segments(reader: ReaderView, n: u16, data: Seq<u8>)
    ensures
        start_refusal(reader, n, data) is None <==> reader.data.len() == 0 && 2 <= n <= 1000
            && data.len() >= 65526,
        reader.data.len() > 0 ==> start_refusal(reader, n, data) == Some(
            SegmentErrorView::InvalidState(
                "Received segment start while cur data buffer is not empty."@,
            ),
        ),
        reader.data.len() == 0 && !(2 <= n <= 1000) ==> start_refusal(reader, n, data) == Some(
            SegmentErrorView::InvalidParameter(
                "Segment start must specify at least two chunks and maximum a thousand."@,
            ),
        ),
        reader.data.len() == 0 && 2 <= n <= 1000 && data.len() < 65526 ==> start_refusal(
            reader,
            n,
            data,
        ) == Some(
            SegmentErrorView::InvalidParameter(
                "Segment start data should be filled to its maximum capacity."@,
            ),
        ),
{
}

/// A reader refuses a later segment while it holds no data, or one that is neither
/// the last nor full, and no other.
pub proof fn law_refused_later_segments(reader: ReaderView, data: Seq<u8>)
    ensures
        chunk_refusal(reader, data) is None <==> reader.data.len() > 0 && (reader.remaining <= 1
            || data.len() == 65528),
        reader.data.len() == 0 ==> chunk_refusal(reader, data) == Some(
            SegmentErrorView::InvalidState(
                "Received segment chunk while cur data buffer is empty."@,
            ),
        ),
        reader.data.len() > 0 && reader.remaining > 1 && data.len() != 65528 ==> chunk_refusal(
            reader,
            data,
        ) == Some(
            SegmentErrorView::InvalidParameter(
                "Receive non final segment chunk that was not not filled."@,
            ),
        ),
{
}

/// The view of a reader is the data that it holds and the number of segments that it
/// waits for. In a sound state it waits exactly while it holds data, and what it
/// waits for has room.
pub proof fn law_sound_readers(reader: SegmentReader, s: RiderView, node: Seq<u8>)
    requires
        s.wf(),
    ensures
        reader_view(reader).data == reader_data(reader),
        reader_view(reader).remaining == reader_remaining(reader),
        s.reader(node).remaining == 0 <==> s.reader(node).data.len() == 0,
        s.reader(node).data.len() + s.reader(node).remaining * 65535 <= 65535000,
{
}

/// A routed message is always taken in. It ends what its sender had begun, is
/// routed, and leaves everything else as it is.
pub proof fn law_taking_in_a_routed_message(s: RiderView, m: RoutedMessageView, sender: Seq<u8>)
    ensures
        ({
            let (next, outcome) = s.receive(ProxyMessageView::RoutedMessage(m), sender);
            &&& outcome is Ok
            &&& next.readers == s.readers.insert(
                sender,
                (ReaderView { data: Seq::empty(), remaining: 0 }),
            )
            &&& next.received == s.route(m, sender).received
            &&& next.events == s.route(m, sender).events
            &&& next.connected == s.connected
            &&& next.proxy_node_id == s.proxy_node_id
            &&& next.my_node_id == s.my_node_id
        }),
{
}

/// A first segment is taken in exactly if it counts 2 to 1000 segments and is full.
/// Then its data is kept and the other segments are waited for. Either way what the
/// sender had begun is forgotten, and nothing is received or passed on.
pub proof fn law_taking_in_a_first_segment(s: RiderView, n: u16, data: Seq<u8>, sender: Seq<u8>)
    ensures
        ({
            let (next, outcome) = s.receive(ProxyMessageView::SegmentStart(n, data), sender);
            let taken = 2 <= n <= 1000 && data.len() >= 65526;
            &&& outcome is Ok <==> taken
            &&& next.readers == s.readers.insert(
                sender,
                if taken {
                    ReaderView { data, remaining: (n - 1) as nat }
                } else {
                    ReaderView { data: Seq::empty(), remaining: 0 }
                },
            )
            &&& next.received == s.received
            &&& next.events == s.events
            &&& next.connected == s.connected
            &&& next.proxy_node_id == s.proxy_node_id
            &&& next.my_node_id == s.my_node_id
            &&& n < 2 || n > 1000 ==> outcome->Err_0.err == "Error processing segment start"@
                + " :"@ + ("Invalid parameters were provided: "@
                + "Segment start must specify at least two chunks and maximum a thousand."@)
            &&& 2 <= n <= 1000 && data.len() < 65526 ==> outcome->Err_0.err
                == "Error processing segment start"@ + " :"@ + (
            "Invalid parameters were provided: "@
                + "Segment start data should be filled to its maximum capacity."@)
            &&& !taken ==> outcome->Err_0.action == ErrorAction::DisconnectPeer
        }),
{
}

/// A later segment that is not waited for is refused, and nothing is received or
/// passed on.
pub proof fn law_stray_segment(s: RiderView, data: Seq<u8>, sender: Seq<u8>)
    requires
        s.reader(sender).remaining == 0,
    ensures
        ({
            let (next, outcome) = s.receive(ProxyMessageView::SegmentChunk(data), sender);
            &&& outcome is Err
            &&& outcome->Err_0.err == "Received a SegmentChunk while not expecting one."@
            &&& outcome->Err_0.action == ErrorAction::DisconnectPeer
            &&& next == (RiderView {
                readers: s.readers.insert(
                    sender,
                    (ReaderView { data: Seq::empty(), remaining: 0 }),
                ),
                ..s
            })
        }),
{
}

/// Of the segments that are waited for, one that is not the last is added to the data
/// exactly if it is full, and is refused otherwise, which leaves what is kept as it
/// is. Nothing is received or passed on.
pub proof fn law_middle_segment(s: RiderView, data: Seq<u8>, sender: Seq<u8>)
    requires
        s.reader(sender).remaining > 1,
        s.reader(sender).data.len() > 0,
    ensures
        ({
            let held = s.reader(sender);
            let (next, outcome) = s.receive(ProxyMessageView::SegmentChunk(data), sender);
            &&& outcome is Ok <==> data.len() == 65528
            &&& next == (RiderView {
                readers: s.readers.insert(
                    sender,
                    if data.len() == 65528 {
                        ReaderView {
                            data: held.data + data,
                            remaining: (held.remaining - 1) as nat,
                        }
                    } else {
                        held
                    },
                ),
                ..s
            })
            &&& outcome matches Err(e) ==> e.action == ErrorAction::DisconnectPeer && e.err
                == "Error processing segment chunk"@ + " :"@ + (
            "Invalid parameters were provided: "@
                + "Receive non final segment chunk that was not not filled."@)
        }),
{
}

/// The last segment that is waited for, of whatever length, completes the message:
/// all the data in order, behind a type in two bytes, high byte first. Nothing is
/// kept of it. The message is routed if it is a routed one, and refused otherwise,
/// and then nothing is received or passed on.
pub proof fn law_last_segment(s: RiderView, data: Seq<u8>, sender: Seq<u8>)
    requires
        s.reader(sender).remaining == 1,
        s.reader(sender).data.len() > 0,
    ensures
        ({
            let all = s.reader(sender).data + data;
            let msg_type = (256 * all[0] + all[1]) as u16;
            let (next, outcome) = s.receive(ProxyMessageView::SegmentChunk(data), sender);
            let emptied = RiderView {
                readers: s.readers.insert(
                    sender,
                    (ReaderView { data: Seq::empty(), remaining: 0 }),
                ),
                ..s
            };
            let reading = if all.len() < 2 {
                Err(DecodeError::ShortRead)
            } else {
                read_proxy(msg_type, all.skip(2))
            };
            match reading {
                Ok(ProxyMessageView::RoutedMessage(m)) => outcome is Ok && next == emptied.route(
                    m,
                    sender,
                ),
                Ok(_) => {
                    &&& next == emptied
                    &&& outcome is Err
                    &&& outcome->Err_0.action == ErrorAction::DisconnectPeer
                    &&& outcome->Err_0.err == decimal(msg_type as nat) + " :"@
                        + "Unexpected message type"@
                },
                Err(e) => {
                    &&& next == emptied
                    &&& outcome is Err
                    &&& outcome->Err_0.action == ErrorAction::DisconnectPeer
                    &&& outcome->Err_0.err == "Could not reconstruct message from segments"@ + " :"@
                        + decode_error_text(e)
                },
            }
        }),
{
    let all = s.reader(sender).data + data;
    if all.len() >= 2 {
        let mark = all.take(2);
        reveal_with_fuel(be_value, 3);
        assert(mark.drop_last().drop_last().len() == 0);
        assert(be_value(mark) == 256 * all[0] + all[1]);
    }
}

/// What came out of reading a message that was put together: a routed one is routed,
/// and anything else is refused with its type or its error, and changes nothing.
pub proof fn law_reading_decides(
    s: RiderView,
    msg_type: u16,
    reading: Result<ProxyMessageView, DecodeError>,
    sender: Seq<u8>,
)
    ensures
        (match reading {
            Ok(ProxyMessageView::RoutedMessage(m)) => {
                &&& s.decoded(msg_type, reading, sender).0 == s.route(m, sender)
                &&& s.decoded(msg_type, reading, sender).1 is Ok
            },
            Ok(_) => {
                &&& s.decoded(msg_type, reading, sender).0 == s
                &&& s.decoded(msg_type, reading, sender).1 == Err::<(), LightningErrorView>(
                    LightningErrorView {
                        err: decimal(msg_type as nat) + " :"@ + "Unexpected message type"@,
                        action: ErrorAction::DisconnectPeer,
                    },
                )
            },
            Err(e) => {
                &&& s.decoded(msg_type, reading, sender).0 == s
                &&& s.decoded(msg_type, reading, sender).1 == Err::<(), LightningErrorView>(
                    LightningErrorView {
                        err: "Could not reconstruct message from segments"@ + " :"@
                            + decode_error_text(e),
                        action: ErrorAction::DisconnectPeer,
                    },
                )
            },
        }),
{
}

/// To connect a peer adds that peer to those connected, to disconnect it takes it
/// out, and neither touches another peer or anything else.
pub proof fn law_connecting(s: RiderView, node: Seq<u8>, other: Seq<u8>)
    ensures
        s.connect(node).connected.contains(other) <==> other == node || s.connected.contains(other),
        s.disconnect(node).connected.contains(other) <==> other != node && s.connected.contains(
            other,
        ),
        s.connect(node) == (RiderView { connected: s.connect(node).connected, ..s }),
        s.disconnect(node) == (RiderView { connected: s.disconnect(node).connected, ..s }),
{
}

} // verus!
