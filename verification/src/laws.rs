//! What holds of the library as a whole.
use crate::city_tavern::{can_send, outgoing, CityTavern, NodeSeeds};
use crate::dlc::{law_type_ids_distinct, MessageView};
use crate::errors::{DecodeError, ErrorAction, LightningErrorView};
use crate::midnight_rider::{addressed, packets, RiderView, MAX_BUF_SIZE};
use crate::node::NodeId;
use crate::routed_message::{
    kind_of, read_proxy, read_routed, ProxyMessageView, RoutedMessageView, ROUTED_MESSAGE_TYPE_ID,
};
use crate::segmentation::{
    chunk_count, chunk_data, chunk_start, start_data, ReaderView, MAX_CHUNK_SIZE, MAX_SEGMENTS,
    MAX_WIRE_SIZE,
};
use crate::wire::{
    be_bytes, bytes_field, lemma_be_bytes_len, lemma_be_round_trip, lemma_be_widths,
    lemma_bytes_field_round_trip, lemma_le16_round_trip,
};
use vstd::prelude::*;

verus! {

/// A routed message that is written and read again is the same message.
pub proof fn law_routed_round_trip(m: RoutedMessageView)
    requires
        m.wf(),
    ensures
        read_routed(m.bytes()) == Ok::<RoutedMessageView, DecodeError>(m),
{
    let bytes = m.bytes();
    lemma_le16_round_trip(m.msg_type);
    assert(bytes.subrange(2, 35) =~= m.to);
    assert(bytes.subrange(35, 68) =~= m.from);
    assert(bytes.skip(68) =~= m.message.body);
    law_type_ids_distinct(kind_of(m.msg_type), m.message.kind);
}

/// What travels between peers is the same after it is written and read again
/// under its type.
pub proof fn law_proxy_round_trip(p: ProxyMessageView)
    requires
        (match p {
            ProxyMessageView::RoutedMessage(m) => m.wf(),
            ProxyMessageView::SegmentStart(_, data) => data.len() <= usize::MAX,
            ProxyMessageView::SegmentChunk(data) => data.len() <= usize::MAX,
        }),
    ensures
        read_proxy(p.type_id(), p.bytes()) == Ok::<ProxyMessageView, DecodeError>(p),
{
    match p {
        ProxyMessageView::RoutedMessage(m) => law_routed_round_trip(m),
        ProxyMessageView::SegmentStart(nb_segments, data) => {
            lemma_be_widths();
            lemma_be_bytes_len(nb_segments as nat, 2);
            lemma_be_round_trip(nb_segments as nat, 2);
            lemma_bytes_field_round_trip(data, Seq::empty());
            assert(p.bytes().take(2) =~= be_bytes(nb_segments as nat, 2));
            assert(p.bytes().skip(2) =~= bytes_field(data) + Seq::<u8>::empty());
        },
        ProxyMessageView::SegmentChunk(data) => {
            lemma_bytes_field_round_trip(data, Seq::empty());
            assert(p.bytes() =~= bytes_field(data) + Seq::<u8>::empty());
        },
    }
}

proof fn lemma_chunk_count(len: nat)
    requires
        MAX_BUF_SIZE < len,
    ensures
        chunk_count(len) >= 1,
        chunk_start(chunk_count(len) - 1) < len <= chunk_start(chunk_count(len) as int),
        forall|i: int| 0 <= i < chunk_count(len) ==> #[trigger] chunk_start(i) < len,
{
    assert forall|i: int| 0 <= i < chunk_count(len) implies #[trigger] chunk_start(i) < len by {
        assert(i * 65528 <= (chunk_count(len) - 1) * 65528) by (nonlinear_arith)
            requires
                i <= chunk_count(len) - 1,
        ;
    }
}

/// Nothing that is sent for a message exceeds the transport's buffer, and a
/// segment fits in a transport message with its type prefix.
pub proof fn law_packets_fit(m: RoutedMessageView, i: int)
    requires
        0 <= i < packets(m).len(),
    ensures
        packets(m)[i].bytes().len() <= MAX_BUF_SIZE,
        !(packets(m)[i] is RoutedMessage) ==> packets(m)[i].bytes().len() + 2 <= MAX_WIRE_SIZE,
{
    let bytes = m.bytes();
    if bytes.len() > MAX_BUF_SIZE {
        lemma_chunk_count(bytes.len());
        lemma_be_bytes_len(ROUTED_MESSAGE_TYPE_ID as nat, 2);
        if i > 0 {
            let data = chunk_data(bytes, i - 1);
            assert(chunk_start(i) == chunk_start(i - 1) + 65528) by (nonlinear_arith);
            assert(data.len() <= MAX_CHUNK_SIZE);
            lemma_be_bytes_len(data.len(), 2);
        } else {
            let data = start_data(bytes, ROUTED_MESSAGE_TYPE_ID);
            lemma_be_bytes_len((chunk_count(bytes.len()) + 1) as u16 as nat, 2);
            lemma_be_bytes_len(data.len(), 2);
        }
    }
}

/// A node that is handed what is sent for a message can take it in, and what it
/// reads from the bytes is what was sent.
pub proof fn law_packets_survive_the_wire(m: RoutedMessageView, i: int)
    requires
        m.bytes().len() <= MAX_BUF_SIZE ==> m.wf(),
        m.sendable(),
        0 <= i < packets(m).len(),
    ensures
        packets(m)[i].acceptable(),
        read_proxy(packets(m)[i].type_id(), packets(m)[i].bytes()) == Ok::<
            ProxyMessageView,
            DecodeError,
        >(packets(m)[i]),
{
    law_packets_fit(m, i);
    law_proxy_round_trip(packets(m)[i]);
}

/// The type prefix of a message and its bytes: what its segments hold.
pub open spec fn prefixed(bytes: Seq<u8>) -> Seq<u8> {
    be_bytes(ROUTED_MESSAGE_TYPE_ID as nat, 2) + bytes
}

/// The data of the first `n` of the things that are sent for a long message.
pub open spec fn joined(bytes: Seq<u8>, n: nat) -> Seq<u8>
    decreases n,
{
    if n == 0 {
        Seq::empty()
    } else if n == 1 {
        start_data(bytes, ROUTED_MESSAGE_TYPE_ID)
    } else {
        joined(bytes, (n - 1) as nat) + chunk_data(bytes, n - 2)
    }
}

proof fn lemma_joined(bytes: Seq<u8>, n: nat)
    requires
        MAX_BUF_SIZE < bytes.len(),
        1 <= n <= chunk_count(bytes.len()) + 1,
    ensures
        joined(bytes, n) == prefixed(bytes).take(
            if n == chunk_count(bytes.len()) + 1 {
                prefixed(bytes).len() as int
            } else {
                2 + chunk_start(n - 1)
            },
        ),
        n <= chunk_count(bytes.len()) ==> 2 + chunk_start(n - 1) <= prefixed(bytes).len(),
    decreases n,
{
    let all = prefixed(bytes);
    lemma_be_bytes_len(ROUTED_MESSAGE_TYPE_ID as nat, 2);
    lemma_chunk_count(bytes.len());
    if n == 1 {
        assert(joined(bytes, 1) =~= all.take(2 + chunk_start(0)));
    } else {
        lemma_joined(bytes, (n - 1) as nat);
        assert(chunk_start(n - 1) == chunk_start(n - 2) + 65528) by (nonlinear_arith)
            requires
                n >= 2,
        ;
        if n <= chunk_count(bytes.len()) {
            assert(chunk_start(n - 1) < bytes.len());
            assert(joined(bytes, n) =~= all.take(2 + chunk_start(n - 1)));
        } else {
            assert(joined(bytes, n) =~= all.take(all.len() as int));
        }
    }
}

/// The segments of a message, joined in order, are its type prefix and its bytes:
/// nothing is lost, added or moved.
pub proof fn law_segments_join(m: RoutedMessageView)
    requires
        m.bytes().len() > MAX_BUF_SIZE,
    ensures
        packets(m).len() == chunk_count(m.bytes().len()) + 1,
        joined(m.bytes(), packets(m).len()) == prefixed(m.bytes()),
{
    lemma_joined(m.bytes(), packets(m).len());
    assert(prefixed(m.bytes()).take(prefixed(m.bytes()).len() as int) =~= prefixed(m.bytes()));
}

/// What a reader holds after the first `n` of the things that are sent for a long
/// message.
spec fn partial(m: RoutedMessageView, n: nat) -> ReaderView {
    ReaderView { data: joined(m.bytes(), n), remaining: (packets(m).len() - n) as nat }
}

/// Chunk `n - 1` joins the data that came before it, and is full unless it is the
/// last one.
proof fn lemma_chunk(m: RoutedMessageView, n: nat)
    requires
        m.bytes().len() > MAX_BUF_SIZE,
        1 <= n < packets(m).len(),
    ensures
        packets(m)[n as int] == ProxyMessageView::SegmentChunk(chunk_data(m.bytes(), n - 1)),
        joined(m.bytes(), n).len() > 0,
        joined(m.bytes(), n) + chunk_data(m.bytes(), n - 1) == joined(m.bytes(), n + 1),
        n + 1 < packets(m).len() ==> chunk_data(m.bytes(), n - 1).len() == MAX_CHUNK_SIZE,
{
    let bytes = m.bytes();
    lemma_chunk_count(bytes.len());
    lemma_be_bytes_len(ROUTED_MESSAGE_TYPE_ID as nat, 2);
    lemma_joined(bytes, n);
    assert(chunk_start(n as int) == chunk_start(n - 1) + 65528) by (nonlinear_arith);
    assert(chunk_start(n - 1) >= 65524) by (nonlinear_arith)
        requires
            n >= 1,
    ;
    if n + 1 < packets(m).len() {
        assert(chunk_start(n as int) < bytes.len());
    }
}

/// A message that is put together is read and routed.
proof fn lemma_reassembled(s: RiderView, m: RoutedMessageView, sender: Seq<u8>)
    requires
        m.wf(),
    ensures
        s.reassembled(prefixed(m.bytes()), sender) == (
            s.route(m, sender),
            Ok::<(), LightningErrorView>(()),
        ),
{
    let message = prefixed(m.bytes());
    lemma_be_bytes_len(ROUTED_MESSAGE_TYPE_ID as nat, 2);
    lemma_be_widths();
    lemma_be_round_trip(ROUTED_MESSAGE_TYPE_ID as nat, 2);
    assert(message.take(2) =~= be_bytes(ROUTED_MESSAGE_TYPE_ID as nat, 2));
    assert(message.skip(2) =~= m.bytes());
    law_routed_round_trip(m);
}

/// The last chunk completes the message, which is routed.
proof fn lemma_receive_last_chunk(s: RiderView, m: RoutedMessageView, sender: Seq<u8>, n: nat)
    requires
        m.wf(),
        m.bytes().len() > MAX_BUF_SIZE,
        1 <= n,
        n + 1 == packets(m).len(),
        s.reader(sender) == partial(m, n),
    ensures
        s.receive(packets(m)[n as int], sender) == (
            s.with_reader(sender, ReaderView::idle()).route(m, sender),
            Ok::<(), LightningErrorView>(()),
        ),
{
    let data = chunk_data(m.bytes(), n - 1);
    let idle = s.with_reader(sender, ReaderView::idle());
    lemma_chunk(m, n);
    law_segments_join(m);
    lemma_reassembled(idle, m, sender);
    assert(s.receive(ProxyMessageView::SegmentChunk(data), sender) == s.receive_chunk(
        data,
        sender,
    ));
    assert(s.receive_chunk(data, sender) == idle.reassembled(prefixed(m.bytes()), sender));
}

/// A chunk that is not the last one is added to those before it.
proof fn lemma_receive_chunk(s: RiderView, m: RoutedMessageView, sender: Seq<u8>, n: nat)
    requires
        m.bytes().len() > MAX_BUF_SIZE,
        1 <= n,
        n + 1 < packets(m).len(),
        s.reader(sender) == partial(m, n),
    ensures
        s.receive(packets(m)[n as int], sender) == (
            s.with_reader(sender, partial(m, n + 1)),
            Ok::<(), LightningErrorView>(()),
        ),
{
    lemma_chunk(m, n);
}

/// What comes after the first `n` of the things that are sent for a long message
/// leads the receiver to the whole message.
proof fn lemma_receive_chunks(s: RiderView, m: RoutedMessageView, sender: Seq<u8>, n: nat)
    requires
        m.wf(),
        m.bytes().len() > MAX_BUF_SIZE,
        1 <= n < packets(m).len(),
        s.reader(sender) == partial(m, n),
    ensures
        s.receive_all(packets(m).skip(n as int), sender) == (
            s.with_reader(sender, ReaderView::idle()).route(m, sender),
            Ok::<(), LightningErrorView>(()),
        ),
    decreases packets(m).len() - n,
{
    let rest = packets(m).skip(n as int);
    assert(rest[0] == packets(m)[n as int]);
    assert(rest.skip(1) =~= packets(m).skip(n as int + 1));
    if n + 1 == packets(m).len() {
        reveal_with_fuel(RiderView::receive_all, 2);
        lemma_receive_last_chunk(s, m, sender, n);
        assert(rest.skip(1).len() == 0);
    } else {
        let next = s.with_reader(sender, partial(m, n + 1));
        lemma_receive_chunk(s, m, sender, n);
        lemma_receive_chunks(next, m, sender, n + 1);
        assert(next.with_reader(sender, ReaderView::idle()) =~= s.with_reader(
            sender,
            ReaderView::idle(),
        ));
    }
}

/// A message that is sent arrives: once all that is sent for it is handed over in
/// order, the receiver has taken in exactly that message, whatever it had of the
/// sender before. A message of more segments than a receiver puts together is out.
pub proof fn law_sent_message_arrives(s: RiderView, m: RoutedMessageView, sender: Seq<u8>)
    requires
        m.bytes().len() > MAX_BUF_SIZE ==> m.wf(),
        packets(m).len() <= MAX_SEGMENTS,
    ensures
        s.receive_all(packets(m), sender) == (
            s.with_reader(sender, ReaderView::idle()).route(m, sender),
            Ok::<(), LightningErrorView>(()),
        ),
{
    let all = packets(m);
    if m.bytes().len() > MAX_BUF_SIZE {
        let data = start_data(m.bytes(), ROUTED_MESSAGE_TYPE_ID);
        let next = s.with_reader(sender, ReaderView { data, remaining: (all.len() - 1) as nat });
        lemma_chunk_count(m.bytes().len());
        lemma_be_bytes_len(ROUTED_MESSAGE_TYPE_ID as nat, 2);
        assert(s.receive(all[0], sender) == (next, Ok::<(), LightningErrorView>(())));
        lemma_receive_chunks(next, m, sender, 1);
        assert(next.with_reader(sender, ReaderView::idle()) =~= s.with_reader(
            sender,
            ReaderView::idle(),
        ));
    } else {
        reveal_with_fuel(RiderView::receive_all, 2);
        assert(all.skip(1).len() == 0);
    }
}

/// A message that one node sends to another through the proxy ends up with the
/// other node, as it was sent and with its sender. The proxy keeps nothing of it.
pub proof fn law_delivery_through_proxy(
    alice: RiderView,
    proxy: RiderView,
    bob: RiderView,
    m: RoutedMessageView,
)
    requires
        m.bytes().len() > MAX_BUF_SIZE ==> m.wf(),
        packets(m).len() <= MAX_SEGMENTS,
        proxy.is_proxy(),
        !alice.is_proxy(),
        alice.proxy_node_id == proxy.my_node_id,
        bob.proxy_node_id == proxy.my_node_id,
        m.to == bob.my_node_id,
        m.to != proxy.my_node_id,
        proxy.connected.contains(m.to),
    ensures
        ({
            let sent = alice.send(m, alice.next_hop(m.to));
            let (relayed, relay_outcome) = proxy.receive_all(packets(m), alice.my_node_id);
            let (got, outcome) = bob.receive_all(packets(m), proxy.my_node_id);
            &&& sent.events == alice.events + addressed(proxy.my_node_id, packets(m))
            &&& relay_outcome is Ok
            &&& relayed.received == proxy.received
            &&& relayed.events == proxy.events + addressed(bob.my_node_id, packets(m))
            &&& outcome is Ok
            &&& got.received == bob.received.push((m.from, m))
            &&& got.events == bob.events
        }),
{
    law_sent_message_arrives(proxy, m, alice.my_node_id);
    law_sent_message_arrives(bob, m, proxy.my_node_id);
}

/// A message that is sent to the proxy itself is received there, and nothing is
/// sent on.
pub proof fn law_delivery_to_proxy(alice: RiderView, proxy: RiderView, m: RoutedMessageView)
    requires
        m.bytes().len() > MAX_BUF_SIZE ==> m.wf(),
        packets(m).len() <= MAX_SEGMENTS,
        proxy.is_proxy(),
        alice.proxy_node_id == proxy.my_node_id,
        m.to == proxy.my_node_id,
    ensures
        ({
            let sent = alice.send(m, alice.next_hop(m.to));
            let (got, outcome) = proxy.receive_all(packets(m), alice.my_node_id);
            &&& sent.events == alice.events + addressed(proxy.my_node_id, packets(m))
            &&& outcome is Ok
            &&& got.received == proxy.received.push((m.from, m))
            &&& got.events == proxy.events
        }),
{
    law_sent_message_arrives(proxy, m, alice.my_node_id);
}

/// A message is received exactly if it is for this node, it is never both
/// received and passed on, and routing touches nothing else.
pub proof fn law_routing_is_exclusive(s: RiderView, m: RoutedMessageView, sender: Seq<u8>)
    ensures
        s.route(m, sender).received != s.received <==> s.is_for_me(m, sender),
        s.is_for_me(m, sender) ==> s.route(m, sender).events == s.events,
        s.route(m, sender).events != s.events ==> s.connected.contains(m.to),
        s.route(m, sender).connected == s.connected,
        s.route(m, sender).readers == s.readers,
        s.route(m, sender).proxy_node_id == s.proxy_node_id,
        s.route(m, sender).my_node_id == s.my_node_id,
{
    if s.is_for_me(m, sender) {
        assert(s.route(m, sender).received.len() == s.received.len() + 1);
    }
}

/// A node that is not the proxy receives only what the proxy hands over.
pub proof fn law_only_the_proxy_delivers(s: RiderView, m: RoutedMessageView, sender: Seq<u8>)
    requires
        !s.is_proxy(),
        s.route(m, sender).received != s.received,
    ensures
        sender == s.proxy_node_id,
        m.to == s.my_node_id,
{
}

/// What a peer hands over does not touch the segments of another peer.
pub proof fn law_senders_are_independent(
    s: RiderView,
    msg: ProxyMessageView,
    sender: Seq<u8>,
    other: Seq<u8>,
)
    requires
        sender != other,
    ensures
        s.receive(msg, sender).0.reader(other) == s.reader(other),
{
}

/// What comes of one message: the outcome, what is received and what is queued.
#[verifier::ext_equal]
pub struct Effect {
    pub outcome: Result<(), LightningErrorView>,
    pub received: Seq<(Seq<u8>, RoutedMessageView)>,
    pub events: Seq<(Seq<u8>, ProxyMessageView)>,
}

/// What comes of a message that `sender` hands over.
pub open spec fn effect(s: RiderView, msg: ProxyMessageView, sender: Seq<u8>) -> Effect {
    let (next, outcome) = s.receive(msg, sender);
    Effect {
        outcome,
        received: next.received.skip(s.received.len() as int),
        events: next.events.skip(s.events.len() as int),
    }
}

/// Whether two nodes are the same to a sender: they route alike, and hold the same
/// segments of it.
pub open spec fn alike_to(s: RiderView, t: RiderView, sender: Seq<u8>) -> bool {
    &&& s.reader(sender) == t.reader(sender)
    &&& s.connected == t.connected
    &&& s.proxy_node_id == t.proxy_node_id
    &&& s.my_node_id == t.my_node_id
}

/// A message that is taken in only adds to the queues, and what comes of it
/// depends on nothing but the routing of the node and the segments of the sender.
pub proof fn law_effect_depends_on_own_segments(
    s: RiderView,
    t: RiderView,
    msg: ProxyMessageView,
    sender: Seq<u8>,
)
    requires
        alike_to(s, t, sender),
    ensures
        s.receive(msg, sender).0.received == s.received + effect(s, msg, sender).received,
        s.receive(msg, sender).0.events == s.events + effect(s, msg, sender).events,
        effect(s, msg, sender) == effect(t, msg, sender),
        alike_to(s.receive(msg, sender).0, t.receive(msg, sender).0, sender),
{
}

/// What comes of each message of `sender` among messages that several peers hand
/// over, in this order.
pub open spec fn effects_of(
    s: RiderView,
    calls: Seq<(Seq<u8>, ProxyMessageView)>,
    sender: Seq<u8>,
) -> Seq<Effect>
    decreases calls.len(),
{
    if calls.len() == 0 {
        Seq::empty()
    } else {
        let (from, msg) = calls[0];
        let rest = effects_of(s.receive(msg, from).0, calls.skip(1), sender);
        if from == sender {
            seq![effect(s, msg, sender)] + rest
        } else {
            rest
        }
    }
}

/// The messages of `sender` among those that several peers hand over.
pub open spec fn calls_of(
    calls: Seq<(Seq<u8>, ProxyMessageView)>,
    sender: Seq<u8>,
) -> Seq<(Seq<u8>, ProxyMessageView)>
    decreases calls.len(),
{
    if calls.len() == 0 {
        Seq::empty()
    } else if calls[0].0 == sender {
        seq![calls[0]] + calls_of(calls.skip(1), sender)
    } else {
        calls_of(calls.skip(1), sender)
    }
}

proof fn lemma_interleaving(
    s: RiderView,
    t: RiderView,
    calls: Seq<(Seq<u8>, ProxyMessageView)>,
    sender: Seq<u8>,
)
    requires
        alike_to(s, t, sender),
    ensures
        effects_of(s, calls, sender) == effects_of(t, calls_of(calls, sender), sender),
    decreases calls.len(),
{
    if calls.len() > 0 {
        let (from, msg) = calls[0];
        let next = s.receive(msg, from).0;
        let rest = calls_of(calls.skip(1), sender);
        if from == sender {
            law_effect_depends_on_own_segments(s, t, msg, sender);
            lemma_interleaving(next, t.receive(msg, sender).0, calls.skip(1), sender);
            assert(calls_of(calls, sender)[0] == calls[0]);
            assert(calls_of(calls, sender).skip(1) =~= rest);
        } else {
            law_senders_are_independent(s, msg, from, sender);
            law_effect_depends_on_own_segments(s, s, msg, from);
            lemma_interleaving(next, t, calls.skip(1), sender);
        }
    }
}

/// Whatever other peers hand over in between, the outcomes of a peer's messages and
/// what is received and passed on because of them are those of its messages alone.
pub proof fn law_interleaving_changes_nothing(
    s: RiderView,
    calls: Seq<(Seq<u8>, ProxyMessageView)>,
    sender: Seq<u8>,
)
    ensures
        effects_of(s, calls, sender) == effects_of(s, calls_of(calls, sender), sender),
{
    lemma_interleaving(s, s, calls, sender);
}

/// Anything but a chunk makes the segments of its sender be forgotten: it is taken
/// in as if there had been none.
pub proof fn law_interruption_forgets(s: RiderView, msg: ProxyMessageView, sender: Seq<u8>)
    requires
        !(msg is SegmentChunk),
    ensures
        s.receive(msg, sender) == s.with_reader(sender, ReaderView::idle()).receive(msg, sender),
{
    let idle = s.with_reader(sender, ReaderView::idle());
    assert(idle.with_reader(sender, ReaderView::idle()) =~= idle);
    if let ProxyMessageView::SegmentStart(nb_segments, data) = msg {
        let reader = ReaderView { data, remaining: (nb_segments - 1) as nat };
        assert(idle.with_reader(sender, reader) =~= s.with_reader(sender, reader));
    }
}

/// A message that is refused changes no queue and no connection, and the peer
/// that handed it over is disconnected.
pub proof fn law_refusal_changes_no_queue(s: RiderView, msg: ProxyMessageView, sender: Seq<u8>)
    requires
        s.receive(msg, sender).1 is Err,
    ensures
        s.receive(msg, sender).0.events == s.events,
        s.receive(msg, sender).0.received == s.received,
        s.receive(msg, sender).0.connected == s.connected,
        s.receive(msg, sender).1->Err_0.action == ErrorAction::DisconnectPeer,
{
}

/// Taking in a message keeps every reader sound.
pub proof fn law_receiving_keeps_readers_sound(
    s: RiderView,
    msg: ProxyMessageView,
    sender: Seq<u8>,
)
    requires
        s.wf(),
        msg.acceptable(),
    ensures
        s.receive(msg, sender).0.wf(),
{
    let next = s.receive(msg, sender).0;
    assert forall|node: Seq<u8>| #[trigger] next.readers.dom().contains(node) implies next.readers[node].wf() by {
        if node != sender {
            assert(s.readers.dom().contains(node));
        } else if s.readers.dom().contains(sender) {
            assert(s.readers[sender].wf());
        }
    }
}

/// What is queued for several messages leaves in the order in which the messages
/// were sent.
pub proof fn law_queue_keeps_order(
    s: RiderView,
    first: RoutedMessageView,
    first_node: Seq<u8>,
    second: RoutedMessageView,
    second_node: Seq<u8>,
)
    ensures
        s.send(first, first_node).send(second, second_node).events == s.events + addressed(
            first_node,
            packets(first),
        ) + addressed(second_node, packets(second)),
{
}

/// To connect a peer again changes nothing, and to disconnect it undoes the
/// connection.
pub proof fn law_connections(s: RiderView, node: Seq<u8>)
    ensures
        s.connect(node).connected.contains(node),
        s.connect(node).connect(node) == s.connect(node),
        !s.disconnect(node).connected.contains(node),
        s.connect(node).disconnect(node) == s.disconnect(node),
        !s.connected.contains(node) ==> s.connect(node).disconnect(node) == s,
{
    assert(s.connect(node).connect(node) =~= s.connect(node));
    assert(s.connect(node).disconnect(node) =~= s.disconnect(node));
    if !s.connected.contains(node) {
        assert(s.disconnect(node) =~= s);
    }
}

/// A node that is started without a proxy is one.
pub proof fn law_without_proxy_is_proxy(tavern: CityTavern, seeds: NodeSeeds, listening_port: u16)
    requires
        tavern.started(seeds, listening_port, None),
    ensures
        tavern.midnight_rider@.is_proxy(),
{
}

/// Two nodes that are started from the same seed are the same node.
pub proof fn law_seed_fixes_identity(
    a: CityTavern,
    b: CityTavern,
    a_seeds: NodeSeeds,
    b_seeds: NodeSeeds,
    a_port: u16,
    b_port: u16,
    a_proxy: Option<NodeId>,
    b_proxy: Option<NodeId>,
)
    requires
        a.started(a_seeds, a_port, a_proxy),
        b.started(b_seeds, b_port, b_proxy),
        a_seeds.seed_bytes == b_seeds.seed_bytes,
    ensures
        a.node_id@ == b.node_id@,
{
}

/// What a node sends for a sound contract message is a sound routed message, so
/// that it can be read where it arrives.
pub proof fn law_outgoing_is_sound(from: NodeId, to: NodeId, message: MessageView)
    requires
        from.wf(),
        to.wf(),
        message.wf(),
        can_send(message),
    ensures
        outgoing(from@, to@, message).wf(),
        outgoing(from@, to@, message).sendable(),
{
    assert(message.kind.spec_type_id() == outgoing(from@, to@, message).msg_type);
}

} // verus!
