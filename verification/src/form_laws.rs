//! What the views, the texts and the wire forms say of the values they are of.
use crate::dlc::{dlc_reading, is_readable_type, message_type, Message, MessageKind};
use crate::errors::{
    decimal, decode_error_text, ln_error, outcome_view, DecodeError, ErrorAction, LightningError,
};
use crate::midnight_rider::{events_view, received_view};
use crate::node::{is_public_key, on_curve, NodeId};
use crate::relay::RelayReport;
use crate::routed_message::{
    proxy_result, read_proxy, read_routed, reading_view, routed_from_reading, routed_result,
    ProxyMessage, ProxyMessageView, RoutedMessage, RoutedMessageView,
};
use crate::segmentation::{read_start, start_bytes, SegmentError};
use crate::wire::{
    be_bytes, be_value, bytes_field, le16, le16_value, lemma_be_bytes_len, lemma_be_round_trip,
    lemma_be_value_bound, lemma_be_value_bytes, lemma_be_widths, read_bytes_field,
};
use vstd::arithmetic::div_mod::lemma_mod_breakdown;
use vstd::arithmetic::power::{lemma_pow_positive, pow};
use vstd::prelude::*;

verus! {

/// The view of a node is its key, and a node is sound if the key is one.
pub proof fn law_view_of_node(node: NodeId)
    ensures
        node@ == node.bytes@,
        node.wf() <==> is_public_key(node.bytes@),
{
}

/// The view of a routed message shows every field of it, unchanged.
pub proof fn law_view_of_routed_message(m: RoutedMessage)
    ensures
        m@.msg_type == m.msg_type,
        m@.to == m.to.bytes@,
        m@.from == m.from.bytes@,
        m@.message.kind == m.message.kind,
        m@.message.body == m.message.body@,
{
}

/// The view of a contract message shows its kind and its bytes, unchanged.
pub proof fn law_view_of_message(m: Message)
    ensures
        m@.kind == m.kind,
        m@.body == m.body@,
{
}

/// The view of what travels between peers tells the variants apart and shows what
/// is in them.
pub proof fn law_view_of_proxy_message(p: ProxyMessage)
    ensures
        (match p {
            ProxyMessage::RoutedMessage(m) => p@ matches ProxyMessageView::RoutedMessage(v) && v
                == m@,
            ProxyMessage::SegmentStart(s) => p@ matches ProxyMessageView::SegmentStart(n, data)
                && n == s.nb_segments && data == s.data@,
            ProxyMessage::SegmentChunk(c) => p@ matches ProxyMessageView::SegmentChunk(data) && data
                == c.data@,
        }),
{
}

/// The views of queues hold the same number of entries, in the same order, each
/// with its node and its message.
pub proof fn law_views_of_queues(
    events: Seq<(NodeId, ProxyMessage)>,
    received: Seq<(NodeId, RoutedMessage)>,
    i: int,
)
    ensures
        events_view(events).len() == events.len(),
        received_view(received).len() == received.len(),
        0 <= i < events.len() ==> events_view(events)[i].0 == events[i].0.bytes@
            && events_view(events)[i].1 == events[i].1@,
        0 <= i < received.len() ==> received_view(received)[i].0 == received[i].0.bytes@
            && received_view(received)[i].1 == received[i].1@,
{
}

/// The views of results tell success from failure and show what came out.
pub proof fn law_views_of_results(
    routed: Result<RoutedMessage, DecodeError>,
    proxy: Result<ProxyMessage, DecodeError>,
    reading: Result<Option<Vec<u8>>, DecodeError>,
    outcome: Result<(), LightningError>,
)
    ensures
        routed is Ok ==> routed_result(routed) is Ok && routed_result(routed)->Ok_0
            == routed->Ok_0@,
        routed is Err ==> routed_result(routed) is Err && routed_result(routed)->Err_0
            == routed->Err_0,
        proxy is Ok ==> proxy_result(proxy) is Ok && proxy_result(proxy)->Ok_0 == proxy->Ok_0@,
        proxy is Err ==> proxy_result(proxy) is Err && proxy_result(proxy)->Err_0 == proxy->Err_0,
        reading matches Ok(Some(body)) ==> (reading_view(reading) matches Ok(Some(b)) && b
            == body@),
        reading matches Ok(None) ==> reading_view(reading) matches Ok(None),
        reading matches Err(e) ==> (reading_view(reading) matches Err(f) && f == e),
        outcome is Ok <==> outcome_view(outcome) is Ok,
        outcome matches Err(e) ==> outcome_view(outcome)->Err_0.err == e.err@ && outcome_view(
            outcome,
        )->Err_0.action == e.action,
{
}

/// The view of a relay's report shows both findings and the message to send on.
pub proof fn law_view_of_report(r: RelayReport)
    ensures
        r@.misattributed == r.misattributed,
        r@.for_relay == r.for_relay,
        r@.forward is Some <==> r.forward is Some,
        r.forward matches Some(m) ==> r@.forward->Some_0 == m@,
{
}

/// A point of the curve satisfies the equation of the curve, modulo the order of
/// the field.
pub proof fn law_on_curve(x: nat, y: nat)
    ensures
        on_curve(x, y) <==> (y * y) % 0xffffffff_ffffffff_ffffffff_ffffffff_ffffffff_ffffffff_fffffffe_fffffc2fnat
            == (x * x * x + 7)
            % 0xffffffff_ffffffff_ffffffff_ffffffff_ffffffff_ffffffff_fffffffe_fffffc2fnat,
{
}

/// A public key is a parity byte and a reduced coordinate of a point of the curve.
pub proof fn law_public_keys(bytes: Seq<u8>, y: nat)
    ensures
        is_public_key(bytes) ==> {
            &&& bytes.len() == 33
            &&& bytes[0] == 2 || bytes[0] == 3
            &&& be_value(bytes.skip(1))
                < 0xffffffff_ffffffff_ffffffff_ffffffff_ffffffff_ffffffff_fffffffe_fffffc2fnat
            &&& exists|z: nat| #[trigger] on_curve(be_value(bytes.skip(1)), z)
        },
        ({
            &&& bytes.len() == 33
            &&& bytes[0] == 2 || bytes[0] == 3
            &&& be_value(bytes.skip(1))
                < 0xffffffff_ffffffff_ffffffff_ffffffff_ffffffff_ffffffff_fffffffe_fffffc2fnat
            &&& on_curve(be_value(bytes.skip(1)), y)
        }) ==> is_public_key(bytes),
{
}

/// Two bytes, low byte first, stand for the low byte and 256 times the high one, and
/// a number is written with the two bytes that stand for it.
pub proof fn law_low_byte_first(n: u16, low: u8, high: u8)
    ensures
        le16_value(low, high) == low + 256 * high,
        le16(n).len() == 2,
        le16(n)[0] + 256 * le16(n)[1] == n,
{
}

/// No bytes stand for zero, and a byte behind others adds itself to 256 times what
/// they stand for.
pub proof fn law_high_byte_first(bytes: Seq<u8>, last: u8)
    ensures
        be_value(Seq::<u8>::empty()) == 0,
        be_value(bytes.push(last)) == 256 * be_value(bytes) + last,
{
    assert(bytes.push(last).drop_last() =~= bytes);
}

/// A number is written with as many bytes as are asked for, and they stand for what
/// is left of it modulo the number of values that so many bytes have.
pub proof fn law_number_bytes(n: nat, width: nat)
    ensures
        be_bytes(n, width).len() == width,
        be_value(be_bytes(n, width)) == n as int % pow(256, width),
    decreases width,
{
    reveal(pow);
    lemma_be_bytes_len(n, width);
    lemma_pow_positive(256, width);
    if width > 0 {
        let rest = (width - 1) as nat;
        law_number_bytes(n / 256, rest);
        lemma_pow_positive(256, rest);
        lemma_mod_breakdown(n as int, 256, pow(256, rest));
        assert(be_bytes(n, width).drop_last() =~= be_bytes(n / 256, rest));
    }
}

/// A byte string stands unchanged behind its length: in two bytes, or from `0xffff`
/// on behind the mark `0xffff` in eight more, which count from there.
pub proof fn law_byte_strings(data: Seq<u8>)
    requires
        data.len() <= u64::MAX,
    ensures
        data.len() < 0xffff ==> {
            &&& bytes_field(data).len() == data.len() + 2
            &&& be_value(bytes_field(data).take(2)) == data.len()
            &&& bytes_field(data).skip(2) == data
        },
        data.len() >= 0xffff ==> {
            &&& bytes_field(data).len() == data.len() + 10
            &&& be_value(bytes_field(data).take(2)) == 0xffff
            &&& be_value(bytes_field(data).subrange(2, 10)) + 0xffff == data.len()
            &&& bytes_field(data).skip(10) == data
        },
{
    let bytes = bytes_field(data);
    lemma_be_widths();
    if data.len() < 0xffff {
        lemma_be_bytes_len(data.len(), 2);
        lemma_be_round_trip(data.len(), 2);
        assert(bytes.take(2) =~= be_bytes(data.len(), 2));
        assert(bytes.skip(2) =~= data);
    } else {
        let excess = (data.len() - 0xffff) as nat;
        lemma_be_bytes_len(0xffff, 2);
        lemma_be_round_trip(0xffff, 2);
        lemma_be_bytes_len(excess, 8);
        lemma_be_round_trip(excess, 8);
        assert(bytes.take(2) =~= be_bytes(0xffff, 2));
        assert(bytes.subrange(2, 10) =~= be_bytes(excess, 8));
        assert(bytes.skip(10) =~= data);
    }
}

/// A byte string that is read is one whose written form the bytes start with. That
/// it is not read is because its length overflows, or because the bytes end.
pub proof fn law_byte_strings_are_read(bytes: Seq<u8>)
    ensures
        read_bytes_field(bytes) matches Ok(data) ==> bytes_field(data).is_prefix_of(bytes),
        read_bytes_field(bytes) == Err::<Seq<u8>, DecodeError>(DecodeError::InvalidValue) <==> {
            &&& bytes.len() >= 10
            &&& bytes[0] == 0xff && bytes[1] == 0xff
            &&& be_value(bytes.subrange(2, 10)) > 0xffff_ffff_ffff_ffff - 0xffff
        },
        read_bytes_field(bytes) matches Err(e) ==> e == DecodeError::InvalidValue || e
            == DecodeError::ShortRead,
{
    if bytes.len() >= 2 {
        let mark = bytes.take(2);
        reveal_with_fuel(be_value, 3);
        assert(be_value(mark) == 256 * mark[0] + mark[1]) by {
            assert(mark.drop_last().drop_last().len() == 0);
        }
        lemma_be_value_bytes(mark);
        lemma_be_widths();
        lemma_be_value_bound(mark);
        if be_value(mark) >= 0xffff && bytes.len() >= 10 {
            lemma_be_value_bytes(bytes.subrange(2, 10));
        }
        if let Ok(data) = read_bytes_field(bytes) {
            assert(bytes_field(data) =~= bytes.take(bytes_field(data).len() as int));
        }
    }
}

/// A first segment is its count, high byte first, and its data as a byte string,
/// and is read as that.
pub proof fn law_first_segments(nb_segments: u16, data: Seq<u8>, bytes: Seq<u8>)
    ensures
        start_bytes(nb_segments, data).len() == 2 + bytes_field(data).len(),
        be_value(start_bytes(nb_segments, data).take(2)) == nb_segments,
        start_bytes(nb_segments, data).skip(2) == bytes_field(data),
        bytes.len() < 2 ==> read_start(bytes) == Err::<(u16, Seq<u8>), DecodeError>(
            DecodeError::ShortRead,
        ),
        bytes.len() >= 2 ==> (match read_bytes_field(bytes.skip(2)) {
            Ok(read) => {
                &&& read_start(bytes) is Ok
                &&& read_start(bytes)->Ok_0.0 == be_value(bytes.take(2))
                &&& read_start(bytes)->Ok_0.1 == read
            },
            Err(e) => read_start(bytes) == Err::<(u16, Seq<u8>), DecodeError>(e),
        }),
{
    lemma_be_widths();
    lemma_be_bytes_len(nb_segments as nat, 2);
    lemma_be_round_trip(nb_segments as nat, 2);
    assert(start_bytes(nb_segments, data).take(2) =~= be_bytes(nb_segments as nat, 2));
    assert(start_bytes(nb_segments, data).skip(2) =~= bytes_field(data));
    if bytes.len() >= 2 {
        lemma_be_value_bound(bytes.take(2));
    }
}

/// A routed message is written as its type, low byte first, the key of the receiver,
/// the key of the sender and the contract message, with nothing else.
pub proof fn law_routed_message_bytes(m: RoutedMessageView)
    requires
        m.to.len() == 33,
        m.from.len() == 33,
    ensures
        m.bytes().len() == 68 + m.message.body.len(),
        m.bytes()[0] + 256 * m.bytes()[1] == m.msg_type,
        m.bytes().subrange(2, 35) == m.to,
        m.bytes().subrange(35, 68) == m.from,
        m.bytes().skip(68) == m.message.body,
{
    assert(m.bytes().subrange(2, 35) =~= m.to);
    assert(m.bytes().subrange(35, 68) =~= m.from);
    assert(m.bytes().skip(68) =~= m.message.body);
}

/// What is read of a routed message is what stands where it is written: the keys
/// are looked at first, and the contract message decides the rest.
pub proof fn law_routed_messages_are_read(bytes: Seq<u8>, kind: MessageKind)
    ensures
        bytes.len() < 35 ==> read_routed(bytes) == Err::<RoutedMessageView, DecodeError>(
            DecodeError::ShortRead,
        ),
        bytes.len() >= 35 && !is_public_key(bytes.subrange(2, 35)) ==> read_routed(bytes) == Err::<
            RoutedMessageView,
            DecodeError,
        >(DecodeError::InvalidValue),
        35 <= bytes.len() < 68 && is_public_key(bytes.subrange(2, 35)) ==> read_routed(bytes)
            == Err::<RoutedMessageView, DecodeError>(DecodeError::ShortRead),
        bytes.len() >= 68 && !is_public_key(bytes.subrange(35, 68)) && is_public_key(
            bytes.subrange(2, 35),
        ) ==> read_routed(bytes) == Err::<RoutedMessageView, DecodeError>(
            DecodeError::InvalidValue,
        ),
        bytes.len() >= 68 && is_public_key(bytes.subrange(2, 35)) && is_public_key(
            bytes.subrange(35, 68),
        ) ==> (match dlc_reading(
            (bytes[0] + 256 * bytes[1]) as u16,
            bytes.skip(68),
        ) {
            Ok(Some(body)) => {
                let m = read_routed(bytes)->Ok_0;
                &&& read_routed(bytes) is Ok
                &&& m.msg_type == bytes[0] + 256 * bytes[1]
                &&& m.to == bytes.subrange(2, 35)
                &&& m.from == bytes.subrange(35, 68)
                &&& m.message.body == body
                &&& kind.spec_type_id() == m.msg_type ==> m.message.kind == kind
            },
            Ok(None) => read_routed(bytes) == Err::<RoutedMessageView, DecodeError>(
                DecodeError::InvalidValue,
            ),
            Err(e) => read_routed(bytes) == Err::<RoutedMessageView, DecodeError>(e),
        }),
{
}

/// What came out of the bytes behind a header decides: a contract message is routed
/// under the header as it stands, and anything else is an error.
pub proof fn law_headers(
    msg_type: u16,
    to: Seq<u8>,
    from: Seq<u8>,
    reading: Result<Option<Seq<u8>>, DecodeError>,
    kind: MessageKind,
)
    ensures
        (match reading {
            Ok(Some(body)) => {
                let m = routed_from_reading(msg_type, to, from, reading)->Ok_0;
                &&& routed_from_reading(msg_type, to, from, reading) is Ok
                &&& m.msg_type == msg_type
                &&& m.to == to
                &&& m.from == from
                &&& m.message.body == body
                &&& kind.spec_type_id() == msg_type ==> m.message.kind == kind
            },
            Ok(None) => routed_from_reading(msg_type, to, from, reading) == Err::<
                RoutedMessageView,
                DecodeError,
            >(DecodeError::InvalidValue),
            Err(e) => routed_from_reading(msg_type, to, from, reading) == Err::<
                RoutedMessageView,
                DecodeError,
            >(e),
        }),
{
}

/// What travels between peers has the type and the written form of what it is.
pub proof fn law_forms_between_peers(p: ProxyMessageView)
    ensures
        (match p {
            ProxyMessageView::RoutedMessage(m) => p.type_id() == 1776 && p.bytes() == m.bytes(),
            ProxyMessageView::SegmentStart(n, data) => p.type_id() == 42900 && p.bytes()
                == start_bytes(n, data),
            ProxyMessageView::SegmentChunk(data) => p.type_id() == 42902 && p.bytes()
                == bytes_field(data),
        }),
{
}

/// The type decides what bytes are read as: a first segment, a later one, or under
/// any other type a routed message. What is read, or why nothing is, is as it is for
/// each of them.
pub proof fn law_types_decide(msg_type: u16, bytes: Seq<u8>)
    ensures
        msg_type == 42900 ==> (match read_start(bytes) {
            Ok((n, data)) => read_proxy(msg_type, bytes) == Ok::<ProxyMessageView, DecodeError>(
                ProxyMessageView::SegmentStart(n, data),
            ),
            Err(e) => read_proxy(msg_type, bytes) == Err::<ProxyMessageView, DecodeError>(e),
        }),
        msg_type == 42902 ==> (match read_bytes_field(bytes) {
            Ok(data) => read_proxy(msg_type, bytes) == Ok::<ProxyMessageView, DecodeError>(
                ProxyMessageView::SegmentChunk(data),
            ),
            Err(e) => read_proxy(msg_type, bytes) == Err::<ProxyMessageView, DecodeError>(e),
        }),
        msg_type != 42900 && msg_type != 42902 ==> (match read_routed(bytes) {
            Ok(m) => read_proxy(msg_type, bytes) == Ok::<ProxyMessageView, DecodeError>(
                ProxyMessageView::RoutedMessage(m),
            ),
            Err(e) => read_proxy(msg_type, bytes) == Err::<ProxyMessageView, DecodeError>(e),
        }),
{
}

/// Every kind of contract message has the type that the protocol gives it.
pub proof fn law_kinds_have_their_types(kind: MessageKind)
    ensures
        kind == MessageKind::Offer <==> kind.spec_type_id() == 42778,
        kind == MessageKind::Accept <==> kind.spec_type_id() == 42780,
        kind == MessageKind::Sign <==> kind.spec_type_id() == 42782,
        kind == MessageKind::OfferChannel <==> kind.spec_type_id() == 43000,
        kind == MessageKind::AcceptChannel <==> kind.spec_type_id() == 43002,
        kind == MessageKind::SignChannel <==> kind.spec_type_id() == 43004,
        kind == MessageKind::SettleOffer <==> kind.spec_type_id() == 43006,
        kind == MessageKind::SettleAccept <==> kind.spec_type_id() == 43008,
        kind == MessageKind::SettleConfirm <==> kind.spec_type_id() == 43010,
        kind == MessageKind::SettleFinalize <==> kind.spec_type_id() == 43012,
        kind == MessageKind::RenewOffer <==> kind.spec_type_id() == 43014,
        kind == MessageKind::RenewAccept <==> kind.spec_type_id() == 43016,
        kind == MessageKind::RenewConfirm <==> kind.spec_type_id() == 43018,
        kind == MessageKind::RenewFinalize <==> kind.spec_type_id() == 43020,
        kind == MessageKind::CollaborativeCloseOffer <==> kind.spec_type_id() == 43022,
        kind == MessageKind::Reject <==> kind.spec_type_id() == 43024,
        kind == MessageKind::RenewRevoke <==> kind.spec_type_id() == 43026,
{
}

/// A type can be read if it is that of some kind, but for a revocation.
pub proof fn law_readable_types(kind: MessageKind, type_id: u16)
    ensures
        is_readable_type(kind.spec_type_id()) <==> kind != MessageKind::RenewRevoke,
        is_readable_type(type_id) ==> exists|k: MessageKind| #[trigger]
            k.spec_type_id() == type_id,
{
}

/// Offers, acceptances, signatures and rejections are routed under their own type,
/// and nothing else is routed.
pub proof fn law_types_to_route_under(kind: MessageKind)
    ensures
        message_type(kind) is Ok <==> kind == MessageKind::Offer || kind == MessageKind::Accept
            || kind == MessageKind::Sign || kind == MessageKind::Reject,
        message_type(kind) is Ok ==> message_type(kind)->Ok_0 == kind.spec_type_id(),
        message_type(kind) matches Err(e) ==> e.action == ErrorAction::IgnoreAndLogError && e.err
            == "Invalid message type for message."@,
{
}

/// A routed message is sound exactly if both keys are public keys, the contract
/// message reads back as itself under its own type, and is routed under that type.
pub proof fn law_sound_messages(m: RoutedMessageView)
    ensures
        m.wf() <==> {
            &&& is_public_key(m.to)
            &&& is_public_key(m.from)
            &&& m.message.kind != MessageKind::RenewRevoke
            &&& m.msg_type == m.message.kind.spec_type_id()
            &&& dlc_reading(m.msg_type, m.message.body) == Ok::<
                Option<Seq<u8>>,
                DecodeError,
            >(Some(m.message.body))
        },
{
}

/// What is too long is so by its length alone: for segments that cannot be counted,
/// and for a transport message.
pub proof fn law_limits(m: RoutedMessageView, n: u16, data: Seq<u8>)
    ensures
        m.sendable() <==> 68 + m.message.body.len() <= 4294377476,
        ProxyMessageView::RoutedMessage(m).acceptable() <==> m.sendable(),
        ProxyMessageView::SegmentStart(n, data).acceptable() <==> data.len() <= 65535,
        ProxyMessageView::SegmentChunk(data).acceptable() <==> data.len() <= 65535,
{
}

/// What a decimal notation stands for.
pub open spec fn decimal_value(digits: Seq<char>) -> int
    decreases digits.len(),
{
    if digits.len() == 0 {
        0
    } else {
        10 * decimal_value(digits.drop_last()) + (digits.last() as int - '0' as int)
    }
}

/// A number in decimal notation is digits that stand for it, without a zero in front.
pub proof fn law_decimal(n: nat)
    ensures
        decimal(n).len() >= 1,
        decimal_value(decimal(n)) == n,
        forall|i: int| 0 <= i < decimal(n).len() ==> '0' <= #[trigger] decimal(n)[i] <= '9',
        decimal(n).len() > 1 ==> decimal(n)[0] != '0',
        n > 0 ==> decimal(n)[0] != '0',
    decreases n,
{
    reveal_with_fuel(decimal_value, 2);
    if n < 10 {
        assert(decimal(n).drop_last().len() == 0);
    } else {
        law_decimal(n / 10);
        assert(decimal(n).drop_last() =~= decimal(n / 10));
    }
}

/// An error names its matter, then its cause, and disconnects the peer.
pub proof fn law_error_texts(cause: Seq<char>, matter: Seq<char>)
    ensures
        ln_error(cause, matter).err == matter + seq![' ', ':'] + cause,
        ln_error(cause, matter).action == ErrorAction::DisconnectPeer,
{
    reveal_strlit(" :");
    assert(" :"@ =~= seq![' ', ':']);
}

/// Every decode error is shown with its own text.
pub proof fn law_decode_error_texts(e: DecodeError)
    ensures
        e == DecodeError::UnknownVersion ==> decode_error_text(e)
            == "Unknown realm byte in Onion packet"@,
        e == DecodeError::UnknownRequiredFeature ==> decode_error_text(e)
            == "Unknown required feature preventing decode"@,
        e == DecodeError::InvalidValue ==> decode_error_text(e)
            == "Nonsense bytes didn't map to the type they were interpreted as"@,
        e == DecodeError::ShortRead ==> decode_error_text(e)
            == "Packet extended beyond the provided bytes"@,
        e == DecodeError::BadLengthDescriptor ==> decode_error_text(e)
            == "A length descriptor in the packet didn't describe the later data correctly"@,
        e == DecodeError::UnsupportedCompression ==> decode_error_text(e)
            == "We don't support receiving messages with zlib-compressed fields"@,
        e == DecodeError::DangerousValue ==> decode_error_text(e)
            == "Value would be dangerous to continue execution with"@,
{
}

/// The text of a refused segment says what is wrong, and then in which way.
pub proof fn law_refusal_texts(e: SegmentError)
    ensures
        (match e {
            SegmentError::InvalidState(s) => e@.text() == "Invalid state "@ + s@,
            SegmentError::InvalidParameter(s) => e@.text() == "Invalid parameters were provided: "@
                + s@,
        }),
{
}

/// The view of an error shows its text and what is to be done.
pub proof fn law_view_of_error(e: LightningError)
    ensures
        e@.err == e.err@,
        e@.action == e.action,
{
}

} // verus!
