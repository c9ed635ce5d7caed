use bitcoin::secp256k1::PublicKey;
use city_tavern::dlc::{
    message_to_message_type, Message, MessageKind, ACCEPT_TYPE, OFFER_TYPE, REJECT,
    RENEW_CHANNEL_REVOKE_TYPE, SIGN_TYPE,
};
use city_tavern::errors::{decimal_string, to_ln_error, DecodeError, ErrorAction};
use city_tavern::midnight_rider::{MidnightRider, MAX_BUF_SIZE};
use city_tavern::node::{NodeId, NodeMap};
use city_tavern::routed_message::{ProxyMessage, RoutedMessage, ROUTED_MESSAGE_TYPE_ID};
use city_tavern::segmentation::{
    SegmentChunk, SegmentError, SegmentStart, SEGMENT_CHUNK_TYPE, SEGMENT_START_TYPE,
};
use dlc_messages::segmentation;
use lightning::io::Cursor;
use lightning::util::ser::{Readable, Writeable};

/// The compressed form of the key of a small secret.
fn key(secret: u8) -> [u8; 33] {
    let secp = bitcoin::secp256k1::Secp256k1::new();
    let mut bytes = [0u8; 32];
    bytes[31] = secret;
    let secret = bitcoin::secp256k1::SecretKey::from_slice(&bytes).unwrap();
    PublicKey::from_secret_key(&secp, &secret).serialize()
}

fn node(secret: u8) -> NodeId {
    NodeId::from_bytes(&key(secret)).unwrap()
}

fn rejection(to: NodeId, from: NodeId) -> RoutedMessage {
    RoutedMessage {
        msg_type: REJECT,
        to,
        from,
        message: Message { kind: MessageKind::Reject, body: vec![7u8; 32] },
    }
}

#[test]
fn generator_is_a_node() {
    let mut bytes = [
        0x02u8, 0x79, 0xbe, 0x66, 0x7e, 0xf9, 0xdc, 0xbb, 0xac, 0x55, 0xa0, 0x62, 0x95, 0xce, 0x87,
        0x0b, 0x07, 0x02, 0x9b, 0xfc, 0xdb, 0x2d, 0xce, 0x28, 0xd9, 0x59, 0xf2, 0x81, 0x5b, 0x16,
        0xf8, 0x17, 0x98,
    ];
    assert_eq!(key(1), bytes);
    assert_eq!(NodeId::from_bytes(&bytes).unwrap().bytes, bytes);
    bytes[0] = 0x03;
    assert_eq!(NodeId::from_bytes(&bytes).unwrap().bytes, bytes);
    bytes[0] = 0x05;
    assert!(NodeId::from_bytes(&bytes).is_none());
    assert!(NodeId::from_bytes(&[0xffu8; 33]).is_none());
    assert!(NodeId::from_bytes(&[0u8; 33]).is_none());
    // The curve has a point at 1 and none at 5.
    let mut small = [0u8; 33];
    small[0] = 0x02;
    small[32] = 1;
    assert!(NodeId::from_bytes(&small).is_some());
    small[32] = 5;
    assert!(NodeId::from_bytes(&small).is_none());
    // One more than the order of the field is not taken for 1.
    let mut wrapped = [0xffu8; 33];
    wrapped[0] = 0x02;
    wrapped[28..].copy_from_slice(&[0xfe, 0xff, 0xff, 0xfc, 0x30]);
    assert!(NodeId::from_bytes(&wrapped).is_none());
}

#[test]
fn same_compares_all_bytes() {
    assert!(node(1).same(&node(1)));
    assert!(!node(1).same(&node(2)));
    let mut other = node(1);
    other.bytes[32] ^= 1;
    assert!(!other.same(&node(1)));
}

#[test]
fn node_map_holds_one_value_for_each_node() {
    let mut map: NodeMap<u8> = NodeMap::new();
    assert!(!map.contains_key(&node(1)));
    map.insert(&node(1), 10);
    map.insert(&node(2), 20);
    map.insert(&node(1), 11);
    assert!(map.contains_key(&node(1)));
    assert_eq!(map.remove(&node(1)), Some(11));
    assert_eq!(map.remove(&node(1)), None);
    assert!(map.contains_key(&node(2)));
    assert_eq!(map.remove(&node(2)), Some(20));
}

#[test]
fn routed_message_layout() {
    let m = rejection(node(1), node(2));
    let bytes = m.encode();
    assert_eq!(bytes.len(), 100);
    assert_eq!(m.serialized_length(), 100);
    assert_eq!(bytes[0..2], REJECT.to_le_bytes());
    assert_eq!(bytes[0..2], [0x10, 0xa8]);
    assert_eq!(bytes[2..35], key(1));
    assert_eq!(bytes[35..68], key(2));
    assert_eq!(bytes[68..100], [7u8; 32]);
    assert_eq!(m.type_id(), 1776);
    let mut out = vec![1u8, 2];
    m.write(&mut out);
    assert_eq!(out[0..2], [1, 2]);
    assert_eq!(out[2..], bytes[..]);
}

#[test]
fn routed_message_round_trip() {
    let m = rejection(node(1), node(2));
    assert_eq!(RoutedMessage::read(&m.encode()), Ok(m.clone()));
    let mut longer = m.encode();
    longer.push(9);
    assert_eq!(RoutedMessage::read(&longer), Ok(m));
}

#[test]
fn routed_message_errors() {
    let bytes = rejection(node(1), node(2)).encode();
    for len in 0..100 {
        assert_eq!(RoutedMessage::read(&bytes[..len]), Err(DecodeError::ShortRead), "at {}", len);
    }
    let mut bad_to = bytes.clone();
    bad_to[2] = 0;
    assert_eq!(RoutedMessage::read(&bad_to[..35]), Err(DecodeError::InvalidValue));
    let mut bad_from = bytes.clone();
    bad_from[35] = 0;
    assert_eq!(RoutedMessage::read(&bad_from[..68]), Err(DecodeError::InvalidValue));
    let mut unknown = bytes.clone();
    unknown[0] = 1;
    unknown[1] = 0;
    assert_eq!(RoutedMessage::read(&unknown), Err(DecodeError::InvalidValue));
    // A revocation can be written and not read.
    let mut revoke = bytes.clone();
    revoke[0..2].copy_from_slice(&RENEW_CHANNEL_REVOKE_TYPE.to_le_bytes());
    assert_eq!(RoutedMessage::read(&revoke), Err(DecodeError::InvalidValue));
    // An offer whose contract information has an unknown kind.
    let mut offer = bytes[..68].to_vec();
    offer[0..2].copy_from_slice(&OFFER_TYPE.to_le_bytes());
    offer.extend(vec![0u8; 69]);
    offer.push(9);
    assert_eq!(RoutedMessage::read(&offer), Err(DecodeError::UnknownRequiredFeature));
}

#[test]
fn from_reading_takes_the_outcome_over() {
    let (to, from) = (node(1), node(2));
    let read = RoutedMessage::from_reading(REJECT, to, from, Ok(Some(vec![7u8; 32])));
    assert_eq!(read, Ok(rejection(to, from)));
    let none = RoutedMessage::from_reading(REJECT, to, from, Ok(None));
    assert_eq!(none, Err(DecodeError::InvalidValue));
    let failed = RoutedMessage::from_reading(REJECT, to, from, Err(DecodeError::ShortRead));
    assert_eq!(failed, Err(DecodeError::ShortRead));
}

#[test]
fn constants_are_those_of_the_protocol() {
    assert_eq!(SEGMENT_START_TYPE, segmentation::SEGMENT_START_TYPE);
    assert_eq!(SEGMENT_CHUNK_TYPE, segmentation::SEGMENT_CHUNK_TYPE);
    assert_eq!(MAX_BUF_SIZE, lightning::util::ser::MAX_BUF_SIZE);
    assert_eq!(OFFER_TYPE, dlc_messages::OFFER_TYPE);
    assert_eq!(ACCEPT_TYPE, dlc_messages::ACCEPT_TYPE);
    assert_eq!(SIGN_TYPE, dlc_messages::SIGN_TYPE);
    assert_eq!(REJECT, dlc_messages::REJECT);
    assert_eq!(ROUTED_MESSAGE_TYPE_ID, 1776);
    let ids = [
        (MessageKind::OfferChannel, dlc_messages::OFFER_CHANNEL_TYPE),
        (MessageKind::AcceptChannel, dlc_messages::ACCEPT_CHANNEL_TYPE),
        (MessageKind::SignChannel, dlc_messages::SIGN_CHANNEL_TYPE),
        (MessageKind::SettleOffer, dlc_messages::SETTLE_CHANNEL_OFFER_TYPE),
        (MessageKind::SettleAccept, dlc_messages::SETTLE_CHANNEL_ACCEPT_TYPE),
        (MessageKind::SettleConfirm, dlc_messages::SETTLE_CHANNEL_CONFIRM_TYPE),
        (MessageKind::SettleFinalize, dlc_messages::SETTLE_CHANNEL_FINALIZE_TYPE),
        (MessageKind::RenewOffer, dlc_messages::RENEW_CHANNEL_OFFER_TYPE),
        (MessageKind::RenewAccept, dlc_messages::RENEW_CHANNEL_ACCEPT_TYPE),
        (MessageKind::RenewConfirm, dlc_messages::RENEW_CHANNEL_CONFIRM_TYPE),
        (MessageKind::RenewFinalize, dlc_messages::RENEW_CHANNEL_FINALIZE_TYPE),
        (MessageKind::RenewRevoke, dlc_messages::RENEW_CHANNEL_REVOKE_TYPE),
        (MessageKind::CollaborativeCloseOffer, dlc_messages::COLLABORATIVE_CLOSE_OFFER_TYPE),
    ];
    for (kind, id) in ids {
        assert_eq!(kind.type_id(), id);
        assert_eq!(MessageKind::from_type_id(id), Some(kind));
    }
    assert_eq!(MessageKind::from_type_id(OFFER_TYPE), Some(MessageKind::Offer));
    assert_eq!(MessageKind::from_type_id(ROUTED_MESSAGE_TYPE_ID), None);
}

#[test]
fn message_types() {
    let typed = |kind| message_to_message_type(&Message { kind, body: vec![] });
    assert_eq!(typed(MessageKind::Offer), Ok(42778));
    assert_eq!(typed(MessageKind::Accept), Ok(42780));
    assert_eq!(typed(MessageKind::Sign), Ok(42782));
    assert_eq!(typed(MessageKind::Reject), Ok(43024));
    let refused = typed(MessageKind::SettleOffer).unwrap_err();
    assert_eq!(refused.err, "Invalid message type for message.");
    assert_eq!(refused.action, ErrorAction::IgnoreAndLogError);
    assert!(typed(MessageKind::OfferChannel).is_err());
}

#[test]
fn segments_are_written_as_the_protocol_writes_them() {
    for len in [0usize, 1, 2, 300, 65534, 65535, 65536, 70000] {
        let data: Vec<u8> = (0..len).map(|i| i as u8).collect();
        let start = SegmentStart { nb_segments: 513, data: data.clone() };
        let chunk = SegmentChunk { data: data.clone() };
        let outside_start = segmentation::SegmentStart { nb_segments: 513, data: data.clone() };
        let outside_chunk = segmentation::SegmentChunk { data: data.clone() };
        assert_eq!(start.encode(), outside_start.encode());
        assert_eq!(chunk.encode(), outside_chunk.encode());
        assert_eq!(SegmentStart::read(&start.encode()), Ok(start));
        assert_eq!(SegmentChunk::read(&chunk.encode()), Ok(chunk));
    }
    let small = SegmentStart { nb_segments: 258, data: vec![9, 8] };
    assert_eq!(small.encode(), vec![1, 2, 0, 2, 9, 8]);
}

#[test]
fn segments_are_read_as_the_protocol_reads_them() {
    let cases: Vec<Vec<u8>> = vec![
        vec![],
        vec![0],
        vec![0, 2],
        vec![0, 2, 0],
        vec![0, 2, 0, 1],
        vec![0, 2, 0, 1, 5],
        vec![0, 2, 0, 1, 5, 6],
        vec![0, 2, 0xff, 0xff],
        vec![0, 2, 0xff, 0xff, 0, 0, 0, 0, 0, 0, 0],
        vec![0, 2, 0xff, 0xff, 0, 0, 0, 0, 0, 0, 0, 1],
        vec![0, 2, 0xff, 0xff, 0xff, 0xff, 0xff, 0xff, 0xff, 0xff, 0xff, 0xff],
        vec![0xff, 0xff, 0xff, 0xff, 0xff, 0xff, 0xff, 0xff, 0xff, 0xff, 0, 0],
    ];
    for bytes in cases {
        let ours = SegmentStart::read(&bytes);
        let theirs = segmentation::SegmentStart::read(&mut Cursor::new(&bytes));
        match (ours, theirs) {
            (Ok(a), Ok(b)) => assert_eq!((a.nb_segments, a.data), (b.nb_segments, b.data)),
            (Err(a), Err(b)) => assert_eq!(a.text(), format!("{}", b)),
            _ => panic!("{:?}", bytes),
        }
        let ours = SegmentChunk::read(&bytes);
        let theirs = segmentation::SegmentChunk::read(&mut Cursor::new(&bytes));
        match (ours, theirs) {
            (Ok(a), Ok(b)) => assert_eq!(a.data, b.data),
            (Err(a), Err(b)) => assert_eq!(a.text(), format!("{}", b)),
            _ => panic!("{:?}", bytes),
        }
    }
    let overflow = vec![0, 2, 0xff, 0xff, 0xff, 0xff, 0xff, 0xff, 0xff, 0xff, 0xff, 0xff];
    assert_eq!(SegmentStart::read(&overflow), Err(DecodeError::InvalidValue));
    assert_eq!(SegmentChunk::read(&[0u8]), Err(DecodeError::ShortRead));
}

#[test]
fn proxy_messages_by_type() {
    let m = ProxyMessage::RoutedMessage(rejection(node(1), node(2)));
    let start = ProxyMessage::SegmentStart(SegmentStart { nb_segments: 2, data: vec![1] });
    let chunk = ProxyMessage::SegmentChunk(SegmentChunk { data: vec![2, 3] });
    assert_eq!((m.type_id(), start.type_id(), chunk.type_id()), (1776, 42900, 42902));
    assert_eq!(m.name(), "RoutedMessage");
    assert_eq!(start.name(), "SegmentStart");
    assert_eq!(chunk.name(), "SegmentChunk");
    let rider = MidnightRider::new(node(1), node(1));
    for p in [m.clone(), start, chunk] {
        assert!(p.is_acceptable());
        let read = rider.read(p.type_id(), &p.encode()).unwrap().unwrap();
        assert!(read == p);
    }
    // Every other type is read as a routed message.
    assert!(rider.read(3, &m.encode()).unwrap().unwrap() == m);
    assert!(matches!(rider.read(1776, &[]), Err(DecodeError::ShortRead)));
    let long = ProxyMessage::SegmentChunk(SegmentChunk { data: vec![0; 65536] });
    assert!(!long.is_acceptable());
}

#[test]
fn error_texts() {
    assert_eq!(decimal_string(0), "0");
    assert_eq!(decimal_string(9), "9");
    assert_eq!(decimal_string(10), "10");
    assert_eq!(decimal_string(42902), "42902");
    assert_eq!(decimal_string(65535), "65535");
    let e = to_ln_error("cause", "matter");
    assert_eq!(e.err, "matter :cause");
    assert_eq!(e.action, ErrorAction::DisconnectPeer);
    let pairs = [
        (DecodeError::UnknownVersion, lightning::ln::msgs::DecodeError::UnknownVersion),
        (
            DecodeError::UnknownRequiredFeature,
            lightning::ln::msgs::DecodeError::UnknownRequiredFeature,
        ),
        (DecodeError::InvalidValue, lightning::ln::msgs::DecodeError::InvalidValue),
        (DecodeError::ShortRead, lightning::ln::msgs::DecodeError::ShortRead),
        (DecodeError::BadLengthDescriptor, lightning::ln::msgs::DecodeError::BadLengthDescriptor),
        (
            DecodeError::UnsupportedCompression,
            lightning::ln::msgs::DecodeError::UnsupportedCompression,
        ),
        (DecodeError::DangerousValue, lightning::ln::msgs::DecodeError::DangerousValue),
    ];
    for (ours, theirs) in pairs {
        assert_eq!(ours.text(), format!("{}", theirs));
    }
    let state = SegmentError::InvalidState("s".to_string());
    let parameter = SegmentError::InvalidParameter("p".to_string());
    assert_eq!(state.text(), "Invalid state s");
    assert_eq!(parameter.text(), "Invalid parameters were provided: p");
}
