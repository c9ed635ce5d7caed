use bitcoin::hex::FromHex;
use bitcoin::key::XOnlyPublicKey;
use bitcoin::secp256k1::{schnorr, PublicKey, Secp256k1, SecretKey};
use bitcoin::ScriptBuf;
use city_tavern::city_tavern::CityTavern;
use city_tavern::dlc::{Message, MessageKind, ACCEPT_TYPE, OFFER_TYPE, REJECT, SIGN_TYPE};
use city_tavern::errors::{DecodeError, ErrorAction, LightningError};
use city_tavern::midnight_rider::{MidnightRider, MAX_BUF_SIZE};
use city_tavern::node::{NodeId, NodeMap};
use city_tavern::relay::event_handler;
use city_tavern::routed_message::{ProxyMessage, RoutedMessage, HEADER_SIZE};
use city_tavern::segmentation::{
    SegmentChunk, SegmentStart, MAX_CHUNK_SIZE, MAX_SEGMENTS, MAX_START_DATA_SIZE,
};
use dlc_messages::contract_msgs::{
    ContractDescriptor, ContractInfo, ContractInfoInner, ContractOutcome,
    EnumeratedContractDescriptor, SingleContractInfo,
};
use dlc_messages::oracle_msgs::{
    EnumEventDescriptor, EventDescriptor, OracleAnnouncement, OracleEvent, OracleInfo,
    SingleOracleInfo,
};
use dlc_messages::OfferDlc;
use lightning::util::ser::Writeable;

const TIME: u32 = 1_700_000_000;

fn public_key(secret: u8) -> PublicKey {
    let mut bytes = [0u8; 32];
    bytes[31] = secret;
    PublicKey::from_secret_key(&Secp256k1::new(), &SecretKey::from_slice(&bytes).unwrap())
}

fn node(secret: u8) -> NodeId {
    NodeId::from_bytes(&public_key(secret).serialize()).unwrap()
}

fn hex(text: &str) -> Vec<u8> {
    Vec::<u8>::from_hex(text).unwrap()
}

/// The acceptance of an offer with a number of adaptor signatures, as it stands on
/// the wire.
fn accept_body(signatures: u16) -> Vec<u8> {
    let prev_tx = hex("020000000001010000000000000000000000000000000000000000000000000000000000000000ffffffff03510101ffffffff0200f2052a01000000160014fa629251f1e2819891505a9bb0c37997cd21aa9e0000000000000000266a24aa21a9ede2f61c3f71d1defd3fa999dfa36953755c690689799962b48bebd836974e8cf90120000000000000000000000000000000000000000000000000000000000000000000000000");
    let signature = hex("0303c51491301f4170485c54bceee3e51a39615afe352c4fd9fc49ad20ed468cd403318b163b5a211bffb354082f049a54e998944487a3eea53fd0b3fae908957e9c2b52b33c79e66dad0ea651d4653a98e53ef78226d47e6f0587fc0936eb3564616b7f459686491414cd5b8e49ec02a0de0121274890e6dad9013adf467b7bd6f8cfd52e03d5af61fb6bee8add25ced626fc74651dad8bfbb1651cb208c8408aef");
    assert_eq!(signature.len(), 162);
    assert!(prev_tx.len() < 0xfd);
    let mut out: Vec<u8> = Vec::new();
    out.extend(1u32.to_be_bytes());
    out.extend(hex("c9073a50b4a8c559c02d48b28d076fef3db735bab20c98ca7d7e0f6409405384"));
    out.extend(100000000u64.to_be_bytes());
    out.extend(hex("030eb98559aec1531b03397b8d045c0b5107e0c514225bae5f05f2b86d1ce03b5d"));
    out.extend(22u16.to_be_bytes());
    out.extend(hex("001422eb1cebb0aeef383c394cd9669f80ec95378a5b"));
    out.extend(152339738678655715u64.to_be_bytes());
    out.push(1);
    out.extend(7480404873312070677u64.to_be_bytes());
    out.push(prev_tx.len() as u8);
    out.extend(prev_tx);
    out.extend(0u32.to_be_bytes());
    out.extend(u32::MAX.to_be_bytes());
    out.extend(107u16.to_be_bytes());
    out.extend(0u16.to_be_bytes());
    out.extend(22u16.to_be_bytes());
    out.extend(hex("001436f54d1fa7b965c5998f41a4e41de3d1618c386d"));
    out.extend(12375127465805661256u64.to_be_bytes());
    if signatures < 0xfd {
        out.push(signatures as u8);
    } else {
        out.push(0xfd);
        out.extend(signatures.to_be_bytes());
    }
    for _ in 0..signatures {
        out.extend(signature.iter());
    }
    out.extend(hex("4fbfc6d29decfe9cff65ee2313c92499db731cf70b1ec5ac0870e9129f5e37da"));
    out.extend(hex("40c69282c66baa9f294a409a0e2a54475d3ec152f98e1a7e64e407d1ac0d2c6f"));
    out.push(0);
    out
}

/// An offer, written by the message crate.
fn offer_body() -> Vec<u8> {
    let key = XOnlyPublicKey::from(public_key(9));
    let oracle_event = OracleEvent {
        oracle_nonces: vec![XOnlyPublicKey::from(public_key(8))],
        event_maturity_epoch: 1623133104,
        event_descriptor: EventDescriptor::EnumEvent(EnumEventDescriptor {
            outcomes: vec!["rain".to_string(), "sun".to_string()],
        }),
        event_id: "weather".to_string(),
    };
    let oracle_announcement = OracleAnnouncement {
        announcement_signature: schnorr::Signature::from_slice(&[7u8; 64]).unwrap(),
        oracle_public_key: key,
        oracle_event,
    };
    let payouts = vec![
        ContractOutcome { outcome: "rain".to_string(), offer_payout: 0 },
        ContractOutcome { outcome: "sun".to_string(), offer_payout: 200000000 },
    ];
    let contract_info = ContractInfo::SingleContractInfo(SingleContractInfo {
        total_collateral: 200000000,
        contract_info: ContractInfoInner {
            contract_descriptor: ContractDescriptor::EnumeratedContractDescriptor(
                EnumeratedContractDescriptor { payouts },
            ),
            oracle_info: OracleInfo::Single(SingleOracleInfo { oracle_announcement }),
        },
    });
    OfferDlc {
        protocol_version: 1,
        contract_flags: 0,
        chain_hash: [6u8; 32],
        temporary_contract_id: [0x12u8; 32],
        contract_info,
        funding_pubkey: public_key(7),
        payout_spk: ScriptBuf::from_bytes(vec![0, 20]),
        payout_serial_id: 1,
        offer_collateral: 100000000,
        funding_inputs: vec![],
        change_spk: ScriptBuf::from_bytes(vec![]),
        change_serial_id: 2,
        fund_output_serial_id: 3,
        fee_rate_per_vb: 2,
        cet_locktime: 100,
        refund_locktime: 200,
    }
    .encode()
}

fn routed(kind: MessageKind, body: Vec<u8>, to: NodeId, from: NodeId) -> RoutedMessage {
    RoutedMessage { msg_type: kind.type_id(), to, from, message: Message { kind, body } }
}

fn tavern(port: u16, proxy: Option<NodeId>) -> CityTavern {
    match CityTavern::new(None, port, proxy, TIME) {
        Ok(tavern) => tavern,
        Err(e) => panic!("{:?}", e),
    }
}

/// Hands everything that is queued at `from` to `to`, over the wire. Returns the
/// number of transport messages.
fn carry(from: &mut MidnightRider, from_id: NodeId, to: &mut MidnightRider, to_id: NodeId) -> usize {
    let pending = from.get_and_clear_pending_msg();
    assert!(!from.has_pending_messages());
    let count = pending.len();
    for (peer, message) in pending {
        assert_eq!(peer, to_id);
        let bytes = message.encode();
        let read = to.read(message.type_id(), &bytes).unwrap().unwrap();
        assert!(read == message);
        assert!(read.is_acceptable());
        to.handle_custom_message(read, &from_id).unwrap();
    }
    count
}

fn refused(r: Result<(), LightningError>, text: &str) {
    let e = r.unwrap_err();
    assert_eq!(e.err, text);
    assert_eq!(e.action, ErrorAction::DisconnectPeer);
}

#[test]
fn accept() {
    let mut proxy = tavern(1781, None);
    let mut alice = tavern(1776, Some(proxy.public_key()));
    let mut bob = tavern(1778, Some(proxy.public_key()));
    let (p, a, b) = (proxy.public_key(), alice.public_key(), bob.public_key());
    assert!(proxy.midnight_rider.is_proxy_node());
    assert!(!alice.midnight_rider.is_proxy_node());
    proxy.midnight_rider.peer_connected(&a).unwrap();
    proxy.midnight_rider.peer_connected(&b).unwrap();
    alice.midnight_rider.peer_connected(&p).unwrap();
    bob.midnight_rider.peer_connected(&p).unwrap();

    let accept_msg = routed(MessageKind::Accept, accept_body(480), b, a);
    assert_eq!(accept_msg.msg_type, ACCEPT_TYPE);
    assert_eq!(RoutedMessage::read(&accept_msg.encode()), Ok(accept_msg.clone()));
    alice.midnight_rider.send_to_next_hop(accept_msg.clone());
    let sent = carry(&mut alice.midnight_rider, a, &mut proxy.midnight_rider, p);
    assert_eq!(sent, 2);

    // no messages on proxy
    let msgs = proxy.midnight_rider.get_and_clear_received_messages();
    assert!(msgs.len() == 0);
    let passed_on = carry(&mut proxy.midnight_rider, p, &mut bob.midnight_rider, b);
    assert_eq!(passed_on, 2);

    let bob_msgs = bob.midnight_rider.get_and_clear_received_messages();
    assert!(bob_msgs.len() > 0);
    assert_eq!(bob_msgs, vec![(a, accept_msg)]);
    assert!(!bob.midnight_rider.has_pending_messages());
    assert!(bob.midnight_rider.get_and_clear_received_messages().is_empty());
}

#[test]
fn offer() {
    let mut proxy = tavern(1781, None);
    let mut alice = tavern(1776, Some(proxy.public_key()));
    let mut bob = tavern(1778, Some(proxy.public_key()));
    let (p, a, b) = (proxy.public_key(), alice.public_key(), bob.public_key());
    proxy.midnight_rider.peer_connected(&a).unwrap();
    proxy.midnight_rider.peer_connected(&b).unwrap();

    let offer_msg = routed(MessageKind::Offer, offer_body(), p, a);
    assert_eq!(offer_msg.msg_type, OFFER_TYPE);
    alice.midnight_rider.send_to_next_hop(offer_msg.clone());
    let sent = carry(&mut alice.midnight_rider, a, &mut proxy.midnight_rider, p);
    assert_eq!(sent, 1);

    // the proxy receives the offer and does not send message
    let msgs = proxy.midnight_rider.get_and_clear_received_messages();
    assert!(msgs.len() > 0);
    assert_eq!(msgs, vec![(a, offer_msg)]);
    let passed_on = carry(&mut proxy.midnight_rider, p, &mut bob.midnight_rider, b);
    assert_eq!(passed_on, 0);

    let bob_msgs = bob.midnight_rider.get_and_clear_received_messages();
    assert!(bob_msgs.len() == 0);
}

#[test]
fn reply_travels_back_through_the_proxy() {
    let mut proxy = MidnightRider::new(node(1), node(1));
    let mut alice = MidnightRider::new(node(1), node(2));
    proxy.peer_connected(&node(2)).unwrap();
    let reply = routed(MessageKind::Sign, vec![1, 2, 3], node(2), node(1));
    assert_eq!(reply.msg_type, SIGN_TYPE);
    // The proxy hands a message for a peer to that peer.
    assert_eq!(proxy.next_hop(node(2)), node(2));
    assert_eq!(alice.next_hop(node(3)), node(1));
    proxy.send_to_next_hop(reply.clone());
    for (peer, message) in proxy.get_and_clear_pending_msg() {
        assert_eq!(peer, node(2));
        alice.handle_custom_message(message, &node(1)).unwrap();
    }
    assert_eq!(alice.get_and_clear_received_messages(), vec![(node(1), reply)]);
}

#[test]
fn dropped_if_the_receiver_is_not_connected() {
    let mut proxy = MidnightRider::new(node(1), node(1));
    let m = routed(MessageKind::Reject, vec![7; 32], node(3), node(2));
    proxy.handle_routed_message(m.clone(), &node(2)).unwrap();
    assert!(!proxy.has_pending_messages());
    assert!(proxy.get_and_clear_received_messages().is_empty());
    proxy.peer_connected(&node(3)).unwrap();
    proxy.peer_connected(&node(3)).unwrap();
    proxy.handle_routed_message(m.clone(), &node(2)).unwrap();
    let pending = proxy.get_and_clear_pending_msg();
    assert_eq!(pending.len(), 1);
    assert!(pending[0] == (node(3), ProxyMessage::RoutedMessage(m.clone())));
    proxy.peer_disconnected(&node(3));
    proxy.handle_routed_message(m, &node(2)).unwrap();
    assert!(!proxy.has_pending_messages());
}

#[test]
fn passed_on_though_the_sender_is_another() {
    let mut proxy = MidnightRider::new(node(1), node(1));
    proxy.peer_connected(&node(3)).unwrap();
    let m = routed(MessageKind::Reject, vec![7; 32], node(3), node(2));
    proxy.handle_routed_message(m, &node(4)).unwrap();
    assert!(proxy.has_pending_messages());
}

#[test]
fn only_the_proxy_delivers() {
    let mut alice = MidnightRider::new(node(1), node(2));
    let m = routed(MessageKind::Reject, vec![7; 32], node(2), node(3));
    alice.handle_routed_message(m.clone(), &node(3)).unwrap();
    assert!(alice.get_and_clear_received_messages().is_empty());
    alice.handle_routed_message(m.clone(), &node(1)).unwrap();
    assert_eq!(alice.get_and_clear_received_messages(), vec![(node(3), m)]);
}

#[test]
fn queue_keeps_order() {
    let mut rider = MidnightRider::new(node(1), node(2));
    let first = routed(MessageKind::Reject, vec![1; 32], node(3), node(2));
    let second = routed(MessageKind::Reject, vec![2; 32], node(3), node(2));
    rider.send_message(first.clone(), node(5));
    rider.send_message(second.clone(), node(6));
    let pending = rider.get_and_clear_pending_msg();
    assert!(
        pending
            == vec![
                (node(5), ProxyMessage::RoutedMessage(first)),
                (node(6), ProxyMessage::RoutedMessage(second)),
            ]
    );
}

#[test]
fn segments_from_the_buffer_size_on() {
    let mut rider = MidnightRider::new(node(1), node(2));
    let fits = routed(MessageKind::Accept, vec![3; MAX_BUF_SIZE - HEADER_SIZE], node(3), node(2));
    assert_eq!(fits.serialized_length(), 65536);
    rider.send_message(fits.clone(), node(1));
    let pending = rider.get_and_clear_pending_msg();
    assert_eq!(pending.len(), 1);
    assert!(pending[0].1 == ProxyMessage::RoutedMessage(fits));

    let body: Vec<u8> = (0..MAX_BUF_SIZE - HEADER_SIZE + 1).map(|i| (i % 251) as u8).collect();
    let long = routed(MessageKind::Accept, body, node(3), node(2));
    assert_eq!(long.serialized_length(), 65537);
    rider.send_message(long.clone(), node(1));
    let pending = rider.get_and_clear_pending_msg();
    assert_eq!(pending.len(), 2);
    let bytes = long.encode();
    match (&pending[0].1, &pending[1].1) {
        (ProxyMessage::SegmentStart(start), ProxyMessage::SegmentChunk(chunk)) => {
            assert_eq!(start.nb_segments, 2);
            assert_eq!(start.data.len(), 65526);
            assert_eq!(start.data[..2], [0x06, 0xf0]);
            assert_eq!(start.data[2..], bytes[..65524]);
            assert_eq!(chunk.data, bytes[65524..]);
            assert_eq!(chunk.data.len(), 13);
        }
        _ => panic!("not in segments"),
    }
    for (_, p) in &pending {
        assert!(p.encode().len() + 2 <= 65535);
    }
}

#[test]
fn full_last_chunk() {
    let mut rider = MidnightRider::new(node(1), node(2));
    let len = MAX_START_DATA_SIZE - 2 + 2 * MAX_CHUNK_SIZE;
    for (extra, segments) in [(0usize, 3u16), (1, 4)] {
        let body = vec![9u8; len + extra - HEADER_SIZE];
        rider.send_message(routed(MessageKind::Accept, body, node(3), node(2)), node(1));
        let pending = rider.get_and_clear_pending_msg();
        assert_eq!(pending.len(), segments as usize);
        match &pending[0].1 {
            ProxyMessage::SegmentStart(start) => assert_eq!(start.nb_segments, segments),
            _ => panic!("no start"),
        }
    }
}

fn start(nb_segments: u16, len: usize) -> ProxyMessage {
    ProxyMessage::SegmentStart(SegmentStart { nb_segments, data: vec![5; len] })
}

fn chunk(len: usize) -> ProxyMessage {
    ProxyMessage::SegmentChunk(SegmentChunk { data: vec![5; len] })
}

#[test]
fn segments_that_are_refused() {
    let mut rider = MidnightRider::new(node(1), node(1));
    let count = "Error processing segment start :Invalid parameters were provided: Segment start must specify at least two chunks and maximum a thousand.";
    for nb_segments in [0u16, 1, 1001, 65535] {
        refused(rider.handle_custom_message(start(nb_segments, 65526), &node(2)), count);
    }
    let short = "Error processing segment start :Invalid parameters were provided: Segment start data should be filled to its maximum capacity.";
    refused(rider.handle_custom_message(start(2, 65525), &node(2)), short);
    let stray = "Received a SegmentChunk while not expecting one.";
    refused(rider.handle_custom_message(chunk(1), &node(2)), stray);
    rider.handle_custom_message(start(1000, 65526), &node(2)).unwrap();
    let partial = "Error processing segment chunk :Invalid parameters were provided: Receive non final segment chunk that was not not filled.";
    refused(rider.handle_custom_message(chunk(65527), &node(2)), partial);
    rider.handle_custom_message(chunk(65528), &node(2)).unwrap();
    // Another peer has segments of its own.
    refused(rider.handle_custom_message(chunk(65528), &node(3)), stray);
    rider.handle_custom_message(chunk(65528), &node(2)).unwrap();
    assert!(!rider.has_pending_messages());
    assert!(rider.get_and_clear_received_messages().is_empty());
}

#[test]
fn segments_that_make_no_message() {
    let mut rider = MidnightRider::new(node(1), node(1));
    let broken = "Could not reconstruct message from segments :Nonsense bytes didn't map to the type they were interpreted as";
    rider.handle_custom_message(start(2, 65526), &node(2)).unwrap();
    refused(rider.handle_custom_message(chunk(0), &node(2)), broken);
    // The reader is idle again.
    let stray = "Received a SegmentChunk while not expecting one.";
    refused(rider.handle_custom_message(chunk(0), &node(2)), stray);

    // A segment inside segments.
    let mut data = vec![0u8; 65526];
    data[..2].copy_from_slice(&42902u16.to_be_bytes());
    let nested = ProxyMessage::SegmentStart(SegmentStart { nb_segments: 2, data });
    rider.handle_custom_message(nested, &node(2)).unwrap();
    refused(rider.handle_custom_message(chunk(0), &node(2)), "42902 :Unexpected message type");

    let reading = Err(DecodeError::ShortRead);
    refused(
        rider.handle_decoded(1776, reading, &node(2)),
        "Could not reconstruct message from segments :Packet extended beyond the provided bytes",
    );
    let m = routed(MessageKind::Reject, vec![7; 32], node(1), node(2));
    rider.handle_decoded(1776, Ok(ProxyMessage::RoutedMessage(m.clone())), &node(2)).unwrap();
    assert_eq!(rider.get_and_clear_received_messages(), vec![(node(2), m)]);
}

#[test]
fn interrupted_segments_are_forgotten() {
    let mut alice = MidnightRider::new(node(1), node(2));
    let mut proxy = MidnightRider::new(node(1), node(1));
    let long = routed(MessageKind::Accept, accept_body(480), node(1), node(2));
    let short = routed(MessageKind::Reject, vec![7; 32], node(1), node(2));
    alice.send_to_next_hop(long.clone());
    let first = alice.get_and_clear_pending_msg();
    proxy.handle_custom_message(first[0].1.clone(), &node(2)).unwrap();
    proxy
        .handle_custom_message(ProxyMessage::RoutedMessage(short.clone()), &node(2))
        .unwrap();
    refused(
        proxy.handle_custom_message(first[1].1.clone(), &node(2)),
        "Received a SegmentChunk while not expecting one.",
    );
    assert_eq!(proxy.get_and_clear_received_messages(), vec![(node(2), short)]);
    // A start that follows a start takes its place.
    proxy.handle_custom_message(first[0].1.clone(), &node(2)).unwrap();
    proxy.handle_custom_message(first[0].1.clone(), &node(2)).unwrap();
    proxy.handle_custom_message(first[1].1.clone(), &node(2)).unwrap();
    assert_eq!(proxy.get_and_clear_received_messages(), vec![(node(2), long)]);
}

#[test]
fn interleaved_segments_stay_apart() {
    let mut alice = MidnightRider::new(node(1), node(2));
    let mut bob = MidnightRider::new(node(1), node(3));
    let mut proxy = MidnightRider::new(node(1), node(1));
    let from_alice = routed(MessageKind::Accept, accept_body(480), node(1), node(2));
    let from_bob = routed(MessageKind::Accept, accept_body(470), node(1), node(3));
    alice.send_to_next_hop(from_alice.clone());
    bob.send_to_next_hop(from_bob.clone());
    let a = alice.get_and_clear_pending_msg();
    let b = bob.get_and_clear_pending_msg();
    assert_eq!((a.len(), b.len()), (2, 2));
    proxy.handle_custom_message(a[0].1.clone(), &node(2)).unwrap();
    proxy.handle_custom_message(b[0].1.clone(), &node(3)).unwrap();
    proxy.handle_custom_message(a[1].1.clone(), &node(2)).unwrap();
    proxy.handle_custom_message(b[1].1.clone(), &node(3)).unwrap();
    // A chunk too many is refused, and both messages are there.
    refused(
        proxy.handle_custom_message(b[1].1.clone(), &node(3)),
        "Received a SegmentChunk while not expecting one.",
    );
    assert_eq!(
        proxy.get_and_clear_received_messages(),
        vec![(node(2), from_alice), (node(3), from_bob)]
    );
}

#[test]
fn more_segments_than_are_put_together() {
    let mut alice = MidnightRider::new(node(1), node(2));
    let mut proxy = MidnightRider::new(node(1), node(1));
    let len = MAX_START_DATA_SIZE - 2 + MAX_SEGMENTS as usize * MAX_CHUNK_SIZE;
    let body = vec![1u8; len - HEADER_SIZE];
    alice.send_to_next_hop(routed(MessageKind::Accept, body, node(1), node(2)));
    let pending = alice.get_and_clear_pending_msg();
    assert_eq!(pending.len(), 1001);
    refused(
        proxy.handle_custom_message(pending[0].1.clone(), &node(2)),
        "Error processing segment start :Invalid parameters were provided: Segment start must specify at least two chunks and maximum a thousand.",
    );
}

#[test]
fn relay_sends_on_what_connected_peers_send() {
    let mut connected: NodeMap<bool> = NodeMap::new();
    connected.insert(&node(2), true);
    let from_two = routed(MessageKind::Reject, vec![1; 32], node(1), node(2));
    let from_three = routed(MessageKind::Reject, vec![2; 32], node(4), node(3));
    let events = vec![
        (node(2), from_two.clone()),
        (node(2), from_three.clone()),
        (node(3), from_three.clone()),
    ];
    let reports = event_handler(&node(1), events, &connected);
    assert_eq!(reports.len(), 3);
    assert_eq!((reports[0].misattributed, reports[0].for_relay), (false, true));
    assert_eq!(reports[0].forward, Some(from_two));
    assert_eq!((reports[1].misattributed, reports[1].for_relay), (true, false));
    assert_eq!(reports[1].forward, Some(from_three));
    assert_eq!((reports[2].misattributed, reports[2].for_relay), (false, false));
    assert_eq!(reports[2].forward, None);
    assert_eq!(REJECT, 43024);
}
