use bitcoin::secp256k1::PublicKey;
use city_tavern::city_tavern::{
    CityTavern, DlcResponse, ListenAction, ListenEvent, NodeSeeds, ProcessAction, ProcessEvent,
    TavernError,
};
use city_tavern::dlc::{Message, MessageKind};
use city_tavern::node::NodeId;
use city_tavern::routed_message::{ProxyMessage, RoutedMessage};
use lightning::sign::{KeysManager, NodeSigner, Recipient};

const TIME: u32 = 1_700_000_000;

fn tavern(seed: Option<&[u8; 32]>, port: u16, proxy: Option<NodeId>, time: u32) -> CityTavern {
    match CityTavern::new(seed, port, proxy, time) {
        Ok(tavern) => tavern,
        Err(e) => panic!("{:?}", e),
    }
}

#[test]
fn seed_gives_the_identity() {
    let seed = [42u8; 32];
    let one = tavern(Some(&seed), 1776, None, TIME);
    let other = tavern(Some(&seed), 1778, Some(one.public_key()), TIME + 1);
    assert_eq!(one.public_key(), other.public_key());
    assert_eq!(one.seeds.seed_bytes, seed);
    assert_eq!((one.listening_port, other.listening_port), (1776, 1778));
    let expected: PublicKey =
        KeysManager::new(&seed, 1, 1).get_node_id(Recipient::Node).unwrap();
    assert_eq!(one.public_key().bytes, expected.serialize());
    assert_eq!(NodeId::from_bytes(&one.public_key().bytes), Some(one.public_key()));
    assert_eq!(one.name(), "city-tavern");
}

#[test]
fn random_seeds_differ() {
    let one = tavern(None, 1776, None, TIME);
    let other = tavern(None, 1776, None, TIME);
    assert_ne!(one.public_key(), other.public_key());
    let drawn = NodeSeeds::draw(Some(&[1u8; 32])).ok().unwrap();
    assert_eq!(drawn.seed_bytes, [1u8; 32]);
    assert_ne!(drawn.ephemeral_bytes, NodeSeeds::draw(None).ok().unwrap().ephemeral_bytes);
    assert_ne!(TavernError::Seed, TavernError::Entropy);
}

#[test]
fn draws_go_where_they_belong() {
    let given = NodeSeeds::from_draws(Some(&[1u8; 32]), [2u8; 32], [3u8; 32]);
    assert_eq!((given.seed_bytes, given.ephemeral_bytes), ([1u8; 32], [3u8; 32]));
    let drawn = NodeSeeds::from_draws(None, [2u8; 32], [3u8; 32]);
    assert_eq!((drawn.seed_bytes, drawn.ephemeral_bytes), ([2u8; 32], [3u8; 32]));
    let started = CityTavern::start(drawn, 1781, None, TIME).ok().unwrap();
    assert_eq!(started.seeds.seed_bytes, [2u8; 32]);
    assert_eq!(started.public_key(), tavern(Some(&[2u8; 32]), 1, None, 0).public_key());
    assert!(started.midnight_rider.is_proxy_node());
}

#[test]
fn rejection_is_sent_back() {
    let mut proxy = tavern(None, 1781, None, TIME);
    let peer = tavern(None, 1776, Some(proxy.public_key()), TIME).public_key();
    let accept = RoutedMessage {
        msg_type: 42780,
        to: proxy.public_key(),
        from: peer,
        message: Message { kind: MessageKind::Accept, body: vec![1] },
    };
    let reject = Message { kind: MessageKind::Reject, body: vec![0; 32] };
    proxy.handle_response(&accept, DlcResponse::Reply(reject.clone()));
    let expected = RoutedMessage {
        msg_type: 43024,
        to: peer,
        from: proxy.public_key(),
        message: reject,
    };
    assert_eq!(RoutedMessage::read(&expected.encode()), Ok(expected.clone()));
    let pending = proxy.midnight_rider.get_and_clear_pending_msg();
    assert!(pending == vec![(peer, ProxyMessage::RoutedMessage(expected))]);
}

#[test]
fn from_seeds_takes_the_seeds_over() {
    let seeds = NodeSeeds { seed_bytes: [3u8; 32], ephemeral_bytes: [4u8; 32] };
    let started = CityTavern::from_seeds(seeds, 1781, None, TIME).ok().unwrap();
    assert_eq!(started.seeds.ephemeral_bytes, [4u8; 32]);
    assert_eq!(started.public_key(), tavern(Some(&[3u8; 32]), 1, None, 0).public_key());
}

#[test]
fn without_a_proxy_it_is_one() {
    let proxy = tavern(None, 1776, None, TIME);
    assert!(proxy.midnight_rider.is_proxy_node());
    let peer = tavern(None, 1777, Some(proxy.public_key()), TIME);
    assert!(!peer.midnight_rider.is_proxy_node());
    let itself = tavern(Some(&[9u8; 32]), 1778, None, TIME).public_key();
    assert!(tavern(Some(&[9u8; 32]), 1778, Some(itself), TIME).midnight_rider.is_proxy_node());
}

#[test]
fn listen_steps() {
    let tavern = tavern(None, 1776, None, TIME);
    assert_eq!(tavern.listen(ListenEvent::StopChanged(true)), ListenAction::Stop);
    assert_eq!(tavern.listen(ListenEvent::StopChanged(false)), ListenAction::Wait);
    assert_eq!(tavern.listen(ListenEvent::Accepted), ListenAction::SetUpInbound);
    assert_eq!(tavern.listen(ListenEvent::AcceptFailed), ListenAction::LogFailure);
}

#[test]
fn process_steps() {
    let mut tavern = tavern(None, 1776, None, TIME);
    let me = tavern.public_key();
    let peer = self::tavern(None, 1777, Some(me), TIME).public_key();
    assert!(matches!(tavern.process_messages(ProcessEvent::StopChanged(true)), ProcessAction::Stop));
    assert!(matches!(tavern.process_messages(ProcessEvent::StopChanged(false)), ProcessAction::Wait));
    assert!(matches!(tavern.process_messages(ProcessEvent::ProcessTick), ProcessAction::Wait));
    let message = RoutedMessage {
        msg_type: 42778,
        to: me,
        from: peer,
        message: Message { kind: MessageKind::Offer, body: vec![1] },
    };
    tavern.midnight_rider.handle_routed_message(message.clone(), &peer).unwrap();
    match tavern.process_messages(ProcessEvent::MessageTick) {
        ProcessAction::Deliver(messages) => assert_eq!(messages, vec![(peer, message.clone())]),
        _ => panic!("nothing delivered"),
    }
    match tavern.process_messages(ProcessEvent::MessageTick) {
        ProcessAction::Deliver(messages) => assert!(messages.is_empty()),
        _ => panic!("nothing delivered"),
    }

    tavern.handle_response(&message, DlcResponse::NoReply);
    tavern.handle_response(&message, DlcResponse::Failed);
    assert!(matches!(tavern.process_messages(ProcessEvent::ProcessTick), ProcessAction::Wait));
    let reply = Message { kind: MessageKind::Accept, body: vec![2] };
    tavern.handle_response(&message, DlcResponse::Reply(reply.clone()));
    assert!(matches!(
        tavern.process_messages(ProcessEvent::ProcessTick),
        ProcessAction::ProcessEvents
    ));
    let pending = tavern.midnight_rider.get_and_clear_pending_msg();
    assert_eq!(pending.len(), 1);
    let expected = RoutedMessage { msg_type: 42780, to: peer, from: me, message: reply };
    assert!(pending[0] == (peer, ProxyMessage::RoutedMessage(expected)));
}

#[test]
fn messages_leave_through_the_proxy() {
    let proxy = tavern(None, 1781, None, TIME);
    let mut alice = tavern(None, 1776, Some(proxy.public_key()), TIME);
    let bob = tavern(None, 1778, Some(proxy.public_key()), TIME);
    let signed = Message { kind: MessageKind::Sign, body: vec![5; 10] };
    alice.send_message(bob.public_key(), signed.clone());
    let pending = alice.midnight_rider.get_and_clear_pending_msg();
    let expected = RoutedMessage {
        msg_type: 42782,
        to: bob.public_key(),
        from: alice.public_key(),
        message: signed,
    };
    assert!(pending == vec![(proxy.public_key(), ProxyMessage::RoutedMessage(expected))]);
}
