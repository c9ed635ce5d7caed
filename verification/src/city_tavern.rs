//! A node with its keys, and the decisions of the loops that drive it.
use crate::dlc::{message_to_message_type, message_type, Message, MessageView};
use crate::midnight_rider::{addressed, packets, received_view, MidnightRider, RiderView};
use crate::node::{is_public_key, NodeId};
use crate::routed_message::{RoutedMessage, RoutedMessageView, HEADER_SIZE};
use crate::segmentation::MAX_SEGMENTED_SIZE;
use bitcoin::bip32::Xpriv;
use bitcoin::key::rand::Fill;
use lightning::sign::{KeysManager, NodeSigner, Recipient};
use vstd::prelude::*;

verus! {

/// Why a node could not be started.
#[derive(Clone, Copy, Debug, PartialEq, Eq, Structural)]
pub enum TavernError {
    /// No random bytes could be drawn.
    Entropy,
    /// No keys can be derived from the seed.
    Seed,
    /// The keys have no node identity.
    NodeId,
}

/// The secret bytes of a node.
#[derive(Clone, Copy, PartialEq, Eq)]
pub struct NodeSeeds {
    /// The seed of the node's keys.
    pub seed_bytes: [u8; 32],
    /// The bytes that the keys of single connections are drawn from.
    pub ephemeral_bytes: [u8; 32],
}

/// Whether `bitcoin::bip32::Xpriv::new_master` derives a key from the seed.
pub uninterp spec fn is_master_seed(seed: Seq<u8>) -> bool;

/// The node identity that `lightning::sign::KeysManager` derives from a seed.
pub uninterp spec fn node_key(seed: Seq<u8>) -> Seq<u8>;

/// `try_fill` of the `rand` crate that `bitcoin` exports, on 32 bytes and the
/// generator of the thread. Nothing is claimed of the bytes, nor that they come.
#[verifier::external_body]
fn random_bytes() -> (r: Result<[u8; 32], TavernError>) {
    let mut bytes = [0u8;32];
    match bytes.try_fill(&mut bitcoin::key::rand::thread_rng()) {
        Ok(_) => Ok(bytes),
        Err(_) => Err(TavernError::Entropy),
    }
}

/// `bitcoin::bip32::Xpriv::new_master`: whether there is a master key for the
/// seed. It is claimed that this depends on the seed alone.
#[verifier::external_body]
fn has_master_key(seed: &[u8; 32]) -> (r: bool)
    ensures
        r == is_master_seed(seed@),
{
    Xpriv::new_master(bitcoin::Network::Testnet, seed).is_ok()
}

/// `lightning::sign::KeysManager::new`, and `get_node_id` of the node itself on
/// what it gives. It is claimed that there is an identity, which is a public key
/// and depends on the seed alone: the time only stirs the keys of later channels.
/// The seed must have a master key, else `new` panics. The derivation of the
/// keys below the master key has no other way out than a panic on a hash that is
/// no scalar, which is as good as impossible and which no argument tells.
#[verifier::external_body]
fn derive_node_id(seed: &[u8; 32], secs: u64, nanos: u32) -> (r: Result<NodeId, TavernError>)
    requires
        is_master_seed(seed@),
    ensures
        r is Ok,
        r->Ok_0@ == node_key(seed@),
        is_public_key(r->Ok_0@),
{
    match KeysManager::new(seed, secs, nanos).get_node_id(Recipient::Node) {
        Ok(key) => Ok(NodeId { bytes: key.serialize() }),
        Err(_) => Err(TavernError::NodeId),
    }
}

impl NodeSeeds {
    /// The seed that is given, or the bytes drawn for one, and the bytes drawn for
    /// the connections.
    pub fn from_draws(
        given: Option<&[u8; 32]>,
        drawn: [u8; 32],
        ephemeral: [u8; 32],
    ) -> (r: NodeSeeds)
        ensures
            r.ephemeral_bytes == ephemeral,
            r.seed_bytes == (match given {
                Some(seed) => *seed,
                None => drawn,
            }),
    {
        let seed_bytes: [u8; 32] = match given {
            Some(seed) => *seed,
            None => drawn,
        };
        NodeSeeds { seed_bytes, ephemeral_bytes: ephemeral }
    }

    /// The seed that is given, or a random one, and random bytes for the connections.
    pub fn draw(seed_bytes: Option<&[u8; 32]>) -> (r: Result<NodeSeeds, TavernError>)
        ensures
            (match r {
                Ok(seeds) => seed_bytes matches Some(seed) ==> seeds.seed_bytes == *seed,
                Err(e) => e == TavernError::Entropy,
            }),
    {
        let drawn: [u8; 32] = match seed_bytes {
            Some(seed) => *seed,
            None => match random_bytes() {
                Ok(bytes) => bytes,
                Err(_) => return Err(TavernError::Entropy),
            },
        };
        match random_bytes() {
            Ok(ephemeral) => Ok(NodeSeeds::from_draws(seed_bytes, drawn, ephemeral)),
            Err(_) => Err(TavernError::Entropy),
        }
    }
}

/// A node, the port that it listens on and the secrets that it was started with.
pub struct CityTavern {
    /// The routing state of the node.
    pub midnight_rider: MidnightRider,
    /// The port that the node listens on.
    pub listening_port: u16,
    /// The identity of the node.
    pub node_id: NodeId,
    /// The secrets that the node was started with.
    pub seeds: NodeSeeds,
}

/// What wakes the loop that accepts connections.
#[derive(Clone, Copy, Debug, PartialEq, Eq, Structural)]
pub enum ListenEvent {
    /// The stop signal changed to this value.
    StopChanged(bool),
    /// A connection was accepted.
    Accepted,
    /// A connection could not be accepted.
    AcceptFailed,
}

/// What the loop that accepts connections does next.
#[derive(Clone, Copy, Debug, PartialEq, Eq, Structural)]
pub enum ListenAction {
    /// End the loop.
    Stop,
    /// Wait for the next event.
    Wait,
    /// Set up the connection that was accepted.
    SetUpInbound,
    /// Log the failure.
    LogFailure,
}

/// What wakes the loop that processes messages.
#[derive(Clone, Copy, Debug, PartialEq, Eq, Structural)]
pub enum ProcessEvent {
    /// The stop signal changed to this value.
    StopChanged(bool),
    /// It is time to look at what was received.
    MessageTick,
    /// It is time to send what is queued.
    ProcessTick,
}

/// What the loop that processes messages does next.
pub enum ProcessAction {
    /// End the loop.
    Stop,
    /// Wait for the next event.
    Wait,
    /// Hand these messages to the contract manager, in this order, and its
    /// answers to [`CityTavern::handle_response`].
    Deliver(Vec<(NodeId, RoutedMessage)>),
    /// Let the peer manager send what is queued.
    ProcessEvents,
}

/// What the contract manager answers to a message.
pub enum DlcResponse {
    /// A message to send back.
    Reply(Message),
    /// Nothing is to be sent.
    NoReply,
    /// The message could not be processed.
    Failed,
}

/// A contract message from one node to another.
pub open spec fn outgoing(from: Seq<u8>, to: Seq<u8>, message: MessageView) -> RoutedMessageView {
    RoutedMessageView { msg_type: message_type(message.kind)->Ok_0, to, from, message }
}

/// Whether a contract message can be sent: it has a type to be routed under, and
/// is short enough for its segments to be counted.
pub open spec fn can_send(message: MessageView) -> bool {
    message_type(message.kind) is Ok && HEADER_SIZE + message.body.len() <= MAX_SEGMENTED_SIZE
}

impl CityTavern {
    /// The state of the node is sound, and the node routes as the one that it is.
    pub open spec fn wf(&self) -> bool {
        &&& self.midnight_rider.wf()
        &&& self.midnight_rider@.my_node_id == self.node_id@
    }

    /// The node has just been started with these seeds.
    pub open spec fn started(
        &self,
        seeds: NodeSeeds,
        listening_port: u16,
        proxy_node_id: Option<NodeId>,
    ) -> bool {
        &&& self.wf()
        &&& self.seeds == seeds
        &&& self.listening_port == listening_port
        &&& self.node_id.wf()
        &&& self.node_id@ == node_key(seeds.seed_bytes@)
        &&& self.midnight_rider@ == RiderView::initial(
            match proxy_node_id {
                Some(proxy) => proxy@,
                None => self.node_id@,
            },
            self.node_id@,
        )
    }

    /// A node with the keys of the given seed. Without a proxy it is one itself.
    pub fn from_seeds(
        seeds: NodeSeeds,
        listening_port: u16,
        proxy_node_id: Option<NodeId>,
        current_time: u32,
    ) -> (r: Result<CityTavern, TavernError>)
        requires
            is_master_seed(seeds.seed_bytes@),
        ensures
            r matches Ok(tavern) && tavern.started(seeds, listening_port, proxy_node_id),
            r->Ok_0.node_id@ == node_key(seeds.seed_bytes@),
    {
        let node_id = match derive_node_id(&seeds.seed_bytes, current_time as u64, current_time) {
            Ok(node_id) => node_id,
            Err(e) => return Err(e),
        };
        let proxy = match proxy_node_id {
            Some(proxy) => proxy,
            None => node_id,
        };
        Ok(
            CityTavern {
                midnight_rider: MidnightRider::new(proxy, node_id),
                listening_port,
                node_id,
                seeds,
            },
        )
    }

    /// A node with the keys of the given seed, if there are any. Without a proxy it
    /// is one itself.
    pub fn start(
        seeds: NodeSeeds,
        listening_port: u16,
        proxy_node_id: Option<NodeId>,
        current_time: u32,
    ) -> (r: Result<CityTavern, TavernError>)
        ensures
            (match r {
                Ok(tavern) => {
                    &&& is_master_seed(seeds.seed_bytes@)
                    &&& tavern.node_id@ == node_key(seeds.seed_bytes@)
                    &&& tavern.started(seeds, listening_port, proxy_node_id)
                },
                Err(e) => e == TavernError::Seed && !is_master_seed(seeds.seed_bytes@),
            }),
    {
        if has_master_key(&seeds.seed_bytes) {
            CityTavern::from_seeds(seeds, listening_port, proxy_node_id, current_time)
        } else {
            Err(TavernError::Seed)
        }
    }

    /// A node with the keys of the given seed, or of a random one. Without a proxy
    /// it is one itself.
    pub fn new(
        seed_bytes: Option<&[u8; 32]>,
        listening_port: u16,
        proxy_node_id: Option<NodeId>,
        current_time: u32,
    ) -> (r: Result<CityTavern, TavernError>)
        ensures
            (match r {
                Ok(tavern) => {
                    &&& tavern.started(tavern.seeds, listening_port, proxy_node_id)
                    &&& is_master_seed(tavern.seeds.seed_bytes@)
                    &&& tavern.node_id@ == node_key(tavern.seeds.seed_bytes@)
                    &&& seed_bytes matches Some(seed) ==> tavern.seeds.seed_bytes == *seed
                },
                Err(e) => {
                    ||| e == TavernError::Entropy
                    ||| e == TavernError::Seed && (seed_bytes matches Some(seed)
                        ==> !is_master_seed(seed@))
                },
            }),
    {
        match NodeSeeds::draw(seed_bytes) {
            Ok(seeds) => CityTavern::start(seeds, listening_port, proxy_node_id, current_time),
            Err(e) => Err(e),
        }
    }

    /// The name that the node goes by as a transport.
    pub fn name(&self) -> (r: &'static str)
        ensures
            r@ == "city-tavern"@,
    {
        "city-tavern"
    }

    /// The identity of the node.
    pub fn public_key(&self) -> (r: NodeId)
        ensures
            r == self.node_id,
    {
        self.node_id
    }

    /// The next step of the loop that accepts connections.
    pub fn listen(&self, event: ListenEvent) -> (r: ListenAction)
        ensures
            r == (match event {
                ListenEvent::StopChanged(true) => ListenAction::Stop,
                ListenEvent::StopChanged(false) => ListenAction::Wait,
                ListenEvent::Accepted => ListenAction::SetUpInbound,
                ListenEvent::AcceptFailed => ListenAction::LogFailure,
            }),
    {
        match event {
            ListenEvent::StopChanged(stop) => {
                if stop {
                    ListenAction::Stop
                } else {
                    ListenAction::Wait
                }
            },
            ListenEvent::Accepted => ListenAction::SetUpInbound,
            ListenEvent::AcceptFailed => ListenAction::LogFailure,
        }
    }

    /// The next step of the loop that processes messages: what was received is
    /// delivered at every message tick, and the peer manager is asked to send at a
    /// process tick if anything is queued.
    pub fn process_messages(&mut self, event: ProcessEvent) -> (r: ProcessAction)
        requires
            old(self).wf(),
        ensures
            final(self).wf(),
            final(self).node_id == old(self).node_id,
            final(self).listening_port == old(self).listening_port,
            final(self).seeds == old(self).seeds,
            (match event {
                ProcessEvent::StopChanged(stop) => {
                    &&& r == (if stop {
                        ProcessAction::Stop
                    } else {
                        ProcessAction::Wait
                    })
                    &&& final(self).midnight_rider@ == old(self).midnight_rider@
                },
                ProcessEvent::MessageTick => {
                    &&& r matches ProcessAction::Deliver(messages)
                    &&& received_view(messages@) == old(self).midnight_rider@.received
                    &&& final(self).midnight_rider@ == (RiderView {
                        received: Seq::empty(),
                        ..old(self).midnight_rider@
                    })
                },
                ProcessEvent::ProcessTick => {
                    &&& r == (if old(self).midnight_rider@.events.len() > 0 {
                        ProcessAction::ProcessEvents
                    } else {
                        ProcessAction::Wait
                    })
                    &&& final(self).midnight_rider@ == old(self).midnight_rider@
                },
            }),
    {
        match event {
            ProcessEvent::StopChanged(stop) => {
                if stop {
                    ProcessAction::Stop
                } else {
                    ProcessAction::Wait
                }
            },
            ProcessEvent::MessageTick => {
                ProcessAction::Deliver(self.midnight_rider.get_and_clear_received_messages())
            },
            ProcessEvent::ProcessTick => {
                if self.midnight_rider.has_pending_messages() {
                    ProcessAction::ProcessEvents
                } else {
                    ProcessAction::Wait
                }
            },
        }
    }

    /// Takes the contract manager's answer to a message that was delivered: a reply
    /// is queued for the node that the message comes from.
    pub fn handle_response(&mut self, routed_message: &RoutedMessage, response: DlcResponse)
        requires
            old(self).wf(),
            response matches DlcResponse::Reply(message) ==> can_send(message@),
        ensures
            final(self).wf(),
            final(self).node_id == old(self).node_id,
            final(self).listening_port == old(self).listening_port,
            final(self).seeds == old(self).seeds,
            final(self).midnight_rider@ == (match response {
                DlcResponse::Reply(message) => old(self).midnight_rider@.send(
                    outgoing(old(self).node_id@, routed_message@.from, message@),
                    old(self).midnight_rider@.next_hop(routed_message@.from),
                ),
                _ => old(self).midnight_rider@,
            }),
            response matches DlcResponse::Reply(message) ==> final(self).midnight_rider@.events
                == old(self).midnight_rider@.events + addressed(
                if old(self).midnight_rider@.my_node_id == old(self).midnight_rider@.proxy_node_id {
                    routed_message.from@
                } else {
                    old(self).midnight_rider@.proxy_node_id
                },
                packets(
                    (RoutedMessageView {
                        msg_type: message.kind.spec_type_id(),
                        to: routed_message.from@,
                        from: old(self).node_id@,
                        message: message@,
                    }),
                ),
            ),
    {
        match response {
            DlcResponse::Reply(message) => self.send_message(routed_message.from, message),
            DlcResponse::NoReply => {},
            DlcResponse::Failed => {},
        }
    }

    /// Queues a contract message for a node.
    pub fn send_message(&mut self, peer_id: NodeId, msg: Message)
        requires
            old(self).wf(),
            can_send(msg@),
        ensures
            final(self).wf(),
            final(self).node_id == old(self).node_id,
            final(self).listening_port == old(self).listening_port,
            final(self).seeds == old(self).seeds,
            final(self).midnight_rider@ == old(self).midnight_rider@.send(
                outgoing(old(self).node_id@, peer_id@, msg@),
                old(self).midnight_rider@.next_hop(peer_id@),
            ),
            final(self).midnight_rider@.events == old(self).midnight_rider@.events + addressed(
                if old(self).midnight_rider@.my_node_id == old(self).midnight_rider@.proxy_node_id {
                    peer_id@
                } else {
                    old(self).midnight_rider@.proxy_node_id
                },
                packets(
                    (RoutedMessageView {
                        msg_type: msg.kind.spec_type_id(),
                        to: peer_id@,
                        from: old(self).node_id@,
                        message: msg@,
                    }),
                ),
            ),
            final(self).midnight_rider@.received == old(self).midnight_rider@.received,
    {
        if let Ok(msg_type) = message_to_message_type(&msg) {
            let routed_msg = RoutedMessage {
                to: peer_id,
                from: self.public_key(),
                msg_type,
                message: msg,
            };
            self.midnight_rider.send_to_next_hop(routed_msg);
        }
    }
}

} // verus!
