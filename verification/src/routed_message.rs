//! Messages that are routed through the network, and what travels between peers.
use crate::dlc::{
    dlc_reading, is_readable_type, law_type_ids_distinct, read_dlc, Message, MessageKind, MessageView,
};
use crate::errors::DecodeError;
use crate::node::{is_public_key, NodeId};
use crate::segmentation::{
    read_start, start_bytes, SegmentChunk, SegmentStart, MAX_SEGMENTED_SIZE, MAX_WIRE_SIZE,
    SEGMENT_CHUNK_TYPE, SEGMENT_START_TYPE,
};
use crate::wire::{bytes_field, copy_range, le16, le16_value, read_bytes_field};
use vstd::prelude::*;

verus! {

/// The type prefix for a routed message.
pub const ROUTED_MESSAGE_TYPE_ID: u16 = 1776;

/// The number of bytes in front of the contract message: the type of the message
/// and the keys of the two nodes.
pub const HEADER_SIZE: usize = 68;

/// A contract message on its way from one node to another.
#[derive(Clone, Debug, PartialEq, Eq)]
pub struct RoutedMessage {
    /// The type prefix of the contract message.
    pub msg_type: u16,
    /// The node that the message is for.
    pub to: NodeId,
    /// The node that the message comes from.
    pub from: NodeId,
    /// The contract message.
    pub message: Message,
}

/// The mathematical view of a [`RoutedMessage`].
#[verifier::ext_equal]
pub struct RoutedMessageView {
    pub msg_type: u16,
    pub to: Seq<u8>,
    pub from: Seq<u8>,
    pub message: MessageView,
}

impl View for RoutedMessage {
    type V = RoutedMessageView;

    open spec fn view(&self) -> RoutedMessageView {
        RoutedMessageView {
            msg_type: self.msg_type,
            to: self.to@,
            from: self.from@,
            message: self.message@,
        }
    }
}

impl RoutedMessageView {
    /// The bytes that the message is written with, without a type prefix.
    pub open spec fn bytes(self) -> Seq<u8> {
        le16(self.msg_type) + self.to + self.from + self.message.body
    }

    /// Whether the two nodes are public keys, the contract message is one, and the
    /// type is the contract message's own.
    pub open spec fn wf(self) -> bool {
        &&& self.to.len() == 33 && is_public_key(self.to)
        &&& self.from.len() == 33 && is_public_key(self.from)
        &&& self.message.wf()
        &&& is_readable_type(self.msg_type)
        &&& self.msg_type == self.message.kind.spec_type_id()
    }

    /// Whether the message is short enough for its segments to be counted.
    pub open spec fn sendable(self) -> bool {
        HEADER_SIZE + self.message.body.len() <= MAX_SEGMENTED_SIZE
    }
}

/// The kind of message that is read under a type prefix.
pub open spec fn kind_of(msg_type: u16) -> MessageKind {
    choose|kind: MessageKind| #[trigger] kind.spec_type_id() == msg_type
}

/// What a routed message is once its header is known to be sound and `reading`
/// came out of the bytes behind the header.
pub open spec fn routed_from_reading(
    msg_type: u16,
    to: Seq<u8>,
    from: Seq<u8>,
    reading: Result<Option<Seq<u8>>, DecodeError>,
) -> Result<RoutedMessageView, DecodeError> {
    match reading {
        Err(e) => Err(e),
        Ok(None) => Err(DecodeError::InvalidValue),
        Ok(Some(body)) => Ok(
            RoutedMessageView {
                msg_type,
                to,
                from,
                message: MessageView { kind: kind_of(msg_type), body },
            },
        ),
    }
}

/// What reading a routed message off the front of `bytes` gives.
pub open spec fn read_routed(bytes: Seq<u8>) -> Result<RoutedMessageView, DecodeError> {
    if bytes.len() < 35 {
        Err(DecodeError::ShortRead)
    } else if !is_public_key(bytes.subrange(2, 35)) {
        Err(DecodeError::InvalidValue)
    } else if bytes.len() < HEADER_SIZE {
        Err(DecodeError::ShortRead)
    } else if !is_public_key(bytes.subrange(35, 68)) {
        Err(DecodeError::InvalidValue)
    } else {
        let msg_type = le16_value(bytes[0], bytes[1]);
        routed_from_reading(
            msg_type,
            bytes.subrange(2, 35),
            bytes.subrange(35, 68),
            dlc_reading(msg_type, bytes.skip(HEADER_SIZE as int)),
        )
    }
}

/// The view of the result of reading a routed message.
pub open spec fn routed_result(r: Result<RoutedMessage, DecodeError>) -> Result<
    RoutedMessageView,
    DecodeError,
> {
    match r {
        Ok(m) => Ok(m@),
        Err(e) => Err(e),
    }
}

/// The view of what reading a contract message gave.
pub open spec fn reading_view(r: Result<Option<Vec<u8>>, DecodeError>) -> Result<
    Option<Seq<u8>>,
    DecodeError,
> {
    match r {
        Ok(Some(body)) => Ok(Some(body@)),
        Ok(None) => Ok(None),
        Err(e) => Err(e),
    }
}

/// Copies the 33 bytes that start at `bytes[from]`.
fn key_at(bytes: &[u8], from: usize) -> (r: [u8; 33])
    requires
        from + 33 <= bytes@.len(),
    ensures
        r@ == bytes@.subrange(from as int, from + 33),
{
    let len: usize = bytes.len();
    let mut key: [u8; 33] = [0u8;33];
    let mut i: usize = 0;
    while i < 33
        invariant
            i <= 33,
            from + 33 <= len == bytes@.len(),
            forall|j: int| 0 <= j < i ==> key@[j] == bytes@[from + j],
        decreases 33 - i,
    {
        key[i] = bytes[from + i];
        i += 1;
    }
    assert(key@ =~= bytes@.subrange(from as int, from + 33));
    key
}

impl RoutedMessage {
    /// The type prefix for a routed message.
    pub fn type_id(&self) -> (r: u16)
        ensures
            r == ROUTED_MESSAGE_TYPE_ID,
    {
        ROUTED_MESSAGE_TYPE_ID
    }

    /// Whether the message is short enough for its segments to be counted.
    pub fn is_sendable(&self) -> (r: bool)
        ensures
            r == self@.sendable(),
    {
        self.message.body.len() <= MAX_SEGMENTED_SIZE - HEADER_SIZE
    }

    /// The number of bytes that the message is written with.
    pub fn serialized_length(&self) -> (r: usize)
        requires
            HEADER_SIZE + self.message.body@.len() <= usize::MAX,
        ensures
            r == self@.bytes().len(),
    {
        HEADER_SIZE + self.message.body.len()
    }

    /// Appends the message to `writer`: the type of the contract message, low byte
    /// first, the key of the receiver, that of the sender, and the contract message.
    pub fn write(&self, writer: &mut Vec<u8>)
        ensures
            final(writer)@ == old(writer)@ + self@.bytes(),
    {
        writer.push((self.msg_type % 256) as u8);
        writer.push((self.msg_type / 256) as u8);
        writer.extend_from_slice(self.to.bytes.as_slice());
        writer.extend_from_slice(self.from.bytes.as_slice());
        writer.extend_from_slice(self.message.body.as_slice());
        assert(writer@ =~= old(writer)@ + self@.bytes());
    }

    /// The bytes that the message is written with.
    pub fn encode(&self) -> (r: Vec<u8>)
        ensures
            r@ == self@.bytes(),
    {
        let mut out: Vec<u8> = Vec::new();
        self.write(&mut out);
        assert(out@ =~= self@.bytes());
        out
    }

    /// The routed message with the given header, once `reading` came out of the
    /// bytes behind it.
    pub fn from_reading(
        msg_type: u16,
        to: NodeId,
        from: NodeId,
        reading: Result<Option<Vec<u8>>, DecodeError>,
    ) -> (r: Result<RoutedMessage, DecodeError>)
        requires
            reading matches Ok(Some(_)) ==> is_readable_type(msg_type),
        ensures
            routed_result(r) == routed_from_reading(msg_type, to@, from@, reading_view(reading)),
    {
        let body = match reading {
            Err(e) => return Err(e),
            Ok(None) => return Err(DecodeError::InvalidValue),
            Ok(Some(body)) => body,
        };
        match MessageKind::from_type_id(msg_type) {
            Some(kind) => {
                proof {
                    law_type_ids_distinct(kind, kind_of(msg_type));
                }
                Ok(RoutedMessage { msg_type, to, from, message: Message { kind, body } })
            },
            None => Err(DecodeError::InvalidValue),
        }
    }

    /// Reads a routed message off the front of `bytes`.
    pub fn read(bytes: &[u8]) -> (r: Result<RoutedMessage, DecodeError>)
        ensures
            routed_result(r) == read_routed(bytes@),
            bytes@.len() >= HEADER_SIZE && !is_readable_type(le16_value(bytes@[0], bytes@[1]))
                ==> r == Err::<RoutedMessage, DecodeError>(DecodeError::InvalidValue),
            r matches Ok(m) ==> {
                &&& m@.wf()
                &&& m@.message.body.len() <= 6 * bytes@.len()
            },
    {
        if bytes.len() < 35 {
            return Err(DecodeError::ShortRead);
        }
        let msg_type: u16 = bytes[0] as u16 + 256 * (bytes[1] as u16);
        let to = match NodeId::from_bytes(&key_at(bytes, 2)) {
            Some(to) => to,
            None => return Err(DecodeError::InvalidValue),
        };
        if bytes.len() < HEADER_SIZE {
            return Err(DecodeError::ShortRead);
        }
        let from = match NodeId::from_bytes(&key_at(bytes, 35)) {
            Some(from) => from,
            None => return Err(DecodeError::InvalidValue),
        };
        let rest = copy_range(bytes, HEADER_SIZE, bytes.len());
        assert(rest@ =~= bytes@.skip(HEADER_SIZE as int));
        let reading = read_dlc(msg_type, rest.as_slice());
        RoutedMessage::from_reading(msg_type, to, from, reading)
    }
}

/// What travels between two peers.
#[derive(Clone, PartialEq, Eq)]
pub enum ProxyMessage {
    /// A message that fits in one transport message.
    RoutedMessage(RoutedMessage),
    /// The first segment of a longer message.
    SegmentStart(SegmentStart),
    /// A later segment of a longer message.
    SegmentChunk(SegmentChunk),
}

/// The mathematical view of a [`ProxyMessage`].
#[verifier::ext_equal]
pub enum ProxyMessageView {
    RoutedMessage(RoutedMessageView),
    SegmentStart(u16, Seq<u8>),
    SegmentChunk(Seq<u8>),
}

impl View for ProxyMessage {
    type V = ProxyMessageView;

    open spec fn view(&self) -> ProxyMessageView {
        match self {
            ProxyMessage::RoutedMessage(m) => ProxyMessageView::RoutedMessage(m@),
            ProxyMessage::SegmentStart(s) => ProxyMessageView::SegmentStart(s.nb_segments, s.data@),
            ProxyMessage::SegmentChunk(c) => ProxyMessageView::SegmentChunk(c.data@),
        }
    }
}

impl ProxyMessageView {
    /// The type prefix of the message.
    pub open spec fn type_id(self) -> u16 {
        match self {
            ProxyMessageView::RoutedMessage(_) => ROUTED_MESSAGE_TYPE_ID,
            ProxyMessageView::SegmentStart(_, _) => SEGMENT_START_TYPE,
            ProxyMessageView::SegmentChunk(_) => SEGMENT_CHUNK_TYPE,
        }
    }

    /// The bytes that the message is written with, without a type prefix.
    pub open spec fn bytes(self) -> Seq<u8> {
        match self {
            ProxyMessageView::RoutedMessage(m) => m.bytes(),
            ProxyMessageView::SegmentStart(nb_segments, data) => start_bytes(nb_segments, data),
            ProxyMessageView::SegmentChunk(data) => bytes_field(data),
        }
    }

    /// Whether the message can be taken in: the data of a segment fits in a
    /// transport message, and a routed message can be passed on.
    pub open spec fn acceptable(self) -> bool {
        match self {
            ProxyMessageView::RoutedMessage(m) => m.sendable(),
            ProxyMessageView::SegmentStart(_, data) => data.len() <= MAX_WIRE_SIZE,
            ProxyMessageView::SegmentChunk(data) => data.len() <= MAX_WIRE_SIZE,
        }
    }
}

/// What reading the bytes behind a type prefix gives. Every type but those of the
/// segments is read as a routed message.
pub open spec fn read_proxy(msg_type: u16, bytes: Seq<u8>) -> Result<
    ProxyMessageView,
    DecodeError,
> {
    if msg_type == SEGMENT_START_TYPE {
        match read_start(bytes) {
            Ok((nb_segments, data)) => Ok(ProxyMessageView::SegmentStart(nb_segments, data)),
            Err(e) => Err(e),
        }
    } else if msg_type == SEGMENT_CHUNK_TYPE {
        match read_bytes_field(bytes) {
            Ok(data) => Ok(ProxyMessageView::SegmentChunk(data)),
            Err(e) => Err(e),
        }
    } else {
        match read_routed(bytes) {
            Ok(m) => Ok(ProxyMessageView::RoutedMessage(m)),
            Err(e) => Err(e),
        }
    }
}

/// The view of the result of reading a proxy message.
pub open spec fn proxy_result(r: Result<ProxyMessage, DecodeError>) -> Result<
    ProxyMessageView,
    DecodeError,
> {
    match r {
        Ok(m) => Ok(m@),
        Err(e) => Err(e),
    }
}

impl ProxyMessage {
    /// The type prefix of the message.
    pub fn type_id(&self) -> (r: u16)
        ensures
            r == self@.type_id(),
    {
        match self {
            ProxyMessage::RoutedMessage(m) => m.type_id(),
            ProxyMessage::SegmentStart(_) => SEGMENT_START_TYPE,
            ProxyMessage::SegmentChunk(_) => SEGMENT_CHUNK_TYPE,
        }
    }

    /// The bytes that the message is written with, without a type prefix.
    pub fn encode(&self) -> (r: Vec<u8>)
        ensures
            r@ == self@.bytes(),
    {
        match self {
            ProxyMessage::RoutedMessage(m) => m.encode(),
            ProxyMessage::SegmentStart(s) => s.encode(),
            ProxyMessage::SegmentChunk(c) => c.encode(),
        }
    }

    /// The name of the kind of message, which is all that is shown of it.
    pub fn name(&self) -> (r: &'static str)
        ensures
            r@ == (match self@ {
                ProxyMessageView::RoutedMessage(_) => "RoutedMessage"@,
                ProxyMessageView::SegmentStart(_, _) => "SegmentStart"@,
                ProxyMessageView::SegmentChunk(_) => "SegmentChunk"@,
            }),
    {
        match self {
            ProxyMessage::RoutedMessage(_) => "RoutedMessage",
            ProxyMessage::SegmentStart(_) => "SegmentStart",
            ProxyMessage::SegmentChunk(_) => "SegmentChunk",
        }
    }

    /// Whether the message can be taken in: the data of a segment fits in a
    /// transport message, and a routed message can be passed on.
    pub fn is_acceptable(&self) -> (r: bool)
        ensures
            r == self@.acceptable(),
    {
        match self {
            ProxyMessage::RoutedMessage(m) => m.is_sendable(),
            ProxyMessage::SegmentStart(s) => s.data.len() <= MAX_WIRE_SIZE,
            ProxyMessage::SegmentChunk(c) => c.data.len() <= MAX_WIRE_SIZE,
        }
    }

    /// Reads the bytes behind a type prefix.
    pub fn read(msg_type: u16, bytes: &[u8]) -> (r: Result<ProxyMessage, DecodeError>)
        ensures
            proxy_result(r) == read_proxy(msg_type, bytes@),
            r matches Ok(ProxyMessage::RoutedMessage(m)) ==> {
                &&& m@.wf()
                &&& m@.message.body.len() <= 6 * bytes@.len()
            },
    {
        if msg_type == SEGMENT_START_TYPE {
            match SegmentStart::read(bytes) {
                Ok(s) => Ok(ProxyMessage::SegmentStart(s)),
                Err(e) => Err(e),
            }
        } else if msg_type == SEGMENT_CHUNK_TYPE {
            match SegmentChunk::read(bytes) {
                Ok(c) => Ok(ProxyMessage::SegmentChunk(c)),
                Err(e) => Err(e),
            }
        } else {
            match RoutedMessage::read(bytes) {
                Ok(m) => Ok(ProxyMessage::RoutedMessage(m)),
                Err(e) => Err(e),
            }
        }
    }
}

} // verus!
