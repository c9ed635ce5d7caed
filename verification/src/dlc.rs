//! The contract messages that are routed, and how they are read.
use crate::errors::{DecodeError, ErrorAction, LightningError, LightningErrorView};
use dlc_messages::message_handler::read_dlc_message;
use lightning::ln::msgs::DecodeError as LnError;
use lightning::util::ser::Writeable;
use vstd::prelude::*;

verus! {

/// The type prefix for an offer.
pub const OFFER_TYPE: u16 = 42778;

/// The type prefix for the acceptance of an offer.
pub const ACCEPT_TYPE: u16 = 42780;

/// The type prefix for the signatures of a contract.
pub const SIGN_TYPE: u16 = 42782;

/// The type prefix for the offer of a channel.
pub const OFFER_CHANNEL_TYPE: u16 = 43000;

/// The type prefix for the acceptance of a channel.
pub const ACCEPT_CHANNEL_TYPE: u16 = 43002;

/// The type prefix for the signatures of a channel.
pub const SIGN_CHANNEL_TYPE: u16 = 43004;

/// The type prefix for the offer to settle a channel.
pub const SETTLE_CHANNEL_OFFER_TYPE: u16 = 43006;

/// The type prefix for the acceptance of a settlement.
pub const SETTLE_CHANNEL_ACCEPT_TYPE: u16 = 43008;

/// The type prefix for the confirmation of a settlement.
pub const SETTLE_CHANNEL_CONFIRM_TYPE: u16 = 43010;

/// The type prefix for the end of a settlement.
pub const SETTLE_CHANNEL_FINALIZE_TYPE: u16 = 43012;

/// The type prefix for the offer to renew a channel.
pub const RENEW_CHANNEL_OFFER_TYPE: u16 = 43014;

/// The type prefix for the acceptance of a renewal.
pub const RENEW_CHANNEL_ACCEPT_TYPE: u16 = 43016;

/// The type prefix for the confirmation of a renewal.
pub const RENEW_CHANNEL_CONFIRM_TYPE: u16 = 43018;

/// The type prefix for the end of a renewal.
pub const RENEW_CHANNEL_FINALIZE_TYPE: u16 = 43020;

/// The type prefix for the offer to close a channel together.
pub const COLLABORATIVE_CLOSE_OFFER_TYPE: u16 = 43022;

/// The type prefix for a rejection.
pub const REJECT: u16 = 43024;

/// The type prefix for the revocation of a renewed channel's former state.
pub const RENEW_CHANNEL_REVOKE_TYPE: u16 = 43026;

/// The kinds of contract messages.
#[derive(Clone, Copy, Debug, PartialEq, Eq, Structural)]
pub enum MessageKind {
    Offer,
    Accept,
    Sign,
    OfferChannel,
    AcceptChannel,
    SignChannel,
    SettleOffer,
    SettleAccept,
    SettleConfirm,
    SettleFinalize,
    RenewOffer,
    RenewAccept,
    RenewConfirm,
    RenewFinalize,
    RenewRevoke,
    CollaborativeCloseOffer,
    Reject,
}

impl MessageKind {
    /// The type prefix of the kind.
    pub open spec fn spec_type_id(self) -> u16 {
        match self {
            MessageKind::Offer => OFFER_TYPE,
            MessageKind::Accept => ACCEPT_TYPE,
            MessageKind::Sign => SIGN_TYPE,
            MessageKind::OfferChannel => OFFER_CHANNEL_TYPE,
            MessageKind::AcceptChannel => ACCEPT_CHANNEL_TYPE,
            MessageKind::SignChannel => SIGN_CHANNEL_TYPE,
            MessageKind::SettleOffer => SETTLE_CHANNEL_OFFER_TYPE,
            MessageKind::SettleAccept => SETTLE_CHANNEL_ACCEPT_TYPE,
            MessageKind::SettleConfirm => SETTLE_CHANNEL_CONFIRM_TYPE,
            MessageKind::SettleFinalize => SETTLE_CHANNEL_FINALIZE_TYPE,
            MessageKind::RenewOffer => RENEW_CHANNEL_OFFER_TYPE,
            MessageKind::RenewAccept => RENEW_CHANNEL_ACCEPT_TYPE,
            MessageKind::RenewConfirm => RENEW_CHANNEL_CONFIRM_TYPE,
            MessageKind::RenewFinalize => RENEW_CHANNEL_FINALIZE_TYPE,
            MessageKind::RenewRevoke => RENEW_CHANNEL_REVOKE_TYPE,
            MessageKind::CollaborativeCloseOffer => COLLABORATIVE_CLOSE_OFFER_TYPE,
            MessageKind::Reject => REJECT,
        }
    }

    /// The type prefix of the kind.
    pub fn type_id(self) -> (r: u16)
        ensures
            r == self.spec_type_id(),
    {
        match self {
            MessageKind::Offer => OFFER_TYPE,
            MessageKind::Accept => ACCEPT_TYPE,
            MessageKind::Sign => SIGN_TYPE,
            MessageKind::OfferChannel => OFFER_CHANNEL_TYPE,
            MessageKind::AcceptChannel => ACCEPT_CHANNEL_TYPE,
            MessageKind::SignChannel => SIGN_CHANNEL_TYPE,
            MessageKind::SettleOffer => SETTLE_CHANNEL_OFFER_TYPE,
            MessageKind::SettleAccept => SETTLE_CHANNEL_ACCEPT_TYPE,
            MessageKind::SettleConfirm => SETTLE_CHANNEL_CONFIRM_TYPE,
            MessageKind::SettleFinalize => SETTLE_CHANNEL_FINALIZE_TYPE,
            MessageKind::RenewOffer => RENEW_CHANNEL_OFFER_TYPE,
            MessageKind::RenewAccept => RENEW_CHANNEL_ACCEPT_TYPE,
            MessageKind::RenewConfirm => RENEW_CHANNEL_CONFIRM_TYPE,
            MessageKind::RenewFinalize => RENEW_CHANNEL_FINALIZE_TYPE,
            MessageKind::RenewRevoke => RENEW_CHANNEL_REVOKE_TYPE,
            MessageKind::CollaborativeCloseOffer => COLLABORATIVE_CLOSE_OFFER_TYPE,
            MessageKind::Reject => REJECT,
        }
    }

    /// The kind with the given type prefix, if there is one.
    pub fn from_type_id(type_id: u16) -> (r: Option<MessageKind>)
        ensures
            (match r {
                Some(kind) => kind.spec_type_id() == type_id,
                None => forall|kind: MessageKind| #[trigger] kind.spec_type_id() != type_id,
            }),
    {
        if type_id == OFFER_TYPE {
            Some(MessageKind::Offer)
        } else if type_id == ACCEPT_TYPE {
            Some(MessageKind::Accept)
        } else if type_id == SIGN_TYPE {
            Some(MessageKind::Sign)
        } else if type_id == OFFER_CHANNEL_TYPE {
            Some(MessageKind::OfferChannel)
        } else if type_id == ACCEPT_CHANNEL_TYPE {
            Some(MessageKind::AcceptChannel)
        } else if type_id == SIGN_CHANNEL_TYPE {
            Some(MessageKind::SignChannel)
        } else if type_id == SETTLE_CHANNEL_OFFER_TYPE {
            Some(MessageKind::SettleOffer)
        } else if type_id == SETTLE_CHANNEL_ACCEPT_TYPE {
            Some(MessageKind::SettleAccept)
        } else if type_id == SETTLE_CHANNEL_CONFIRM_TYPE {
            Some(MessageKind::SettleConfirm)
        } else if type_id == SETTLE_CHANNEL_FINALIZE_TYPE {
            Some(MessageKind::SettleFinalize)
        } else if type_id == RENEW_CHANNEL_OFFER_TYPE {
            Some(MessageKind::RenewOffer)
        } else if type_id == RENEW_CHANNEL_ACCEPT_TYPE {
            Some(MessageKind::RenewAccept)
        } else if type_id == RENEW_CHANNEL_CONFIRM_TYPE {
            Some(MessageKind::RenewConfirm)
        } else if type_id == RENEW_CHANNEL_FINALIZE_TYPE {
            Some(MessageKind::RenewFinalize)
        } else if type_id == RENEW_CHANNEL_REVOKE_TYPE {
            Some(MessageKind::RenewRevoke)
        } else if type_id == COLLABORATIVE_CLOSE_OFFER_TYPE {
            Some(MessageKind::CollaborativeCloseOffer)
        } else if type_id == REJECT {
            Some(MessageKind::Reject)
        } else {
            None
        }
    }
}

/// Two kinds with the same type prefix are the same kind.
pub proof fn law_type_ids_distinct(a: MessageKind, b: MessageKind)
    requires
        a.spec_type_id() == b.spec_type_id(),
    ensures
        a == b,
{
}

/// A contract message: its kind, and the bytes it is written with.
#[derive(Clone, Debug, PartialEq, Eq)]
pub struct Message {
    /// What the message is.
    pub kind: MessageKind,
    /// The message as it stands on the wire, without a type prefix.
    pub body: Vec<u8>,
}

/// The mathematical view of a [`Message`].
#[verifier::ext_equal]
pub struct MessageView {
    pub kind: MessageKind,
    pub body: Seq<u8>,
}

impl View for Message {
    type V = MessageView;

    open spec fn view(&self) -> MessageView {
        MessageView { kind: self.kind, body: self.body@ }
    }
}

impl MessageView {
    /// Whether the bytes are those that the message of this kind is written with:
    /// reading them gives the message whose bytes they are.
    pub open spec fn wf(self) -> bool {
        dlc_reading(self.kind.spec_type_id(), self.body) == Ok::<Option<Seq<u8>>, DecodeError>(
            Some(self.body),
        )
    }
}

/// Whether a type prefix is that of a message that can be read. The revocation
/// of a renewed channel's former state can be written only.
pub open spec fn is_readable_type(type_id: u16) -> bool {
    exists|kind: MessageKind|
        kind != MessageKind::RenewRevoke && #[trigger] kind.spec_type_id() == type_id
}

/// What `dlc_messages::message_handler::read_dlc_message` gives for a type
/// prefix and the bytes behind it: nothing for a type that it does not know,
/// else an error or the bytes that the message read is written with.
pub uninterp spec fn dlc_reading(msg_type: u16, bytes: Seq<u8>) -> Result<
    Option<Seq<u8>>,
    DecodeError,
>;

/// `dlc_messages::message_handler::read_dlc_message` on bytes in memory, and
/// `lightning::util::ser::Writeable::encode` on the message that it gives. Its
/// errors become those of this library; the one for a failing reader cannot
/// happen here, since bytes in memory fail only by ending. Bytes behind the
/// message are ignored. It is claimed of the outside code that
/// - the outcome depends on the type and the bytes alone;
/// - nothing is given for exactly those types that have no arm in its table;
/// - the message that is given, once written, reads back as itself: each field is
///   read by the inverse of what it is written by;
/// - writing the message takes at most six times the bytes that were there to
///   read: every field takes as many bytes as before, but for the prefixes of
///   the oracle fields, whose type and length are read from at least two bytes,
///   not looked at, and written in at most twelve.
///
/// Nothing is said of the stack that nested negotiation fields take.
#[verifier::external_body]
pub(crate) fn read_dlc(msg_type: u16, bytes: &[u8]) -> (r: Result<Option<Vec<u8>>, DecodeError>)
    ensures
        (match r {
            Ok(Some(body)) => dlc_reading(msg_type, bytes@) == Ok::<Option<Seq<u8>>, DecodeError>(
                Some(body@),
            ),
            Ok(None) => dlc_reading(msg_type, bytes@) == Ok::<Option<Seq<u8>>, DecodeError>(None),
            Err(e) => dlc_reading(msg_type, bytes@) == Err::<Option<Seq<u8>>, DecodeError>(e),
        }),
        (r matches Ok(None)) <==> !is_readable_type(msg_type),
        r matches Ok(Some(body)) ==> {
            &&& dlc_reading(msg_type, body@) == Ok::<Option<Seq<u8>>, DecodeError>(Some(body@))
            &&& body@.len() <= 6 * bytes@.len()
        },
{
    let mut reader = lightning::io::Cursor::new(bytes);
    match read_dlc_message(msg_type, &mut reader) {
        Ok(Some(message)) => Ok(Some(message.encode())),
        Ok(None) => Ok(None),
        Err(LnError::UnknownVersion) => Err(DecodeError::UnknownVersion),
        Err(LnError::UnknownRequiredFeature) => Err(DecodeError::UnknownRequiredFeature),
        Err(LnError::InvalidValue) => Err(DecodeError::InvalidValue),
        Err(LnError::ShortRead) => Err(DecodeError::ShortRead),
        Err(LnError::BadLengthDescriptor) => Err(DecodeError::BadLengthDescriptor),
        Err(LnError::Io(_)) => Err(DecodeError::ShortRead),
        Err(LnError::UnsupportedCompression) => Err(DecodeError::UnsupportedCompression),
        Err(LnError::DangerousValue) => Err(DecodeError::DangerousValue),
    }
}

/// The type prefix that a message is routed under, or the error that it has none.
pub open spec fn message_type(kind: MessageKind) -> Result<u16, LightningErrorView> {
    match kind {
        MessageKind::Offer => Ok(OFFER_TYPE),
        MessageKind::Accept => Ok(ACCEPT_TYPE),
        MessageKind::Sign => Ok(SIGN_TYPE),
        MessageKind::Reject => Ok(REJECT),
        _ => Err(
            LightningErrorView {
                err: "Invalid message type for message."@,
                action: ErrorAction::IgnoreAndLogError,
            },
        ),
    }
}

/// The type prefix that a message is routed under: offers, acceptances, signatures
/// and rejections have one, and no other message.
pub fn message_to_message_type(message: &Message) -> (r: Result<u16, LightningError>)
    ensures
        (match r {
            Ok(type_id) => message_type(message.kind) == Ok::<u16, LightningErrorView>(type_id),
            Err(e) => message_type(message.kind) == Err::<u16, LightningErrorView>(e@),
        }),
{
    match message.kind {
        MessageKind::Offer => Ok(OFFER_TYPE),
        MessageKind::Accept => Ok(ACCEPT_TYPE),
        MessageKind::Sign => Ok(SIGN_TYPE),
        MessageKind::Reject => Ok(REJECT),
        _ => Err(
            LightningError {
                err: "Invalid message type for message.".to_owned(),
                action: ErrorAction::IgnoreAndLogError,
            },
        ),
    }
}

} // verus!
