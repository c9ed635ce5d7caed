//! The errors of the library and the texts they are reported with.
use vstd::prelude::*;

verus! {

/// Why bytes could not be decoded.
#[derive(Clone, Copy, Debug, PartialEq, Eq, Structural)]
pub enum DecodeError {
    /// A version that is not known.
    UnknownVersion,
    /// A feature or an enum variant that is required and not known.
    UnknownRequiredFeature,
    /// A value that does not belong to its type.
    InvalidValue,
    /// The bytes end before the value does.
    ShortRead,
    /// A length that does not describe the data behind it.
    BadLengthDescriptor,
    /// Compressed data, which is not supported.
    UnsupportedCompression,
    /// A value that is well encoded and dangerous to use.
    DangerousValue,
}

/// What should be done about the peer that caused an error.
#[derive(Clone, Copy, Debug, PartialEq, Eq, Structural)]
pub enum ErrorAction {
    /// Disconnect the peer, without a message to it.
    DisconnectPeer,
    /// Ignore the error and log it at error level.
    IgnoreAndLogError,
}

/// A failure to process a message.
#[derive(Clone, Debug, PartialEq, Eq)]
pub struct LightningError {
    /// A description for a human reader.
    pub err: String,
    /// The action that the failure calls for.
    pub action: ErrorAction,
}

/// The mathematical view of a [`LightningError`].
#[verifier::ext_equal]
pub struct LightningErrorView {
    pub err: Seq<char>,
    pub action: ErrorAction,
}

impl View for LightningError {
    type V = LightningErrorView;

    open spec fn view(&self) -> LightningErrorView {
        LightningErrorView { err: self.err@, action: self.action }
    }
}

/// The view of the result of handling a message.
pub open spec fn outcome_view(r: Result<(), LightningError>) -> Result<(), LightningErrorView> {
    match r {
        Ok(_) => Ok(()),
        Err(e) => Err(e@),
    }
}

/// The text that a decode error is shown with.
pub open spec fn decode_error_text(e: DecodeError) -> Seq<char> {
    match e {
        DecodeError::UnknownVersion => "Unknown realm byte in Onion packet"@,
        DecodeError::UnknownRequiredFeature => "Unknown required feature preventing decode"@,
        DecodeError::InvalidValue => {
            "Nonsense bytes didn't map to the type they were interpreted as"@
        },
        DecodeError::ShortRead => "Packet extended beyond the provided bytes"@,
        DecodeError::BadLengthDescriptor => {
            "A length descriptor in the packet didn't describe the later data correctly"@
        },
        DecodeError::UnsupportedCompression => {
            "We don't support receiving messages with zlib-compressed fields"@
        },
        DecodeError::DangerousValue => "Value would be dangerous to continue execution with"@,
    }
}

impl DecodeError {
    /// The text that the error is shown with.
    pub fn text(&self) -> (r: &'static str)
        ensures
            r@ == decode_error_text(*self),
    {
        match self {
            DecodeError::UnknownVersion => "Unknown realm byte in Onion packet",
            DecodeError::UnknownRequiredFeature => "Unknown required feature preventing decode",
            DecodeError::InvalidValue => {
                "Nonsense bytes didn't map to the type they were interpreted as"
            },
            DecodeError::ShortRead => "Packet extended beyond the provided bytes",
            DecodeError::BadLengthDescriptor => {
                "A length descriptor in the packet didn't describe the later data correctly"
            },
            DecodeError::UnsupportedCompression => {
                "We don't support receiving messages with zlib-compressed fields"
            },
            DecodeError::DangerousValue => "Value would be dangerous to continue execution with",
        }
    }
}

/// An error text about `msg`, caused by `e`.
pub open spec fn ln_error_text(e: Seq<char>, msg: Seq<char>) -> Seq<char> {
    msg + " :"@ + e
}

/// The error that [`to_ln_error`] gives.
pub open spec fn ln_error(e: Seq<char>, msg: Seq<char>) -> LightningErrorView {
    LightningErrorView { err: ln_error_text(e, msg), action: ErrorAction::DisconnectPeer }
}

/// An error about `msg`, caused by `e`, on which the peer is disconnected.
pub fn to_ln_error(e: &str, msg: &str) -> (r: LightningError)
    ensures
        r@ == ln_error(e@, msg@),
{
    let mut err: String = msg.to_owned();
    err.append(" :");
    err.append(e);
    LightningError { err, action: ErrorAction::DisconnectPeer }
}

/// The character of a decimal digit.
pub open spec fn digit_char(d: nat) -> char {
    (('0' as u32) + d) as char
}

/// The decimal notation of `n`, without leading zeros.
pub open spec fn decimal(n: nat) -> Seq<char>
    decreases n,
{
    if n < 10 {
        seq![digit_char(n)]
    } else {
        decimal(n / 10).push(digit_char(n % 10))
    }
}

fn digit_str(d: u16) -> (r: &'static str)
    requires
        d < 10,
    ensures
        r@ == seq![digit_char(d as nat)],
{
    proof {
        reveal_strlit("0");
        reveal_strlit("1");
        reveal_strlit("2");
        reveal_strlit("3");
        reveal_strlit("4");
        reveal_strlit("5");
        reveal_strlit("6");
        reveal_strlit("7");
        reveal_strlit("8");
        reveal_strlit("9");
    }
    let r: &'static str = match d {
        0 => "0",
        1 => "1",
        2 => "2",
        3 => "3",
        4 => "4",
        5 => "5",
        6 => "6",
        7 => "7",
        8 => "8",
        _ => "9",
    };
    assert(r@ =~= seq![digit_char(d as nat)]);
    r
}

/// Writes `n` in decimal notation.
pub fn decimal_string(n: u16) -> (r: String)
    ensures
        r@ == decimal(n as nat),
    decreases n,
{
    let mut out: String = if n < 10 {
        String::new()
    } else {
        decimal_string(n / 10)
    };
    out.append(digit_str(n % 10));
    assert(out@ =~= decimal(n as nat));
    out
}

} // verus!
