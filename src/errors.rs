//! The closed error families of the codec.
use vstd::prelude::*;

verus! {

/// std's `FromUtf8Error`, carried unopened inside [`DecodeError::Utf8Error`].
#[verifier::external_type_specification]
#[verifier::external_body]
pub struct ExFromUtf8Error(std::string::FromUtf8Error);

/// A logic-level encode failure: a value that the target field cannot
/// represent. Buffer capacity is never the cause.
#[derive(Debug)]
pub struct EncodeError {
    /// What went wrong, in words.
    pub message: String,
}

impl EncodeError {
    /// An encode error with the given message.
    pub fn new(message: &str) -> (r: EncodeError)
        ensures
            r.message@ == message@,
    {
        EncodeError { message: message.to_owned() }
    }
}

impl From<String> for EncodeError {
    fn from(message: String) -> (r: EncodeError) {
        EncodeError { message }
    }
}

impl vstd::std_specs::convert::FromSpecImpl<String> for EncodeError {
    open spec fn obeys_from_spec() -> bool {
        true
    }

    open spec fn from_spec(message: String) -> EncodeError {
        EncodeError { message }
    }
}

/// Why a netlink attribute header could not be read.
#[derive(Debug, Clone, Copy, PartialEq, Eq, Structural)]
pub enum NLAError {
    /// The buffer is shorter than one header.
    BufferTooSmall { buffer_len: usize },
    /// The header declares `nla_len` bytes but the buffer holds only `buffer_len`.
    LengthMismatch { buffer_len: usize, nla_len: u16 },
    /// The header declares a length smaller than the header itself.
    InvalidLength { nla_len: u16 },
}

/// Why a value could not be decoded. Each failure has exactly one variant.
#[derive(Debug)]
pub enum DecodeError {
    /// The payload is not exactly six bytes long.
    InvalidMACAddress,
    /// The payload is not exactly sixteen bytes long.
    InvalidIPv6Address,
    /// The payload is not valid UTF-8; carries the validation failure.
    Utf8Error(std::string::FromUtf8Error),
    /// Fewer than one byte.
    InvalidU8,
    /// Fewer than two bytes.
    InvalidU16,
    /// Fewer than four bytes.
    InvalidU32,
    /// Fewer than eight bytes.
    InvalidU64,
    /// Fewer than sixteen bytes.
    InvalidU128,
    /// Fewer than four bytes, for a signed value.
    InvalidI32,
    /// The field `name` needs `len` bytes but the buffer offers `buffer_len`.
    InvalidBufferLength { name: &'static str, len: usize, buffer_len: usize },
    /// The attribute header itself is malformed.
    InvalidNLABuffer(NLAError),
    /// Any other cause, in words.
    Other(String),
}

impl DecodeError {
    /// A decode error of the catch-all kind with the given message.
    pub fn other(message: &str) -> (r: DecodeError)
        ensures
            r matches DecodeError::Other(m) && m@ == message@,
    {
        DecodeError::Other(message.to_owned())
    }
}

impl From<String> for DecodeError {
    fn from(message: String) -> (r: DecodeError) {
        DecodeError::Other(message)
    }
}

impl vstd::std_specs::convert::FromSpecImpl<String> for DecodeError {
    open spec fn obeys_from_spec() -> bool {
        true
    }

    open spec fn from_spec(message: String) -> DecodeError {
        DecodeError::Other(message)
    }
}

impl From<NLAError> for DecodeError {
    fn from(e: NLAError) -> (r: DecodeError) {
        DecodeError::InvalidNLABuffer(e)
    }
}

impl vstd::std_specs::convert::FromSpecImpl<NLAError> for DecodeError {
    open spec fn obeys_from_spec() -> bool {
        true
    }

    open spec fn from_spec(e: NLAError) -> DecodeError {
        DecodeError::InvalidNLABuffer(e)
    }
}

impl From<std::string::FromUtf8Error> for DecodeError {
    fn from(e: std::string::FromUtf8Error) -> (r: DecodeError) {
        DecodeError::Utf8Error(e)
    }
}

impl vstd::std_specs::convert::FromSpecImpl<std::string::FromUtf8Error> for DecodeError {
    open spec fn obeys_from_spec() -> bool {
        true
    }

    open spec fn from_spec(e: std::string::FromUtf8Error) -> DecodeError {
        DecodeError::Utf8Error(e)
    }
}

} // verus!
