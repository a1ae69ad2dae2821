//! Error taxonomy of the protocol: codec-level errors and the client-facing
//! error kinds.

use vstd::prelude::*;

verus! {

/// Errors raised by the packet codecs.
#[derive(Debug, Clone, PartialEq, Eq)]
pub enum AkariError {
    /// The buffer is too short to hold a header.
    InvalidHeaderLength(usize),
    /// The first two bytes are not the protocol magic.
    InvalidMagic([u8; 2]),
    /// The version byte names no supported wire format.
    UnsupportedVersion(u8),
    /// The packet-type byte names no known packet type.
    UnknownMessageType(u8),
    /// A payload larger than the length field can carry.
    PayloadTooLarge(usize),
    /// The datagram length disagrees with the header's payload length.
    InvalidPacketLength { expected: usize, actual: usize },
    /// The declared URL length does not fit the payload.
    InvalidUrlLength { declared: usize, available: usize },
    /// A text field is not valid UTF-8.
    InvalidUtf8,
    /// The per-packet HMAC tag does not match.
    HmacMismatch,
    /// The pre-shared key was rejected by the underlying primitive.
    InvalidPsk,
    /// AEAD decryption or encryption failed.
    AeadFailed,
    /// The method byte names no known request method.
    UnsupportedMethod(u8),
    /// The payload is shorter than its fixed fields.
    MissingPayload,
    /// ENCRYPT and AGG_TAG were both set; the combination is rejected.
    UnsupportedFlagCombination,
}

/// Errors surfaced by the client engine.
#[derive(Debug, Clone, PartialEq, Eq)]
pub enum ClientError {
    /// A socket failure, reported by the caller-side transport.
    Io,
    /// The overall deadline was reached.
    Timeout,
    /// A fatal protocol failure while encoding.
    Protocol(String),
    /// The assembled body fails aggregate-tag verification, or the tag is
    /// missing where one was expected.
    AggTagMismatch,
    /// The engine exited with missing body or unknown status.
    Incomplete,
    /// The remote sent an Error packet.
    RemoteError { code: u8, http_status: u16, message: String },
}

/// Mathematical view of a client error.
pub enum SpecClientError {
    Io,
    Timeout,
    Protocol(Seq<char>),
    AggTagMismatch,
    Incomplete,
    RemoteError { code: u8, http_status: u16, message: Seq<char> },
}

impl View for ClientError {
    type V = SpecClientError;

    open spec fn view(&self) -> SpecClientError {
        match self {
            ClientError::Io => SpecClientError::Io,
            ClientError::Timeout => SpecClientError::Timeout,
            ClientError::Protocol(m) => SpecClientError::Protocol(m@),
            ClientError::AggTagMismatch => SpecClientError::AggTagMismatch,
            ClientError::Incomplete => SpecClientError::Incomplete,
            ClientError::RemoteError { code, http_status, message } => SpecClientError::RemoteError {
                code: *code,
                http_status: *http_status,
                message: message@,
            },
        }
    }
}

} // verus!
