//! The authentication protocol: message creation, signing and
//! verification, the encrypted packet envelope, and the pairing handshake.
pub mod messages;
pub mod packet;
pub mod pairing;

use crate::crypto::CryptoError;
use crate::pb::DecodeError;
use vstd::prelude::*;

verus! {

/// Failures of protocol operations.
#[derive(Debug, Clone, Copy, PartialEq, Eq)]
pub enum ProtocolError {
    /// A message could not be encoded.
    Serialization,
    /// Bytes did not decode as the expected message.
    Deserialization(DecodeError),
    InvalidSignature,
    Crypto(CryptoError),
    InvalidMessageFormat,
    MissingField(&'static str),
    /// The transport failed.
    Io,
}

/// The message of a protocol failure (for the transport failure and the
/// decoding failure, without the underlying reason).
pub open spec fn spec_protocol_error_message(e: ProtocolError) -> Seq<char> {
    match e {
        ProtocolError::Serialization => "Serialization error"@,
        ProtocolError::Deserialization(_) => "Deserialization error: failed to decode Protobuf message"@,
        ProtocolError::InvalidSignature => "Invalid signature"@,
        ProtocolError::Crypto(c) => "Crypto error: "@ + crate::crypto::crypto_error_message(c)@,
        ProtocolError::InvalidMessageFormat => "Invalid message format"@,
        ProtocolError::MissingField(f) => "Missing required field: "@ + f@,
        ProtocolError::Io => "IO error"@,
    }
}

impl ProtocolError {
    /// The failure's message.
    pub fn message(&self) -> (r: String)
        ensures
            r@ == spec_protocol_error_message(*self),
    {
        match self {
            ProtocolError::Serialization => "Serialization error".to_owned(),
            ProtocolError::Deserialization(_) => "Deserialization error: failed to decode Protobuf message".to_owned(),
            ProtocolError::InvalidSignature => "Invalid signature".to_owned(),
            ProtocolError::Crypto(c) => {
                let mut m = "Crypto error: ".to_owned();
                m.append(c.message());
                m
            },
            ProtocolError::InvalidMessageFormat => "Invalid message format".to_owned(),
            ProtocolError::MissingField(f) => {
                let mut m = "Missing required field: ".to_owned();
                m.append(f);
                m
            },
            ProtocolError::Io => "IO error".to_owned(),
        }
    }
}

} // verus!
