//! The library's error for foreign-function boundaries, and how the
//! cryptographic errors map onto it.
use crate::crypto::CryptoError;
use vstd::prelude::*;

verus! {

/// Errors reported across a foreign-function boundary.
#[derive(Debug, Clone, PartialEq, Eq)]
pub enum TapAuthError {
    InvalidInput(String),
    Io(String),
    /// A protobuf message did not decode; the decoder's description of why.
    ProtoDecode(String),
    AeadBadTag,
    Crypto(String),
    State(String),
}

/// Which kind of boundary error each cryptographic error becomes, with its
/// message.
pub open spec fn spec_tapauth_error_of(err: CryptoError) -> (u8, Seq<char>) {
    match err {
        CryptoError::InvalidKeyLength => (0, "crypto: Invalid key length"@),
        CryptoError::DecryptionFailed => (3, Seq::empty()),
        CryptoError::InvalidSignature => (4, "signature verification internal error"@),
        CryptoError::KeyDerivationFailed => (4, "KDF failed"@),
        CryptoError::EncryptionFailed => (4, "encryption failed"@),
        CryptoError::RandomGenerationFailed => (4, "random generation failed"@),
        CryptoError::SystemTimeError => (5, "system time error"@),
    }
}

/// The kind and message of a boundary error.
pub open spec fn spec_tapauth_error_shape(e: TapAuthError) -> (u8, Seq<char>) {
    match e {
        TapAuthError::InvalidInput(m) => (0, m@),
        TapAuthError::Io(m) => (1, m@),
        TapAuthError::ProtoDecode(d) => (2, d@),
        TapAuthError::AeadBadTag => (3, Seq::empty()),
        TapAuthError::Crypto(m) => (4, m@),
        TapAuthError::State(m) => (5, m@),
    }
}

impl TapAuthError {
    /// The boundary error of a cryptographic error: invalid key length is
    /// invalid input, failed decryption a bad AEAD tag, a clock failure a
    /// state error, the rest cryptographic errors.
    pub fn from_crypto(err: CryptoError) -> (r: Self)
        ensures
            spec_tapauth_error_shape(r) == spec_tapauth_error_of(err),
    {
        let r = match err {
            CryptoError::InvalidKeyLength => TapAuthError::InvalidInput(
                "crypto: Invalid key length".to_owned(),
            ),
            CryptoError::DecryptionFailed => TapAuthError::AeadBadTag,
            CryptoError::InvalidSignature => TapAuthError::Crypto(
                "signature verification internal error".to_owned(),
            ),
            CryptoError::KeyDerivationFailed => TapAuthError::Crypto("KDF failed".to_owned()),
            CryptoError::EncryptionFailed => TapAuthError::Crypto("encryption failed".to_owned()),
            CryptoError::RandomGenerationFailed => TapAuthError::Crypto(
                "random generation failed".to_owned(),
            ),
            CryptoError::SystemTimeError => TapAuthError::State("system time error".to_owned()),
        };
        r
    }
}

} // verus!
