//! Cryptographic envelopes of the protocol: keys, AEAD encryption, key
//! derivation, signatures and the rotating temporal identifiers.
pub mod encryption;
pub mod kdf;
pub mod keys;
pub mod primitives;
pub mod signing;
pub mod temporal;

use vstd::prelude::*;

verus! {

/// Failures of the cryptographic operations.
#[derive(Debug, Clone, Copy, PartialEq, Eq)]
pub enum CryptoError {
    InvalidKeyLength,
    InvalidSignature,
    EncryptionFailed,
    DecryptionFailed,
    KeyDerivationFailed,
    RandomGenerationFailed,
    SystemTimeError,
}

impl CryptoError {
    /// The error's message.
    pub fn message(&self) -> (r: &'static str)
        ensures
            r@ == crypto_error_message(*self)@,
    {
        match self {
            CryptoError::InvalidKeyLength => "Invalid key length",
            CryptoError::InvalidSignature => "Invalid signature",
            CryptoError::EncryptionFailed => "Encryption failed",
            CryptoError::DecryptionFailed => "Decryption failed",
            CryptoError::KeyDerivationFailed => "Key derivation failed",
            CryptoError::RandomGenerationFailed => "Random number generation failed",
            CryptoError::SystemTimeError => "System time error",
        }
    }
}

/// The message of each cryptographic error.
pub open spec fn crypto_error_message(e: CryptoError) -> &'static str {
    match e {
        CryptoError::InvalidKeyLength => "Invalid key length",
        CryptoError::InvalidSignature => "Invalid signature",
        CryptoError::EncryptionFailed => "Encryption failed",
        CryptoError::DecryptionFailed => "Decryption failed",
        CryptoError::KeyDerivationFailed => "Key derivation failed",
        CryptoError::RandomGenerationFailed => "Random number generation failed",
        CryptoError::SystemTimeError => "System time error",
    }
}

} // verus!
