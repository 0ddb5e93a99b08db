//! Key material: Ed25519 signing pairs, X25519 exchange pairs and the
//! symmetric keys of pairing and authentication.
use crate::crypto::primitives::{
    ed25519_public, ed25519_sign, ed25519_signature, ed25519_valid, ed25519_verifying_key,
    getrandom_fill, x25519_diffie_hellman, x25519_public, x25519_public_key, x25519_shared,
};
use crate::crypto::CryptoError;
use vstd::prelude::*;

verus! {

broadcast use vstd::array::group_array_axioms;

/// An Ed25519 key pair: the 32-byte secret and the public key it determines.
pub struct Ed25519KeyPair {
    signing_key_bytes: [u8; 32],
    verifying_key: [u8; 32],
}

impl Ed25519KeyPair {
    #[verifier::type_invariant]
    spec fn inv(self) -> bool {
        self.verifying_key@ == ed25519_public(self.signing_key_bytes@)
    }

    /// The secret key.
    pub closed spec fn secret(&self) -> Seq<u8> {
        self.signing_key_bytes@
    }

    /// Generates a key pair from the operating system's random source.
    pub fn generate() -> (r: Result<Self, CryptoError>)
        ensures
            r matches Err(e) ==> e == CryptoError::RandomGenerationFailed,
            r matches Ok(k) ==> k.secret().len() == 32,
    {
        let mut seed = [0u8; 32];
        if !getrandom_fill(&mut seed) {
            return Err(CryptoError::RandomGenerationFailed);
        }
        let verifying_key = ed25519_verifying_key(&seed);
        Ok(Ed25519KeyPair { signing_key_bytes: seed, verifying_key })
    }

    /// The key pair of a given secret key; always succeeds.
    pub fn from_signing_key_bytes(bytes: &[u8; 32]) -> (r: Result<Self, CryptoError>)
        ensures
            r matches Ok(k) && k.secret() == bytes@,
    {
        let verifying_key = ed25519_verifying_key(bytes);
        Ok(Ed25519KeyPair { signing_key_bytes: *bytes, verifying_key })
    }

    /// The secret key's bytes.
    pub fn signing_key_bytes(&self) -> (r: [u8; 32])
        ensures
            r@ == self.secret(),
    {
        self.signing_key_bytes
    }

    /// Signs `data`; the signature verifies under [`Self::verifying_key_bytes`].
    pub fn sign(&self, data: &[u8]) -> (r: [u8; 64])
        ensures
            r@ == ed25519_signature(self.secret(), data@),
            ed25519_valid(ed25519_public(self.secret()), data@, r@),
    {
        ed25519_sign(&self.signing_key_bytes, data)
    }

    /// The public key's bytes.
    pub fn verifying_key_bytes(&self) -> (r: [u8; 32])
        ensures
            r@ == ed25519_public(self.secret()),
    {
        proof {
            use_type_invariant(self);
        }
        self.verifying_key
    }
}

impl Clone for Ed25519KeyPair {
    fn clone(&self) -> (r: Self)
        ensures
            r.secret() == self.secret(),
    {
        proof {
            use_type_invariant(self);
        }
        Ed25519KeyPair { signing_key_bytes: self.signing_key_bytes, verifying_key: self.verifying_key }
    }
}

/// A 32-byte X25519 secret and its public key; any peer combining its own
/// secret with this public key computes the secret this side computes from
/// the peer's public key.
pub open spec fn x25519_pair_valid(secret: Seq<u8>, public: Seq<u8>) -> bool {
    &&& secret.len() == 32
    &&& public == x25519_public(secret)
    &&& forall|other: Seq<u8>|
        other.len() == 32 ==> #[trigger] x25519_shared(other, public) == x25519_shared(
            secret,
            x25519_public(other),
        )
}

/// An X25519 key pair for the pairing key exchange.
pub struct X25519KeyPair {
    secret_bytes: [u8; 32],
    public: [u8; 32],
}

impl X25519KeyPair {
    #[verifier::type_invariant]
    spec fn inv(self) -> bool {
        x25519_pair_valid(self.secret_bytes@, self.public@)
    }

    /// The secret key.
    pub closed spec fn secret(&self) -> Seq<u8> {
        self.secret_bytes@
    }

    /// Generates a key pair from the operating system's random source.
    pub fn generate() -> (r: Result<Self, CryptoError>)
        ensures
            r matches Err(e) ==> e == CryptoError::RandomGenerationFailed,
            r matches Ok(k) ==> k.secret().len() == 32,
    {
        let mut sk = [0u8; 32];
        if !getrandom_fill(&mut sk) {
            return Err(CryptoError::RandomGenerationFailed);
        }
        let public = x25519_public_key(&sk);
        Ok(X25519KeyPair { secret_bytes: sk, public })
    }

    /// The key pair of a given secret.
    pub fn from_secret_bytes(bytes: [u8; 32]) -> (r: Self)
        ensures
            r.secret() == bytes@,
    {
        let public = x25519_public_key(&bytes);
        X25519KeyPair { secret_bytes: bytes, public }
    }

    /// The public key's bytes; a peer combining its own secret with it
    /// gets the secret this pair computes from the peer's public key.
    pub fn public_key_bytes(&self) -> (r: [u8; 32])
        ensures
            r@ == x25519_public(self.secret()),
            x25519_pair_valid(self.secret(), r@),
    {
        proof {
            use_type_invariant(self);
        }
        self.public
    }

    /// The secret key's bytes.
    pub fn secret_key_bytes(&self) -> (r: [u8; 32])
        ensures
            r@ == self.secret(),
    {
        self.secret_bytes
    }

    /// The Diffie-Hellman shared secret with a peer's public key; always
    /// succeeds.
    pub fn diffie_hellman(&self, their_public: &[u8; 32]) -> (r: Result<[u8; 32], CryptoError>)
        ensures
            r matches Ok(s) && s@ == x25519_shared(self.secret(), their_public@),
    {
        Ok(x25519_diffie_hellman(&self.secret_bytes, their_public))
    }
}

/// The client symmetric key (AES-256) shared by a client and its paired
/// servers.
pub struct ClientSymmetricKey(pub(crate) [u8; 32]);

impl View for ClientSymmetricKey {
    type V = Seq<u8>;

    closed spec fn view(&self) -> Seq<u8> {
        self.0@
    }
}

impl ClientSymmetricKey {
    /// A fresh key from the operating system's random source.
    pub fn generate() -> (r: Result<Self, CryptoError>)
        ensures
            r matches Err(e) ==> e == CryptoError::RandomGenerationFailed,
            r matches Ok(k) ==> k@.len() == 32,
    {
        let mut key = [0u8; 32];
        if !getrandom_fill(&mut key) {
            return Err(CryptoError::RandomGenerationFailed);
        }
        Ok(ClientSymmetricKey(key))
    }

    /// The key with the given bytes.
    pub fn from_bytes(bytes: [u8; 32]) -> (r: Self)
        ensures
            r@ == bytes@,
    {
        ClientSymmetricKey(bytes)
    }

    /// The key's bytes.
    pub fn as_bytes(&self) -> (r: &[u8; 32])
        ensures
            r@ == self@,
    {
        &self.0
    }

    /// The key's bytes, consuming the key.
    pub fn to_bytes(self) -> (r: [u8; 32])
        ensures
            r@ == self@,
    {
        self.0
    }
}

impl Clone for ClientSymmetricKey {
    fn clone(&self) -> (r: Self)
        ensures
            r@ == self@,
    {
        ClientSymmetricKey(self.0)
    }
}

/// The ephemeral pairing symmetric key derived from the key exchange.
pub struct PairingSymmetricKey(pub(crate) [u8; 32]);

impl View for PairingSymmetricKey {
    type V = Seq<u8>;

    closed spec fn view(&self) -> Seq<u8> {
        self.0@
    }
}

impl PairingSymmetricKey {
    /// The key with the given bytes.
    pub fn from_bytes(bytes: [u8; 32]) -> (r: Self)
        ensures
            r@ == bytes@,
    {
        PairingSymmetricKey(bytes)
    }

    /// The key's bytes.
    pub fn as_bytes(&self) -> (r: &[u8; 32])
        ensures
            r@ == self@,
    {
        &self.0
    }
}

} // verus!
