//! The cryptographic primitives the protocol is built from, as provided by
//! the RustCrypto and dalek crates, the operating system's random source and
//! the system clock.
//!
//! Each primitive's output is given a name; the contracts below say which
//! name each call returns and state only the few facts that the crates'
//! sources and documentation give (lengths, when a call fails, and that
//! decryption and verification accept what encryption and signing produce).
use aes_gcm::aead::{Aead, KeyInit, Payload};
use aes_gcm::Aes256Gcm;
use ed25519_dalek::{Signer, Verifier};
use hkdf::Hkdf;
use hmac::Mac;
use rand::TryRngCore;
use sha2::{Digest, Sha256};
use vstd::prelude::*;

verus! {

/// The largest plaintext, and the largest associated data, AES-GCM accepts
/// (2^36 bytes).
pub open spec fn aes_gcm_max_len() -> nat {
    0x10_0000_0000
}

/// AES-256-GCM encryption of `plaintext` under `key` and `nonce`,
/// authenticating `aad`: the ciphertext followed by the 16-byte tag.
pub uninterp spec fn aes256_gcm_seal(key: Seq<u8>, nonce: Seq<u8>, plaintext: Seq<u8>, aad: Seq<u8>) -> Seq<u8>;

/// AES-256-GCM decryption: the plaintext when the tag authenticates.
pub uninterp spec fn aes256_gcm_open(key: Seq<u8>, nonce: Seq<u8>, ciphertext: Seq<u8>, aad: Seq<u8>) -> Option<Seq<u8>>;

/// HKDF-SHA256 with no salt: the first `len` bytes of output keying material
/// expanded from `ikm` with context `info`.
pub uninterp spec fn hkdf_sha256(ikm: Seq<u8>, info: Seq<u8>, len: nat) -> Seq<u8>;

/// HMAC-SHA256 of `msg` under `key`.
pub uninterp spec fn hmac_sha256(key: Seq<u8>, msg: Seq<u8>) -> Seq<u8>;

/// SHA-256 of `data`.
pub uninterp spec fn sha256(data: Seq<u8>) -> Seq<u8>;

/// The Ed25519 public key of a 32-byte secret key.
pub uninterp spec fn ed25519_public(secret: Seq<u8>) -> Seq<u8>;

/// The (deterministic) Ed25519 signature of `msg` under a secret key.
pub uninterp spec fn ed25519_signature(secret: Seq<u8>, msg: Seq<u8>) -> Seq<u8>;

/// Whether `sig` is a valid Ed25519 signature of `msg` under `public`.
pub uninterp spec fn ed25519_valid(public: Seq<u8>, msg: Seq<u8>, sig: Seq<u8>) -> bool;

/// The X25519 public key of a 32-byte secret.
pub uninterp spec fn x25519_public(secret: Seq<u8>) -> Seq<u8>;

/// The X25519 shared secret of a secret and a peer's public key.
pub uninterp spec fn x25519_shared(secret: Seq<u8>, public: Seq<u8>) -> Seq<u8>;

/// `Aead::encrypt` of `aes_gcm::Aes256Gcm`: fails exactly when the plaintext
/// or the associated data is longer than 2^36 bytes; otherwise returns the
/// sealed message, 16 bytes longer than the plaintext, which decryption
/// under the same key, nonce and associated data gives back.
#[verifier::external_body]
pub(crate) fn aes256_gcm_encrypt(key: &[u8; 32], nonce: &[u8; 12], plaintext: &[u8], aad: &[u8]) -> (r: Option<Vec<u8>>)
    ensures
        r.is_some() == (plaintext@.len() <= aes_gcm_max_len() && aad@.len() <= aes_gcm_max_len()),
        r matches Some(c) ==> c@ == aes256_gcm_seal(key@, nonce@, plaintext@, aad@),
        r matches Some(c) ==> c@.len() == plaintext@.len() + 16,
        r matches Some(c) ==> aes256_gcm_open(key@, nonce@, c@, aad@) == Some(plaintext@),
{
    let cipher = Aes256Gcm::new(key.into());
    cipher.encrypt(nonce.into(), Payload { msg: plaintext, aad }).ok()
}

/// `Aead::decrypt` of `aes_gcm::Aes256Gcm`: the plaintext when the tag
/// authenticates; always an error on input shorter than the 16-byte tag.
#[verifier::external_body]
pub(crate) fn aes256_gcm_decrypt(key: &[u8; 32], nonce: &[u8; 12], ciphertext: &[u8], aad: &[u8]) -> (r: Option<Vec<u8>>)
    ensures
        r.is_some() == aes256_gcm_open(key@, nonce@, ciphertext@, aad@).is_some(),
        r matches Some(p) ==> aes256_gcm_open(key@, nonce@, ciphertext@, aad@) == Some(p@),
        r is None || ciphertext@.len() >= 16,
{
    let cipher = Aes256Gcm::new(key.into());
    cipher.decrypt(nonce.into(), Payload { msg: ciphertext, aad }).ok()
}

/// `Hkdf::<Sha256>::new(None, ikm)` then `expand_multi_info(&[info_a,
/// info_b], ..)` into `N` bytes, which the crate documents as the expansion
/// with the concatenated context; it fails exactly when `N` exceeds
/// 255 * 32 bytes.
#[verifier::external_body]
pub(crate) fn hkdf_sha256_expand<const N: usize>(ikm: &[u8], info_a: &[u8], info_b: &[u8]) -> (r: Option<[u8; N]>)
    ensures
        r.is_some() == (N <= 8160),
        r matches Some(okm) ==> okm@ == hkdf_sha256(ikm@, info_a@ + info_b@, N as nat),
{
    let hk = Hkdf::<Sha256>::new(None, ikm);
    let mut okm = [0u8; N];
    match hk.expand_multi_info(&[info_a, info_b], &mut okm) {
        Ok(()) => Some(okm),
        Err(_) => None,
    }
}

/// `Hmac::<Sha256>::new_from_slice(key)`, `update(msg)`, `finalize()`: the
/// keyed hash, 32 bytes long; HMAC accepts keys of any length, so it always
/// succeeds.
#[verifier::external_body]
pub(crate) fn hmac_sha256_tag(key: &[u8], msg: &[u8]) -> (r: Option<[u8; 32]>)
    ensures
        r is Some,
        r matches Some(t) ==> t@ == hmac_sha256(key@, msg@),
        r matches Some(t) ==> hmac_sha256(key@, msg@).len() == 32,
{
    match <hmac::Hmac<Sha256> as Mac>::new_from_slice(key) {
        Ok(mut mac) => {
            mac.update(msg);
            Some(mac.finalize().into_bytes().into())
        },
        Err(_) => None,
    }
}

/// `Sha256::new()`, `update(data)`, `finalize()`: the 32-byte digest.
#[verifier::external_body]
pub(crate) fn sha256_digest(data: &[u8]) -> (r: [u8; 32])
    ensures
        r@ == sha256(data@),
{
    let mut hasher = Sha256::new();
    hasher.update(data);
    hasher.finalize().into()
}

/// `SigningKey::from_bytes(secret).verifying_key()` of `ed25519_dalek`: the
/// public key, as its 32 bytes.
#[verifier::external_body]
pub(crate) fn ed25519_verifying_key(secret: &[u8; 32]) -> (r: [u8; 32])
    ensures
        r@ == ed25519_public(secret@),
{
    ed25519_dalek::SigningKey::from_bytes(secret).verifying_key().to_bytes()
}

/// `SigningKey::sign` of `ed25519_dalek`: the 64-byte signature, which
/// verification under the matching public key accepts.
#[verifier::external_body]
pub(crate) fn ed25519_sign(secret: &[u8; 32], msg: &[u8]) -> (r: [u8; 64])
    ensures
        r@ == ed25519_signature(secret@, msg@),
        ed25519_valid(ed25519_public(secret@), msg@, r@),
{
    ed25519_dalek::SigningKey::from_bytes(secret).sign(msg).to_bytes()
}

/// `VerifyingKey::from_bytes(public)` and `Verifier::verify` of
/// `ed25519_dalek`: whether the signature is valid (`false` also when the
/// public key is not a valid curve point).
#[verifier::external_body]
pub(crate) fn ed25519_verify(public: &[u8; 32], msg: &[u8], sig: &[u8; 64]) -> (r: bool)
    ensures
        r == ed25519_valid(public@, msg@, sig@),
{
    match ed25519_dalek::VerifyingKey::from_bytes(public) {
        Ok(vk) => vk.verify(msg, &ed25519_dalek::Signature::from_bytes(sig)).is_ok(),
        Err(_) => false,
    }
}

/// `PublicKey::from(&StaticSecret::from(secret))` of `x25519_dalek`; two
/// parties that exchange public keys compute the same shared secret.
#[verifier::external_body]
pub(crate) fn x25519_public_key(secret: &[u8; 32]) -> (r: [u8; 32])
    ensures
        r@ == x25519_public(secret@),
        forall|other: Seq<u8>|
            other.len() == 32 ==> #[trigger] x25519_shared(other, r@) == x25519_shared(
                secret@,
                x25519_public(other),
            ),
{
    x25519_dalek::PublicKey::from(&x25519_dalek::StaticSecret::from(*secret)).to_bytes()
}

/// `StaticSecret::diffie_hellman` of `x25519_dalek`: the 32-byte shared
/// secret.
#[verifier::external_body]
pub(crate) fn x25519_diffie_hellman(secret: &[u8; 32], public: &[u8; 32]) -> (r: [u8; 32])
    ensures
        r@ == x25519_shared(secret@, public@),
{
    let secret = x25519_dalek::StaticSecret::from(*secret);
    secret.diffie_hellman(&x25519_dalek::PublicKey::from(*public)).to_bytes()
}

/// `getrandom::fill`: fills `dest` from the operating system's random
/// source; `false` when the source fails. Nothing is stated of the bytes.
#[verifier::external_body]
pub(crate) fn getrandom_fill(dest: &mut [u8]) -> (ok: bool)
    ensures
        final(dest)@.len() == old(dest)@.len(),
{
    getrandom::fill(dest).is_ok()
}

/// `OsRng::try_fill_bytes` of `rand`: fills `dest` from the operating
/// system's random source; `false` when the source fails.
#[verifier::external_body]
pub(crate) fn os_rng_fill(dest: &mut [u8]) -> (ok: bool)
    ensures
        final(dest)@.len() == old(dest)@.len(),
{
    rand::rngs::OsRng.try_fill_bytes(dest).is_ok()
}

#[verifier::external_type_specification]
#[verifier::external_body]
pub struct ExSystemTime(std::time::SystemTime);

/// `SystemTime::now` (std): the current time of the system clock.
#[verifier::external_body]
pub(crate) fn system_time_now() -> std::time::SystemTime {
    std::time::SystemTime::now()
}

/// `SystemTime::duration_since(UNIX_EPOCH)` (std): the time elapsed since
/// the epoch; `None` for a time before the epoch.
#[verifier::external_body]
pub(crate) fn duration_since_epoch(t: &std::time::SystemTime) -> Option<std::time::Duration> {
    t.duration_since(std::time::UNIX_EPOCH).ok()
}

/// `Duration::as_secs` (std): the whole seconds of a duration.
#[verifier::external_body]
pub(crate) fn whole_seconds(d: &std::time::Duration) -> u64 {
    d.as_secs()
}

/// The current Unix time in whole seconds; `None` when the clock reads a
/// time before the epoch.
pub fn unix_time_secs() -> Option<u64> {
    let now = system_time_now();
    match duration_since_epoch(&now) {
        Some(d) => Some(whole_seconds(&d)),
        None => None,
    }
}

} // verus!
