//! AES-256-GCM encryption under the client and pairing symmetric keys, with
//! nonces either derived from a challenge and a context string or drawn at
//! random and carried in front of the ciphertext.
use crate::crypto::keys::{ClientSymmetricKey, PairingSymmetricKey};
use crate::crypto::primitives::{
    aes256_gcm_decrypt, aes256_gcm_encrypt, aes256_gcm_open, aes256_gcm_seal, aes_gcm_max_len,
    hkdf_sha256, hkdf_sha256_expand, os_rng_fill,
};
use crate::crypto::CryptoError;
use crate::wire::{append_bytes, copy_range};
use vstd::prelude::*;

verus! {

broadcast use vstd::array::group_array_axioms;

/// The nonce derived from a challenge and a context string (HKDF-SHA256,
/// 12 bytes).
pub open spec fn derived_nonce(challenge: Seq<u8>, info: Seq<u8>) -> Seq<u8> {
    hkdf_sha256(challenge, info, 12)
}

/// Decryption of a nonce-prefixed message: the first 12 bytes are the
/// nonce, the rest is the sealed message (no associated data).
pub open spec fn spec_open_prefixed(key: Seq<u8>, data: Seq<u8>) -> Option<Seq<u8>> {
    if data.len() < 12 {
        None
    } else {
        aes256_gcm_open(key, data.take(12), data.skip(12), Seq::empty())
    }
}

/// Encrypts with AES-256-GCM; fails exactly when the plaintext or the
/// associated data is too long for the cipher.
pub fn encrypt_aes_gcm(key: &[u8; 32], nonce: &[u8; 12], plaintext: &[u8], associated_data: &[u8]) -> (r: Result<Vec<u8>, CryptoError>)
    ensures
        r is Ok <==> plaintext@.len() <= aes_gcm_max_len() && associated_data@.len() <= aes_gcm_max_len(),
        r matches Ok(c) ==> c@ == aes256_gcm_seal(key@, nonce@, plaintext@, associated_data@),
        r matches Ok(c) ==> c@.len() == plaintext@.len() + 16,
        r matches Ok(c) ==> aes256_gcm_open(key@, nonce@, c@, associated_data@) == Some(plaintext@),
        r matches Err(e) ==> e == CryptoError::EncryptionFailed,
{
    match aes256_gcm_encrypt(key, nonce, plaintext, associated_data) {
        Some(c) => Ok(c),
        None => Err(CryptoError::EncryptionFailed),
    }
}

/// Decrypts with AES-256-GCM; fails exactly when the message does not
/// authenticate.
pub fn decrypt_aes_gcm(key: &[u8; 32], nonce: &[u8; 12], ciphertext: &[u8], associated_data: &[u8]) -> (r: Result<Vec<u8>, CryptoError>)
    ensures
        r is Ok <==> aes256_gcm_open(key@, nonce@, ciphertext@, associated_data@) is Some,
        r matches Ok(p) ==> aes256_gcm_open(key@, nonce@, ciphertext@, associated_data@) == Some(p@),
        r matches Err(e) ==> e == CryptoError::DecryptionFailed,
{
    match aes256_gcm_decrypt(key, nonce, ciphertext, associated_data) {
        Some(p) => Ok(p),
        None => Err(CryptoError::DecryptionFailed),
    }
}

/// Derives a 12-byte nonce from a challenge and a context string; always
/// succeeds.
pub fn derive_nonce(challenge: &[u8; 32], info: &[u8]) -> (r: Result<[u8; 12], CryptoError>)
    ensures
        r matches Ok(n) && n@ == derived_nonce(challenge@, info@),
{
    let empty: [u8; 0] = [];
    match hkdf_sha256_expand::<12>(challenge, info, &empty) {
        Some(n) => {
            assert(info@ + empty@ =~= info@);
            Ok(n)
        },
        None => Err(CryptoError::KeyDerivationFailed),
    }
}

/// Encrypts under the client key with the nonce derived from `challenge`
/// and `context`; decryption with the same inputs gives the plaintext back.
pub fn encrypt_with_csk(csk: &ClientSymmetricKey, challenge: &[u8; 32], context: &[u8], plaintext: &[u8]) -> (r: Result<Vec<u8>, CryptoError>)
    ensures
        r is Ok <==> plaintext@.len() <= aes_gcm_max_len(),
        r matches Ok(c) ==> c@ == aes256_gcm_seal(csk@, derived_nonce(challenge@, context@), plaintext@, Seq::empty()),
        r matches Ok(c) ==> c@.len() == plaintext@.len() + 16,
        r matches Ok(c) ==> aes256_gcm_open(csk@, derived_nonce(challenge@, context@), c@, Seq::empty()) == Some(plaintext@),
        r matches Err(e) ==> e == CryptoError::EncryptionFailed,
{
    let nonce = match derive_nonce(challenge, context) {
        Ok(n) => n,
        Err(e) => {
            return Err(e);
        },
    };
    let empty: [u8; 0] = [];
    assert(empty@ =~= Seq::<u8>::empty());
    encrypt_aes_gcm(csk.as_bytes(), &nonce, plaintext, &empty)
}

/// Decrypts under the client key with the nonce derived from `challenge`
/// and `context`.
pub fn decrypt_with_csk(csk: &ClientSymmetricKey, challenge: &[u8; 32], context: &[u8], ciphertext: &[u8]) -> (r: Result<Vec<u8>, CryptoError>)
    ensures
        r is Ok <==> aes256_gcm_open(csk@, derived_nonce(challenge@, context@), ciphertext@, Seq::empty()) is Some,
        r matches Ok(p) ==> aes256_gcm_open(csk@, derived_nonce(challenge@, context@), ciphertext@, Seq::empty()) == Some(p@),
        r matches Err(e) ==> e == CryptoError::DecryptionFailed,
{
    let nonce = match derive_nonce(challenge, context) {
        Ok(n) => n,
        Err(e) => {
            return Err(e);
        },
    };
    let empty: [u8; 0] = [];
    assert(empty@ =~= Seq::<u8>::empty());
    decrypt_aes_gcm(csk.as_bytes(), &nonce, ciphertext, &empty)
}

/// The first 12 bytes of `data`.
fn nonce_prefix(data: &[u8]) -> (r: [u8; 12])
    requires
        data@.len() >= 12,
    ensures
        r@ == data@.take(12),
{
    let mut out = [0u8; 12];
    let mut i: usize = 0;
    while i < 12
        invariant
            i <= 12,
            data@.len() >= 12,
            forall|j: int| 0 <= j < i ==> out@[j] == data@[j],
        decreases 12 - i,
    {
        out[i] = data[i];
        i = i + 1;
    }
    assert(out@ =~= data@.take(12));
    out
}

/// Seals `plaintext` under `key` with a fresh random nonce and puts the
/// nonce in front of the sealed message.
fn seal_with_random_nonce(key: &[u8; 32], plaintext: &[u8]) -> (r: Result<Vec<u8>, CryptoError>)
    ensures
        plaintext@.len() > aes_gcm_max_len() ==> r is Err,
        r matches Err(e) ==> e == CryptoError::RandomGenerationFailed || (e
            == CryptoError::EncryptionFailed && plaintext@.len() > aes_gcm_max_len()),
        r matches Ok(out) ==> out@.len() == plaintext@.len() + 28 && out@.skip(12)
            == aes256_gcm_seal(key@, out@.take(12), plaintext@, Seq::empty()) && spec_open_prefixed(
            key@,
            out@,
        ) == Some(plaintext@),
{
    let mut nonce = [0u8; 12];
    if !os_rng_fill(&mut nonce) {
        return Err(CryptoError::RandomGenerationFailed);
    }
    let empty: [u8; 0] = [];
    assert(empty@ =~= Seq::<u8>::empty());
    let ciphertext = match encrypt_aes_gcm(key, &nonce, plaintext, &empty) {
        Ok(c) => c,
        Err(e) => {
            return Err(e);
        },
    };
    let mut out: Vec<u8> = Vec::new();
    append_bytes(&mut out, nonce.as_slice());
    append_bytes(&mut out, ciphertext.as_slice());
    assert(out@.take(12) =~= nonce@);
    assert(out@.skip(12) =~= ciphertext@);
    Ok(out)
}

/// Opens a nonce-prefixed message under `key`.
fn open_prefixed(key: &[u8; 32], data: &[u8]) -> (r: Result<Vec<u8>, CryptoError>)
    ensures
        r is Ok <==> spec_open_prefixed(key@, data@) is Some,
        r matches Ok(p) ==> spec_open_prefixed(key@, data@) == Some(p@),
        r matches Err(e) ==> e == CryptoError::DecryptionFailed,
{
    if data.len() < 12 {
        return Err(CryptoError::DecryptionFailed);
    }
    let nonce = nonce_prefix(data);
    let rest = copy_range(data, 12, data.len());
    assert(rest@ =~= data@.skip(12));
    let empty: [u8; 0] = [];
    assert(empty@ =~= Seq::<u8>::empty());
    decrypt_aes_gcm(key, &nonce, rest.as_slice(), &empty)
}

/// Encrypts under the client key with a random nonce, which is put in front
/// of the sealed message; used where the challenge travels inside the
/// payload and cannot seed the nonce.
pub fn encrypt_with_csk_and_random_nonce(csk: &ClientSymmetricKey, plaintext: &[u8]) -> (r: Result<Vec<u8>, CryptoError>)
    ensures
        plaintext@.len() > aes_gcm_max_len() ==> r is Err,
        r matches Err(e) ==> e == CryptoError::RandomGenerationFailed || (e
            == CryptoError::EncryptionFailed && plaintext@.len() > aes_gcm_max_len()),
        r matches Ok(out) ==> out@.len() == plaintext@.len() + 28 && out@.skip(12)
            == aes256_gcm_seal(csk@, out@.take(12), plaintext@, Seq::empty()),
        r matches Ok(out) ==> spec_open_prefixed(csk@, out@) == Some(plaintext@),
{
    seal_with_random_nonce(csk.as_bytes(), plaintext)
}

/// Decrypts a message whose first 12 bytes are the nonce, under the client
/// key.
pub fn decrypt_with_csk_and_prepended_nonce(csk: &ClientSymmetricKey, ciphertext_with_nonce: &[u8]) -> (r: Result<Vec<u8>, CryptoError>)
    ensures
        r is Ok <==> spec_open_prefixed(csk@, ciphertext_with_nonce@) is Some,
        r matches Ok(p) ==> spec_open_prefixed(csk@, ciphertext_with_nonce@) == Some(p@),
        r matches Err(e) ==> e == CryptoError::DecryptionFailed,
{
    open_prefixed(csk.as_bytes(), ciphertext_with_nonce)
}

/// Encrypts under the pairing key with a random nonce put in front of the
/// sealed message.
pub fn encrypt_with_psk(psk: &PairingSymmetricKey, plaintext: &[u8]) -> (r: Result<Vec<u8>, CryptoError>)
    ensures
        plaintext@.len() > aes_gcm_max_len() ==> r is Err,
        r matches Err(e) ==> e == CryptoError::RandomGenerationFailed || (e
            == CryptoError::EncryptionFailed && plaintext@.len() > aes_gcm_max_len()),
        r matches Ok(out) ==> out@.len() == plaintext@.len() + 28 && out@.skip(12)
            == aes256_gcm_seal(psk@, out@.take(12), plaintext@, Seq::empty()),
        r matches Ok(out) ==> spec_open_prefixed(psk@, out@) == Some(plaintext@),
{
    seal_with_random_nonce(psk.as_bytes(), plaintext)
}

/// Decrypts a nonce-prefixed message under the pairing key.
pub fn decrypt_with_psk(psk: &PairingSymmetricKey, ciphertext_with_nonce: &[u8]) -> (r: Result<Vec<u8>, CryptoError>)
    ensures
        r is Ok <==> spec_open_prefixed(psk@, ciphertext_with_nonce@) is Some,
        r matches Ok(p) ==> spec_open_prefixed(psk@, ciphertext_with_nonce@) == Some(p@),
        r matches Err(e) ==> e == CryptoError::DecryptionFailed,
{
    open_prefixed(psk.as_bytes(), ciphertext_with_nonce)
}

} // verus!
