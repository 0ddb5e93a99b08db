//! Ed25519 signatures over byte strings.
use crate::crypto::keys::Ed25519KeyPair;
use crate::crypto::primitives::{ed25519_public, ed25519_signature, ed25519_valid, ed25519_verify};
use crate::crypto::CryptoError;
use crate::text::take64;
use vstd::prelude::*;

verus! {

/// Whether `signature` is a valid 64-byte Ed25519 signature of `data`
/// under `public_key`.
pub open spec fn spec_signature_valid(public_key: Seq<u8>, data: Seq<u8>, signature: Seq<u8>) -> bool {
    signature.len() == 64 && ed25519_valid(public_key, data, signature)
}

/// Signs `data`; the 64-byte signature verifies under the key pair's public
/// key.
pub fn sign_ed25519(keypair: &Ed25519KeyPair, data: &[u8]) -> (r: Vec<u8>)
    ensures
        r@ == ed25519_signature(keypair.secret(), data@),
        spec_signature_valid(ed25519_public(keypair.secret()), data@, r@),
{
    let sig = keypair.sign(data);
    let mut v: Vec<u8> = Vec::new();
    crate::wire::append_bytes(&mut v, sig.as_slice());
    assert(v@ =~= sig@);
    v
}

/// Verifies an Ed25519 signature; `InvalidSignature` when it is not 64
/// bytes long or does not verify.
pub fn verify_ed25519(public_key: &[u8; 32], data: &[u8], signature: &[u8]) -> (r: Result<(), CryptoError>)
    ensures
        r is Ok <==> spec_signature_valid(public_key@, data@, signature@),
        r matches Err(e) ==> e == CryptoError::InvalidSignature,
{
    if signature.len() != 64 {
        return Err(CryptoError::InvalidSignature);
    }
    let sig = take64(signature);
    assert(signature@.take(64) =~= signature@);
    if ed25519_verify(public_key, data, &sig) {
        Ok(())
    } else {
        Err(CryptoError::InvalidSignature)
    }
}

} // verus!
