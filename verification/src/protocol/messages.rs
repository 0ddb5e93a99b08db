//! Creation and verification of the authentication messages. Signatures
//! cover the whole wrapper message, encoded with an empty signature field.
use crate::crypto::keys::Ed25519KeyPair;
use crate::crypto::primitives::{
    ed25519_public, ed25519_signature, getrandom_fill, sha256, sha256_digest, unix_time_secs,
};
use crate::crypto::signing::{sign_ed25519, spec_signature_valid, verify_ed25519};
use crate::crypto::CryptoError;
use crate::fields::{push_bytes_field, push_i32_field, push_varint_field};
use crate::pb::wrapper_message::{
    push_payload_field, spec_encode_wrapper, Payload, PayloadView, WrapperMessage,
    WrapperMessageView, opt_payload_view, wrapper_records,
};
use crate::pb::{
    AuthenticationCancel, AuthenticationDenial, AuthenticationGrant, AuthenticationRequest,
    AuthenticationRequestView, GrantConfirmation, SIGNATURE_ED25519,
};
use crate::protocol::ProtocolError;
use crate::text::{hex_encode, hex_text};
use crate::wire::{encode_records, records_view, Record};
use vstd::prelude::*;

verus! {

/// Largest difference, in seconds, between a request's timestamp and the
/// local clock.
pub const MAX_CLOCK_SKEW: u64 = 60;

/// The wrapper with its signature field emptied: what a signature covers.
pub open spec fn spec_unsigned(w: WrapperMessageView) -> WrapperMessageView {
    WrapperMessageView { signature: Seq::empty(), ..w }
}

/// Whether the wrapper's signature is a valid Ed25519 signature, under
/// `public_key`, of the wrapper's encoding with the signature emptied.
pub open spec fn spec_wrapper_signature_ok(w: WrapperMessageView, public_key: Seq<u8>) -> bool {
    spec_signature_valid(public_key, spec_encode_wrapper(spec_unsigned(w)), w.signature)
}

/// Whether a request's timestamp lies within the allowed skew of `now`.
pub open spec fn spec_timestamp_valid(timestamp: u64, now: u64) -> bool {
    now - MAX_CLOCK_SKEW <= timestamp <= now + MAX_CLOCK_SKEW
}

/// Lowercase hex of the SHA-256 digest, for diagnostics.
pub fn sha256_hex(data: &[u8]) -> (r: String)
    ensures
        r@ == hex_text(sha256(data@)),
{
    let digest = sha256_digest(data);
    hex_encode(digest.as_slice())
}

/// The encoding of a wrapper with its signature field left empty.
fn unsigned_encoding(w: &WrapperMessage) -> (r: Vec<u8>)
    ensures
        r@ == spec_encode_wrapper(spec_unsigned(w@)),
{
    let mut rs: Vec<Record> = Vec::new();
    push_varint_field(&mut rs, 1, w.version as u64);
    push_i32_field(&mut rs, 2, w.signature_algorithm);
    let empty: Vec<u8> = Vec::new();
    push_bytes_field(&mut rs, 3, empty.as_slice());
    push_payload_field(&mut rs, &w.payload);
    assert(records_view(rs@) =~= wrapper_records(spec_unsigned(w@)));
    encode_records(&rs)
}

/// Signs a wrapper: sets the algorithm to Ed25519 and the signature to the
/// signature of the wrapper encoded with an empty signature field. The
/// signed wrapper verifies under the key pair's public key.
pub fn sign_wrapper_message(wrapper: &mut WrapperMessage, keypair: &Ed25519KeyPair) -> (r: Result<(), ProtocolError>)
    ensures
        r is Ok,
        final(wrapper)@ == (WrapperMessageView {
            signature_algorithm: SIGNATURE_ED25519,
            signature: final(wrapper)@.signature,
            ..old(wrapper)@
        }),
        final(wrapper)@.signature == ed25519_signature(
            keypair.secret(),
            spec_encode_wrapper(spec_unsigned(final(wrapper)@)),
        ),
        spec_wrapper_signature_ok(final(wrapper)@, ed25519_public(keypair.secret())),
{
    wrapper.signature_algorithm = SIGNATURE_ED25519;
    wrapper.signature = Vec::new();
    let data_to_sign = unsigned_encoding(wrapper);
    wrapper.signature = sign_ed25519(keypair, data_to_sign.as_slice());
    Ok(())
}

/// Verifies a wrapper's signature under `public_key`; fails with the
/// crypto error `InvalidSignature` exactly when it does not verify.
pub fn verify_wrapper_signature(wrapper: &WrapperMessage, public_key: &[u8; 32]) -> (r: Result<(), ProtocolError>)
    ensures
        r is Ok <==> spec_wrapper_signature_ok(wrapper@, public_key@),
        r matches Err(e) ==> e == ProtocolError::Crypto(CryptoError::InvalidSignature),
{
    let data_to_verify = unsigned_encoding(wrapper);
    match verify_ed25519(public_key, data_to_verify.as_slice(), wrapper.signature.as_slice()) {
        Ok(()) => Ok(()),
        Err(e) => Err(ProtocolError::Crypto(e)),
    }
}

/// Copies a byte slice into a vector.
fn to_vec(b: &[u8]) -> (r: Vec<u8>)
    ensures
        r@ == b@,
{
    crate::wire::copy_range(b, 0, b.len())
}

/// A request with a fresh random challenge and the current time.
pub fn create_auth_request(username: &str, hostname: &str) -> (r: Result<AuthenticationRequest, ProtocolError>)
    ensures
        r matches Err(e) ==> e == ProtocolError::Crypto(CryptoError::RandomGenerationFailed) || e
            == ProtocolError::Crypto(CryptoError::SystemTimeError),
        r matches Ok(req) ==> req.challenge@.len() == 32 && req.username@ == username@
            && req.hostname@ == hostname@,
{
    let mut challenge = [0u8; 32];
    if !getrandom_fill(&mut challenge) {
        return Err(ProtocolError::Crypto(CryptoError::RandomGenerationFailed));
    }
    create_auth_request_with_challenge(username, hostname, challenge.as_slice())
}

/// A request for `username` on `hostname` with the given 32-byte challenge,
/// stamped with the Unix time `now`; `InvalidMessageFormat` for a
/// challenge of another length.
pub fn create_auth_request_at(username: &str, hostname: &str, challenge: &[u8], now: u64) -> (r: Result<AuthenticationRequest, ProtocolError>)
    ensures
        challenge@.len() != 32 ==> r == Err::<AuthenticationRequest, ProtocolError>(
            ProtocolError::InvalidMessageFormat,
        ),
        challenge@.len() == 32 ==> (r matches Ok(req) && req.challenge@ == challenge@ && req.username@ == username@
            && req.hostname@ == hostname@ && req.timestamp_unix_seconds == now),
{
    if challenge.len() != 32 {
        return Err(ProtocolError::InvalidMessageFormat);
    }
    Ok(AuthenticationRequest {
        challenge: to_vec(challenge),
        username: username.to_owned(),
        hostname: hostname.to_owned(),
        timestamp_unix_seconds: now,
    })
}

/// A request for `username` on `hostname` with the given 32-byte challenge,
/// stamped with the current time (see [`create_auth_request_at`]);
/// `SystemTimeError` when the clock reads a time before the Unix epoch.
pub fn create_auth_request_with_challenge(username: &str, hostname: &str, challenge: &[u8]) -> (r: Result<AuthenticationRequest, ProtocolError>)
    ensures
        challenge@.len() != 32 ==> r == Err::<AuthenticationRequest, ProtocolError>(
            ProtocolError::InvalidMessageFormat,
        ),
        challenge@.len() == 32 ==> (r is Ok || r == Err::<AuthenticationRequest, ProtocolError>(
            ProtocolError::Crypto(CryptoError::SystemTimeError),
        )),
        r matches Ok(req) ==> req.challenge@ == challenge@ && req.username@ == username@
            && req.hostname@ == hostname@,
{
    if challenge.len() != 32 {
        return Err(ProtocolError::InvalidMessageFormat);
    }
    let timestamp = match unix_time_secs() {
        Some(t) => t,
        None => {
            return Err(ProtocolError::Crypto(CryptoError::SystemTimeError));
        },
    };
    create_auth_request_at(username, hostname, challenge, timestamp)
}

/// Whether a request's timestamp is within a minute of `now`.
pub fn is_request_timestamp_valid_at(request: &AuthenticationRequest, now: u64) -> (r: bool)
    ensures
        r == spec_timestamp_valid(request.timestamp_unix_seconds, now),
{
    let timestamp = request.timestamp_unix_seconds;
    timestamp <= now.saturating_add(MAX_CLOCK_SKEW) && timestamp >= now.saturating_sub(
        MAX_CLOCK_SKEW,
    )
}

/// Whether a request's timestamp is within a minute of the local clock;
/// `false` when the clock reads a time before the epoch.
pub fn is_request_timestamp_valid(request: &AuthenticationRequest) -> (r: bool)
    ensures
        r ==> exists|now: u64| spec_timestamp_valid(request.timestamp_unix_seconds, now),
{
    match unix_time_secs() {
        Some(now) => is_request_timestamp_valid_at(request, now),
        None => false,
    }
}

/// A grant: the server's signature of the 32-byte challenge.
pub fn create_auth_grant(keypair: &Ed25519KeyPair, challenge: &[u8]) -> (r: Result<AuthenticationGrant, ProtocolError>)
    ensures
        r is Err <==> challenge@.len() != 32,
        r matches Err(e) ==> e == ProtocolError::InvalidMessageFormat,
        r matches Ok(g) ==> g.signed_challenge@ == ed25519_signature(keypair.secret(), challenge@)
            && spec_signature_valid(ed25519_public(keypair.secret()), challenge@, g.signed_challenge@),
{
    if challenge.len() != 32 {
        return Err(ProtocolError::InvalidMessageFormat);
    }
    let signed_challenge = sign_ed25519(keypair, challenge);
    Ok(AuthenticationGrant { signed_challenge })
}

/// Checks a granting wrapper: the wrapper's signature, that it carries a
/// grant, and that the grant signs the 32-byte challenge, all under the
/// server's key.
pub fn verify_auth_grant(wrapper: &WrapperMessage, challenge: &[u8], server_public_key: &[u8; 32]) -> (r: Result<(), ProtocolError>)
    ensures
        r is Ok <==> challenge@.len() == 32 && spec_wrapper_signature_ok(
            wrapper@,
            server_public_key@,
        ) && (wrapper@.payload matches Some(PayloadView::AuthGrant(g)) && spec_signature_valid(
            server_public_key@,
            challenge@,
            g.signed_challenge,
        )),
        challenge@.len() != 32 ==> r == Err::<(), ProtocolError>(ProtocolError::InvalidMessageFormat),
{
    if challenge.len() != 32 {
        return Err(ProtocolError::InvalidMessageFormat);
    }
    match verify_wrapper_signature(wrapper, server_public_key) {
        Ok(()) => {},
        Err(e) => {
            return Err(e);
        },
    }
    let grant = match &wrapper.payload {
        Some(Payload::AuthGrant(g)) => g,
        _ => {
            return Err(ProtocolError::InvalidMessageFormat);
        },
    };
    match verify_ed25519(server_public_key, challenge, grant.signed_challenge.as_slice()) {
        Ok(()) => Ok(()),
        Err(e) => Err(ProtocolError::Crypto(e)),
    }
}

/// A denial of the request with the given 32-byte challenge.
pub fn create_auth_denial(challenge: &[u8]) -> (r: Result<AuthenticationDenial, ProtocolError>)
    ensures
        r is Err <==> challenge@.len() != 32,
        r matches Err(e) ==> e == ProtocolError::InvalidMessageFormat,
        r matches Ok(d) ==> d.challenge@ == challenge@,
{
    if challenge.len() != 32 {
        return Err(ProtocolError::InvalidMessageFormat);
    }
    Ok(AuthenticationDenial { challenge: to_vec(challenge) })
}

/// A confirmation that the grant for the given 32-byte challenge was used.
pub fn create_grant_confirmation(challenge: &[u8]) -> (r: Result<GrantConfirmation, ProtocolError>)
    ensures
        r is Err <==> challenge@.len() != 32,
        r matches Err(e) ==> e == ProtocolError::InvalidMessageFormat,
        r matches Ok(c) ==> c.challenge@ == challenge@,
{
    if challenge.len() != 32 {
        return Err(ProtocolError::InvalidMessageFormat);
    }
    Ok(GrantConfirmation { challenge: to_vec(challenge) })
}

/// A cancellation of the request with the given 32-byte challenge.
pub fn create_auth_cancel(challenge: &[u8]) -> (r: Result<AuthenticationCancel, ProtocolError>)
    ensures
        r is Err <==> challenge@.len() != 32,
        r matches Err(e) ==> e == ProtocolError::InvalidMessageFormat,
        r matches Ok(c) ==> c.challenge@ == challenge@,
{
    if challenge.len() != 32 {
        return Err(ProtocolError::InvalidMessageFormat);
    }
    Ok(AuthenticationCancel { challenge: to_vec(challenge) })
}

} // verus!
