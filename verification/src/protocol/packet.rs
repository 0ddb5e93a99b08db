//! The encrypted packet: a wrapper message encrypted under the client key,
//! tagged with the client's current temporal identifier.
use crate::crypto::encryption::{
    decrypt_with_csk, decrypt_with_csk_and_prepended_nonce, derived_nonce, encrypt_with_csk,
    encrypt_with_csk_and_random_nonce, spec_open_prefixed,
};
use crate::crypto::keys::ClientSymmetricKey;
use crate::crypto::primitives::{aes256_gcm_open, aes_gcm_max_len};
use crate::crypto::temporal::{
    generate_current_temporal_identifier, spec_temporal_identifier, spec_time_window,
};
use crate::crypto::CryptoError;
use crate::pb::wrapper_message::{
    lemma_wrapper_roundtrip, payload_field, spec_decode_wrapper, spec_encode_wrapper, wrapper_wf, Payload,
    PayloadView, WrapperMessage, WrapperMessageView,
};
use crate::pb::{
    spec_decode_encrypted_packet, AuthenticationCancel, AuthenticationDenial, AuthenticationGrant,
    AuthenticationRequest, DecodeError, EncryptedPacket, EncryptedPacketView, GrantConfirmation,
    SIGNATURE_ED25519, SYMMETRIC_AES256_GCM,
};
use crate::protocol::ProtocolError;
use vstd::prelude::*;

verus! {

/// The wrapper that an encrypted packet holds, when it decrypts under the
/// challenge-derived nonce and decodes.
pub open spec fn spec_packet_wrapper(
    csk: Seq<u8>,
    challenge: Seq<u8>,
    context: Seq<u8>,
    ciphertext: Seq<u8>,
) -> Option<WrapperMessageView> {
    match aes256_gcm_open(csk, derived_nonce(challenge, context), ciphertext, Seq::empty()) {
        Some(p) => spec_decode_wrapper(p),
        None => None,
    }
}

/// The wrapper that a packet with a nonce-prefixed ciphertext holds.
pub open spec fn spec_prefixed_packet_wrapper(csk: Seq<u8>, ciphertext: Seq<u8>) -> Option<WrapperMessageView> {
    match spec_open_prefixed(csk, ciphertext) {
        Some(p) => spec_decode_wrapper(p),
        None => None,
    }
}

/// A wrapper of protocol version 1, signature algorithm Ed25519, no
/// signature yet, carrying `p`.
pub open spec fn spec_wrapped(p: PayloadView) -> WrapperMessageView {
    WrapperMessageView {
        version: 1,
        signature_algorithm: SIGNATURE_ED25519,
        signature: Seq::empty(),
        payload: Some(p),
    }
}

/// Decrypting a packet whose ciphertext seals the encoding of a wrapper
/// gives that wrapper back.
pub proof fn lemma_packet_roundtrip(csk: Seq<u8>, challenge: Seq<u8>, context: Seq<u8>, ciphertext: Seq<u8>, w: WrapperMessageView)
    requires
        wrapper_wf(w),
        aes256_gcm_open(csk, derived_nonce(challenge, context), ciphertext, Seq::empty()) == Some(
            spec_encode_wrapper(w),
        ),
    ensures
        spec_packet_wrapper(csk, challenge, context, ciphertext) == Some(w),
{
    lemma_wrapper_roundtrip(w);
}

/// Decrypting a packet whose nonce-prefixed ciphertext seals the encoding
/// of a wrapper gives that wrapper back.
pub proof fn lemma_prefixed_packet_roundtrip(csk: Seq<u8>, ciphertext: Seq<u8>, w: WrapperMessageView)
    requires
        wrapper_wf(w),
        spec_open_prefixed(csk, ciphertext) == Some(spec_encode_wrapper(w)),
    ensures
        spec_prefixed_packet_wrapper(csk, ciphertext) == Some(w),
{
    lemma_wrapper_roundtrip(w);
}

/// Encrypts a wrapper under the client key with the nonce derived from the
/// challenge and context, tagged with the current temporal identifier.
pub fn create_encrypted_packet(csk: &ClientSymmetricKey, challenge: &[u8; 32], context: &[u8], wrapper: &WrapperMessage) -> (r: Result<EncryptedPacket, ProtocolError>)
    ensures
        r matches Err(e) ==> e == ProtocolError::Crypto(CryptoError::SystemTimeError) || (e
            == ProtocolError::Crypto(CryptoError::EncryptionFailed) && spec_encode_wrapper(
            wrapper@,
        ).len() > aes_gcm_max_len()),
        r matches Ok(p) ==> p.encryption_algorithm == SYMMETRIC_AES256_GCM && (exists|t: u64|
            p.temporal_identifier@ == spec_temporal_identifier(csk@, spec_time_window(t)))
            && aes256_gcm_open(csk@, derived_nonce(challenge@, context@), p.ciphertext@, Seq::empty())
            == Some(spec_encode_wrapper(wrapper@)),
        r matches Ok(p) ==> p.temporal_identifier@.len() == 16 && p.ciphertext@.len() == spec_encode_wrapper(
            wrapper@,
        ).len() + 16,
{
    let id = match generate_current_temporal_identifier(csk) {
        Ok(id) => id,
        Err(e) => {
            return Err(ProtocolError::Crypto(e));
        },
    };
    let plaintext = wrapper.encode_to_vec();
    let ciphertext = match encrypt_with_csk(csk, challenge, context, plaintext.as_slice()) {
        Ok(c) => c,
        Err(e) => {
            return Err(ProtocolError::Crypto(e));
        },
    };
    let temporal_identifier = crate::wire::copy_range(id.as_slice(), 0, 16);
    assert(temporal_identifier@ =~= id@);
    Ok(EncryptedPacket { temporal_identifier, encryption_algorithm: SYMMETRIC_AES256_GCM, ciphertext })
}

/// Encrypts a wrapper under the client key with a random nonce carried in
/// front of the ciphertext, tagged with the current temporal identifier.
pub fn create_encrypted_packet_with_csk_nonce(csk: &ClientSymmetricKey, wrapper: &WrapperMessage) -> (r: Result<EncryptedPacket, ProtocolError>)
    ensures
        r matches Err(e) ==> e == ProtocolError::Crypto(CryptoError::SystemTimeError) || e
            == ProtocolError::Crypto(CryptoError::RandomGenerationFailed) || (e
            == ProtocolError::Crypto(CryptoError::EncryptionFailed) && spec_encode_wrapper(
            wrapper@,
        ).len() > aes_gcm_max_len()),
        r matches Ok(p) ==> p.encryption_algorithm == SYMMETRIC_AES256_GCM && (exists|t: u64|
            p.temporal_identifier@ == spec_temporal_identifier(csk@, spec_time_window(t)))
            && spec_open_prefixed(csk@, p.ciphertext@) == Some(spec_encode_wrapper(wrapper@)),
        r matches Ok(p) ==> p.temporal_identifier@.len() == 16 && p.ciphertext@.len() == spec_encode_wrapper(
            wrapper@,
        ).len() + 28,
{
    let id = match generate_current_temporal_identifier(csk) {
        Ok(id) => id,
        Err(e) => {
            return Err(ProtocolError::Crypto(e));
        },
    };
    let plaintext = wrapper.encode_to_vec();
    let ciphertext = match encrypt_with_csk_and_random_nonce(csk, plaintext.as_slice()) {
        Ok(c) => c,
        Err(e) => {
            return Err(ProtocolError::Crypto(e));
        },
    };
    let temporal_identifier = crate::wire::copy_range(id.as_slice(), 0, 16);
    assert(temporal_identifier@ =~= id@);
    Ok(EncryptedPacket { temporal_identifier, encryption_algorithm: SYMMETRIC_AES256_GCM, ciphertext })
}

/// Decrypts a packet with the challenge-derived nonce and decodes the
/// wrapper it holds.
pub fn decrypt_encrypted_packet(csk: &ClientSymmetricKey, challenge: &[u8; 32], context: &[u8], packet: &EncryptedPacket) -> (r: Result<WrapperMessage, ProtocolError>)
    ensures
        r is Ok <==> spec_packet_wrapper(csk@, challenge@, context@, packet.ciphertext@) is Some,
        r matches Ok(w) ==> spec_packet_wrapper(csk@, challenge@, context@, packet.ciphertext@) == Some(w@),
        r matches Err(e) ==> e == ProtocolError::Crypto(CryptoError::DecryptionFailed) || e
            == ProtocolError::Deserialization(DecodeError),
{
    let plaintext = match decrypt_with_csk(csk, challenge, context, packet.ciphertext.as_slice()) {
        Ok(p) => p,
        Err(e) => {
            return Err(ProtocolError::Crypto(e));
        },
    };
    match WrapperMessage::decode(plaintext.as_slice()) {
        Ok(w) => Ok(w),
        Err(e) => Err(ProtocolError::Deserialization(e)),
    }
}

/// Decrypts a packet whose ciphertext carries its nonce in front and
/// decodes the wrapper it holds.
pub fn decrypt_encrypted_packet_with_csk_nonce(csk: &ClientSymmetricKey, packet: &EncryptedPacket) -> (r: Result<WrapperMessage, ProtocolError>)
    ensures
        r is Ok <==> spec_prefixed_packet_wrapper(csk@, packet.ciphertext@) is Some,
        r matches Ok(w) ==> spec_prefixed_packet_wrapper(csk@, packet.ciphertext@) == Some(w@),
        r matches Err(e) ==> (spec_open_prefixed(csk@, packet.ciphertext@) is None ==> e
            == ProtocolError::Crypto(CryptoError::DecryptionFailed)) && (spec_open_prefixed(
            csk@,
            packet.ciphertext@,
        ) is Some ==> e == ProtocolError::Deserialization(DecodeError)),
{
    let plaintext = match decrypt_with_csk_and_prepended_nonce(csk, packet.ciphertext.as_slice()) {
        Ok(p) => p,
        Err(e) => {
            return Err(ProtocolError::Crypto(e));
        },
    };
    match WrapperMessage::decode(plaintext.as_slice()) {
        Ok(w) => Ok(w),
        Err(e) => Err(ProtocolError::Deserialization(e)),
    }
}

/// Wraps a request.
pub fn wrap_auth_request(request: AuthenticationRequest) -> (r: WrapperMessage)
    ensures
        r@ == spec_wrapped(PayloadView::AuthRequest(request@)),
{
    WrapperMessage {
        version: 1,
        signature_algorithm: SIGNATURE_ED25519,
        signature: Vec::new(),
        payload: Some(Payload::AuthRequest(request)),
    }
}

/// Wraps a grant.
pub fn wrap_auth_grant(grant: AuthenticationGrant) -> (r: WrapperMessage)
    ensures
        r@ == spec_wrapped(PayloadView::AuthGrant(grant@)),
{
    WrapperMessage {
        version: 1,
        signature_algorithm: SIGNATURE_ED25519,
        signature: Vec::new(),
        payload: Some(Payload::AuthGrant(grant)),
    }
}

/// Wraps a denial.
pub fn wrap_auth_denial(denial: AuthenticationDenial) -> (r: WrapperMessage)
    ensures
        r@ == spec_wrapped(PayloadView::AuthDenial(denial@)),
{
    WrapperMessage {
        version: 1,
        signature_algorithm: SIGNATURE_ED25519,
        signature: Vec::new(),
        payload: Some(Payload::AuthDenial(denial)),
    }
}

/// Wraps a grant confirmation.
pub fn wrap_grant_confirmation(confirmation: GrantConfirmation) -> (r: WrapperMessage)
    ensures
        r@ == spec_wrapped(PayloadView::GrantConfirmation(confirmation@)),
{
    WrapperMessage {
        version: 1,
        signature_algorithm: SIGNATURE_ED25519,
        signature: Vec::new(),
        payload: Some(Payload::GrantConfirmation(confirmation)),
    }
}

/// Wraps a cancellation.
pub fn wrap_auth_cancel(cancel: AuthenticationCancel) -> (r: WrapperMessage)
    ensures
        r@ == spec_wrapped(PayloadView::AuthCancel(cancel@)),
{
    WrapperMessage {
        version: 1,
        signature_algorithm: SIGNATURE_ED25519,
        signature: Vec::new(),
        payload: Some(Payload::AuthCancel(cancel)),
    }
}

/// The challenge a wrapper's payload carries: requests, denials,
/// confirmations and cancellations carry one; grants and empty wrappers do
/// not.
pub open spec fn spec_challenge(w: WrapperMessageView) -> Option<Seq<u8>> {
    match w.payload {
        Some(PayloadView::AuthRequest(m)) => Some(m.challenge),
        Some(PayloadView::AuthDenial(m)) => Some(m.challenge),
        Some(PayloadView::GrantConfirmation(m)) => Some(m.challenge),
        Some(PayloadView::AuthCancel(m)) => Some(m.challenge),
        _ => None,
    }
}

/// Each kind of payload that has a challenge field gives that field as the
/// wrapper's challenge (a request, a denial, a confirmation, a
/// cancellation); a grant and an empty wrapper give none.
pub proof fn lemma_challenge_per_kind(w: WrapperMessageView)
    ensures
        w.payload matches Some(PayloadView::AuthRequest(m)) ==> spec_challenge(w) == Some(m.challenge),
        w.payload matches Some(PayloadView::AuthDenial(m)) ==> spec_challenge(w) == Some(m.challenge),
        w.payload matches Some(PayloadView::GrantConfirmation(m)) ==> spec_challenge(w) == Some(m.challenge),
        w.payload matches Some(PayloadView::AuthCancel(m)) ==> spec_challenge(w) == Some(m.challenge),
        w.payload matches Some(PayloadView::AuthGrant(_)) ==> spec_challenge(w) is None,
        w.payload is None ==> spec_challenge(w) is None,
{
}

/// The challenge the wrapper's payload carries, if its kind carries one.
pub fn extract_challenge(wrapper: &WrapperMessage) -> (r: Option<Vec<u8>>)
    ensures
        r is Some <==> spec_challenge(wrapper@) is Some,
        r matches Some(c) ==> spec_challenge(wrapper@) == Some(c@),
        wrapper.payload matches Some(Payload::AuthRequest(m)) ==> (r matches Some(c) && c@ == m.challenge@),
        wrapper.payload matches Some(Payload::AuthDenial(m)) ==> (r matches Some(c) && c@ == m.challenge@),
        wrapper.payload matches Some(Payload::GrantConfirmation(m)) ==> (r matches Some(c) && c@ == m.challenge@),
        wrapper.payload matches Some(Payload::AuthCancel(m)) ==> (r matches Some(c) && c@ == m.challenge@),
        wrapper.payload matches Some(Payload::AuthGrant(_)) ==> r is None,
        wrapper.payload is None ==> r is None,
{
    proof {
        lemma_challenge_per_kind(wrapper@);
    }
    match &wrapper.payload {
        Some(Payload::AuthRequest(m)) => Some(
            crate::wire::copy_range(m.challenge.as_slice(), 0, m.challenge.len()),
        ),
        Some(Payload::AuthDenial(m)) => Some(
            crate::wire::copy_range(m.challenge.as_slice(), 0, m.challenge.len()),
        ),
        Some(Payload::GrantConfirmation(m)) => Some(
            crate::wire::copy_range(m.challenge.as_slice(), 0, m.challenge.len()),
        ),
        Some(Payload::AuthCancel(m)) => Some(
            crate::wire::copy_range(m.challenge.as_slice(), 0, m.challenge.len()),
        ),
        _ => None,
    }
}

/// The name of the kind of message a wrapper carries.
pub open spec fn spec_message_type(w: WrapperMessageView) -> &'static str {
    match w.payload {
        Some(PayloadView::AuthRequest(_)) => "AUTH_REQUEST",
        Some(PayloadView::AuthGrant(_)) => "AUTH_GRANT",
        Some(PayloadView::AuthDenial(_)) => "AUTH_DENIAL",
        Some(PayloadView::GrantConfirmation(_)) => "GRANT_CONFIRMATION",
        Some(PayloadView::AuthCancel(_)) => "AUTH_CANCEL",
        None => "UNKNOWN",
    }
}

/// Each kind of payload has its own name: a request is `AUTH_REQUEST`, a
/// grant `AUTH_GRANT`, a denial `AUTH_DENIAL`, a confirmation
/// `GRANT_CONFIRMATION`, a cancellation `AUTH_CANCEL`, an empty wrapper
/// `UNKNOWN`.
pub proof fn lemma_message_type_names(w: WrapperMessageView)
    ensures
        w.payload matches Some(PayloadView::AuthRequest(_)) ==> spec_message_type(w)@ == "AUTH_REQUEST"@,
        w.payload matches Some(PayloadView::AuthGrant(_)) ==> spec_message_type(w)@ == "AUTH_GRANT"@,
        w.payload matches Some(PayloadView::AuthDenial(_)) ==> spec_message_type(w)@ == "AUTH_DENIAL"@,
        w.payload matches Some(PayloadView::GrantConfirmation(_)) ==> spec_message_type(w)@ == "GRANT_CONFIRMATION"@,
        w.payload matches Some(PayloadView::AuthCancel(_)) ==> spec_message_type(w)@ == "AUTH_CANCEL"@,
        w.payload is None ==> spec_message_type(w)@ == "UNKNOWN"@,
{
}

/// The name determines the kind: two wrappers with the same name are both
/// empty or carry payloads of the same kind.
pub proof fn lemma_message_type_determines_kind(w1: WrapperMessageView, w2: WrapperMessageView)
    requires
        spec_message_type(w1)@ == spec_message_type(w2)@,
    ensures
        w1.payload is None <==> w2.payload is None,
        w1.payload matches Some(p1) ==> (w2.payload matches Some(p2) && payload_field(p1) == payload_field(p2)),
{
    reveal_strlit("AUTH_REQUEST");
    reveal_strlit("AUTH_GRANT");
    reveal_strlit("AUTH_DENIAL");
    reveal_strlit("GRANT_CONFIRMATION");
    reveal_strlit("AUTH_CANCEL");
    reveal_strlit("UNKNOWN");
    lemma_message_type_names(w1);
    lemma_message_type_names(w2);
    assert("AUTH_REQUEST"@.len() == 12);
    assert("AUTH_GRANT"@.len() == 10);
    assert("AUTH_DENIAL"@.len() == 11);
    assert("GRANT_CONFIRMATION"@.len() == 18);
    assert("AUTH_CANCEL"@.len() == 11);
    assert("UNKNOWN"@.len() == 7);
    assert("AUTH_DENIAL"@[5] != "AUTH_CANCEL"@[5]);
    if spec_message_type(w1)@ == "AUTH_DENIAL"@ && spec_message_type(w2)@ == "AUTH_CANCEL"@ {
        assert(spec_message_type(w1)@[5] != spec_message_type(w2)@[5]);
    }
    if spec_message_type(w1)@ == "AUTH_CANCEL"@ && spec_message_type(w2)@ == "AUTH_DENIAL"@ {
        assert(spec_message_type(w1)@[5] != spec_message_type(w2)@[5]);
    }
}

/// The name of the kind of message a wrapper carries: `AUTH_REQUEST`,
/// `AUTH_GRANT`, `AUTH_DENIAL`, `GRANT_CONFIRMATION`, `AUTH_CANCEL`, or
/// `UNKNOWN` for an empty wrapper.
pub fn message_type(wrapper: &WrapperMessage) -> (r: &'static str)
    ensures
        r == spec_message_type(wrapper@),
        wrapper.payload matches Some(Payload::AuthRequest(_)) ==> r@ == "AUTH_REQUEST"@,
        wrapper.payload matches Some(Payload::AuthGrant(_)) ==> r@ == "AUTH_GRANT"@,
        wrapper.payload matches Some(Payload::AuthDenial(_)) ==> r@ == "AUTH_DENIAL"@,
        wrapper.payload matches Some(Payload::GrantConfirmation(_)) ==> r@ == "GRANT_CONFIRMATION"@,
        wrapper.payload matches Some(Payload::AuthCancel(_)) ==> r@ == "AUTH_CANCEL"@,
        wrapper.payload is None ==> r@ == "UNKNOWN"@,
{
    proof {
        lemma_message_type_names(wrapper@);
    }
    match &wrapper.payload {
        Some(Payload::AuthRequest(_)) => "AUTH_REQUEST",
        Some(Payload::AuthGrant(_)) => "AUTH_GRANT",
        Some(Payload::AuthDenial(_)) => "AUTH_DENIAL",
        Some(Payload::GrantConfirmation(_)) => "GRANT_CONFIRMATION",
        Some(Payload::AuthCancel(_)) => "AUTH_CANCEL",
        None => "UNKNOWN",
    }
}

/// Decodes a wrapper and names the kind of message it carries.
pub fn determine_message_type(wrapper_message_bytes: &[u8]) -> (r: Result<&'static str, ProtocolError>)
    ensures
        r is Ok <==> spec_decode_wrapper(wrapper_message_bytes@) is Some,
        r matches Ok(t) ==> spec_decode_wrapper(wrapper_message_bytes@) matches Some(w) && t
            == spec_message_type(w),
        r matches Err(e) ==> e == ProtocolError::Deserialization(DecodeError),
{
    match WrapperMessage::decode(wrapper_message_bytes) {
        Ok(w) => Ok(message_type(&w)),
        Err(e) => Err(ProtocolError::Deserialization(e)),
    }
}

/// Decodes an encrypted packet and returns its temporal identifier, which
/// must be 16 bytes long.
pub fn extract_temporal_identifier(packet_bytes: &[u8]) -> (r: Result<Vec<u8>, ProtocolError>)
    ensures
        r is Ok <==> (spec_decode_encrypted_packet(packet_bytes@) matches Some(p)
            && p.temporal_identifier.len() == 16),
        r matches Ok(id) ==> spec_decode_encrypted_packet(packet_bytes@) matches Some(p) && id@
            == p.temporal_identifier,
        r matches Err(e) ==> e == ProtocolError::Deserialization(DecodeError) || e
            == ProtocolError::InvalidMessageFormat,
{
    match EncryptedPacket::decode(packet_bytes) {
        Ok(p) => {
            if p.temporal_identifier.len() != 16 {
                Err(ProtocolError::InvalidMessageFormat)
            } else {
                Ok(p.temporal_identifier)
            }
        },
        Err(e) => Err(ProtocolError::Deserialization(e)),
    }
}

} // verus!
