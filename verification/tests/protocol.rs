use tapauth::crypto::keys::{ClientSymmetricKey, Ed25519KeyPair};
use tapauth::pb::wrapper_message::{Payload, WrapperMessage};
use tapauth::pb::{
    AuthenticationCancel, AuthenticationRequest, DecodeError, EncryptedPacket, GrantConfirmation,
    PairingComplete, SignatureAlgorithm, SymmetricAlgorithm,
};
use tapauth::protocol::messages::{
    create_auth_cancel, create_auth_denial, create_auth_grant, create_auth_request,
    create_auth_request_with_challenge, create_grant_confirmation, is_request_timestamp_valid,
    is_request_timestamp_valid_at, sha256_hex, sign_wrapper_message, verify_auth_grant,
    verify_wrapper_signature,
};
use tapauth::protocol::packet::{
    create_encrypted_packet, create_encrypted_packet_with_csk_nonce, decrypt_encrypted_packet,
    decrypt_encrypted_packet_with_csk_nonce, determine_message_type, extract_challenge,
    extract_temporal_identifier, wrap_auth_cancel, wrap_auth_denial, wrap_auth_grant,
    wrap_auth_request, wrap_grant_confirmation,
};
use tapauth::protocol::pairing::{check_frame_length, ClientPairingSession, ServerPairingSession};
use tapauth::protocol::ProtocolError;

fn request(challenge: Vec<u8>, username: &str, hostname: &str) -> AuthenticationRequest {
    AuthenticationRequest {
        challenge,
        username: username.to_string(),
        hostname: hostname.to_string(),
        timestamp_unix_seconds: 1234567890,
    }
}

#[test]
fn test_wrapper_signature_creation_and_verification() {
    let keypair = Ed25519KeyPair::generate().unwrap();
    let req = create_auth_request("user", "host").unwrap();
    let mut wrapper = wrap_auth_request(req);
    sign_wrapper_message(&mut wrapper, &keypair).unwrap();
    assert!(verify_wrapper_signature(&wrapper, &keypair.verifying_key_bytes()).is_ok());
    let other_keypair = Ed25519KeyPair::generate().unwrap();
    assert!(verify_wrapper_signature(&wrapper, &other_keypair.verifying_key_bytes()).is_err());
}

#[test]
fn test_auth_request_creation_and_verification() {
    let keypair = Ed25519KeyPair::generate().unwrap();
    let challenge = [1u8; 32];
    let req = create_auth_request_with_challenge("testuser", "testhost", &challenge).unwrap();
    let mut wrapper = wrap_auth_request(req);
    sign_wrapper_message(&mut wrapper, &keypair).unwrap();
    assert_eq!(wrapper.signature.len(), 64);
    verify_wrapper_signature(&wrapper, &keypair.verifying_key_bytes()).unwrap();
    let other_keypair = Ed25519KeyPair::generate().unwrap();
    assert!(verify_wrapper_signature(&wrapper, &other_keypair.verifying_key_bytes()).is_err());
}

#[test]
fn test_tampered_signature_detection() {
    let keypair = Ed25519KeyPair::generate().unwrap();
    let challenge = [2u8; 32];
    let req = create_auth_request_with_challenge("user", "host", &challenge).unwrap();
    let mut wrapper = wrap_auth_request(req);
    sign_wrapper_message(&mut wrapper, &keypair).unwrap();
    if let Some(byte) = wrapper.signature.get_mut(0) {
        *byte = byte.wrapping_add(1);
    }
    assert!(verify_wrapper_signature(&wrapper, &keypair.verifying_key_bytes()).is_err());
}

#[test]
fn tampered_payload_is_detected() {
    let keypair = Ed25519KeyPair::generate().unwrap();
    let req = create_auth_request_with_challenge("user", "host", &[2u8; 32]).unwrap();
    let mut wrapper = wrap_auth_request(req);
    sign_wrapper_message(&mut wrapper, &keypair).unwrap();
    if let Some(Payload::AuthRequest(r)) = &mut wrapper.payload {
        r.username = "root".to_string();
    }
    assert_eq!(
        verify_wrapper_signature(&wrapper, &keypair.verifying_key_bytes()),
        Err(ProtocolError::Crypto(tapauth::crypto::CryptoError::InvalidSignature))
    );
}

#[test]
fn test_auth_grant_creation_and_verification() {
    let keypair = Ed25519KeyPair::generate().unwrap();
    let challenge = [3u8; 32];
    let grant = create_auth_grant(&keypair, &challenge).unwrap();
    assert!(!grant.signed_challenge.is_empty());
    let mut wrapper = wrap_auth_grant(grant);
    sign_wrapper_message(&mut wrapper, &keypair).unwrap();
    verify_auth_grant(&wrapper, &challenge, &keypair.verifying_key_bytes()).unwrap();
    let other_keypair = Ed25519KeyPair::generate().unwrap();
    assert!(verify_auth_grant(&wrapper, &challenge, &other_keypair.verifying_key_bytes()).is_err());
}

#[test]
fn grant_for_another_challenge_is_refused() {
    let keypair = Ed25519KeyPair::generate().unwrap();
    let grant = create_auth_grant(&keypair, &[3u8; 32]).unwrap();
    let mut wrapper = wrap_auth_grant(grant);
    sign_wrapper_message(&mut wrapper, &keypair).unwrap();
    assert!(verify_auth_grant(&wrapper, &[4u8; 32], &keypair.verifying_key_bytes()).is_err());
}

#[test]
fn test_auth_denial_creation_and_verification() {
    let keypair = Ed25519KeyPair::generate().unwrap();
    let challenge = [5u8; 32];
    let denial = create_auth_denial(&challenge).unwrap();
    assert_eq!(denial.challenge.len(), 32);
    let mut wrapper = wrap_auth_denial(denial);
    sign_wrapper_message(&mut wrapper, &keypair).unwrap();
    verify_wrapper_signature(&wrapper, &keypair.verifying_key_bytes()).unwrap();
    let other_keypair = Ed25519KeyPair::generate().unwrap();
    assert!(verify_wrapper_signature(&wrapper, &other_keypair.verifying_key_bytes()).is_err());
}

#[test]
fn test_grant_confirmation_creation_and_verification() {
    let keypair = Ed25519KeyPair::generate().unwrap();
    let challenge = [7u8; 32];
    let confirmation = create_grant_confirmation(&challenge).unwrap();
    assert_eq!(confirmation.challenge.len(), 32);
    let mut wrapper = wrap_grant_confirmation(confirmation);
    sign_wrapper_message(&mut wrapper, &keypair).unwrap();
    verify_wrapper_signature(&wrapper, &keypair.verifying_key_bytes()).unwrap();
    let other_keypair = Ed25519KeyPair::generate().unwrap();
    assert!(verify_wrapper_signature(&wrapper, &other_keypair.verifying_key_bytes()).is_err());
}

#[test]
fn test_auth_cancel_creation_and_verification() {
    let keypair = Ed25519KeyPair::generate().unwrap();
    let challenge = [9u8; 32];
    let cancel = create_auth_cancel(&challenge).unwrap();
    assert_eq!(cancel.challenge.len(), 32);
    let mut wrapper = wrap_auth_cancel(cancel);
    sign_wrapper_message(&mut wrapper, &keypair).unwrap();
    verify_wrapper_signature(&wrapper, &keypair.verifying_key_bytes()).unwrap();
    let other_keypair = Ed25519KeyPair::generate().unwrap();
    assert!(verify_wrapper_signature(&wrapper, &other_keypair.verifying_key_bytes()).is_err());
}

#[test]
fn test_invalid_challenge_length() {
    assert!(create_auth_request_with_challenge("user", "host", &[1u8; 16]).is_err());
    assert!(create_auth_denial(&[1u8; 16]).is_err());
    assert!(create_grant_confirmation(&[1u8; 16]).is_err());
    assert!(create_auth_cancel(&[1u8; 16]).is_err());
}

#[test]
fn invalid_challenge_length_is_a_format_error() {
    assert_eq!(create_auth_denial(&[1u8; 33]).unwrap_err(), ProtocolError::InvalidMessageFormat);
    assert_eq!(create_auth_cancel(&[]).unwrap_err(), ProtocolError::InvalidMessageFormat);
}

#[test]
fn test_timestamp_validation() {
    let challenge = [1u8; 32];
    let mut req = create_auth_request_with_challenge("user", "host", &challenge).unwrap();
    assert!(is_request_timestamp_valid(&req));
    req.timestamp_unix_seconds = 1000;
    assert!(!is_request_timestamp_valid(&req));
}

#[test]
fn test_timestamp_validation_at_boundary() {
    let challenge = [1u8; 32];
    let req = create_auth_request_with_challenge("user", "host", &challenge).unwrap();
    let now = std::time::SystemTime::now()
        .duration_since(std::time::UNIX_EPOCH)
        .unwrap()
        .as_secs();
    let mut req_plus_60 = req.clone();
    req_plus_60.timestamp_unix_seconds = now + 60;
    assert!(is_request_timestamp_valid(&req_plus_60));
    let mut req_plus_61 = req.clone();
    req_plus_61.timestamp_unix_seconds = now + 61;
    assert!(!is_request_timestamp_valid(&req_plus_61));
    let mut req_minus_60 = req.clone();
    req_minus_60.timestamp_unix_seconds = now.saturating_sub(60);
    assert!(is_request_timestamp_valid(&req_minus_60));
    let mut req_minus_61 = req.clone();
    req_minus_61.timestamp_unix_seconds = now.saturating_sub(61);
    assert!(!is_request_timestamp_valid(&req_minus_61));
}

#[test]
fn timestamp_window_at_a_fixed_clock() {
    let mut req = request(vec![0; 32], "u", "h");
    req.timestamp_unix_seconds = 1000;
    assert!(is_request_timestamp_valid_at(&req, 1060));
    assert!(!is_request_timestamp_valid_at(&req, 1061));
    assert!(is_request_timestamp_valid_at(&req, 940));
    assert!(!is_request_timestamp_valid_at(&req, 939));
}

#[test]
fn test_sha256_hex_debug() {
    let result = sha256_hex(b"test data");
    assert_eq!(result.len(), 64);
    assert!(result.chars().all(|c| c.is_ascii_hexdigit()));
}

#[test]
fn sha256_hex_of_empty_input() {
    assert_eq!(
        sha256_hex(b""),
        "e3b0c44298fc1c149afbf4c8996fb92427ae41e4649b934ca495991b7852b855"
    );
}

#[test]
fn test_packet_encryption_decryption() {
    let csk = ClientSymmetricKey::generate().unwrap();
    let keypair = Ed25519KeyPair::generate().unwrap();
    let challenge = [1u8; 32];
    let context = b"test_context";
    let req = create_auth_request("user", "host").unwrap();
    let mut wrapper = wrap_auth_request(req);
    sign_wrapper_message(&mut wrapper, &keypair).unwrap();
    let packet = create_encrypted_packet(&csk, &challenge, context, &wrapper).unwrap();
    let decrypted_wrapper = decrypt_encrypted_packet(&csk, &challenge, context, &packet).unwrap();
    assert!(matches!(decrypted_wrapper.payload, Some(Payload::AuthRequest(_))));
    assert_eq!(decrypted_wrapper, wrapper);
}

#[test]
fn packet_with_random_nonce_round_trips() {
    let csk = ClientSymmetricKey::from_bytes([4u8; 32]);
    let wrapper = wrap_grant_confirmation(create_grant_confirmation(&[8u8; 32]).unwrap());
    let packet = create_encrypted_packet_with_csk_nonce(&csk, &wrapper).unwrap();
    assert_eq!(packet.temporal_identifier.len(), 16);
    assert_eq!(packet.encryption_algorithm, SymmetricAlgorithm::Aes256Gcm.as_i32());
    let back = decrypt_encrypted_packet_with_csk_nonce(&csk, &packet).unwrap();
    assert_eq!(back, wrapper);
    let other = ClientSymmetricKey::from_bytes([5u8; 32]);
    assert!(decrypt_encrypted_packet_with_csk_nonce(&other, &packet).is_err());
}

#[test]
fn test_extract_challenge() {
    let req = create_auth_request("user", "host").unwrap();
    let challenge = req.challenge.clone();
    let wrapper = wrap_auth_request(req);
    let extracted = extract_challenge(&wrapper).unwrap();
    assert_eq!(extracted, challenge);
}

#[test]
fn grants_carry_no_challenge() {
    let keypair = Ed25519KeyPair::generate().unwrap();
    let wrapper = wrap_auth_grant(create_auth_grant(&keypair, &[1u8; 32]).unwrap());
    assert_eq!(extract_challenge(&wrapper), None);
}

fn encrypted_packet(temporal_identifier: Vec<u8>, ciphertext: Vec<u8>) -> EncryptedPacket {
    EncryptedPacket {
        temporal_identifier,
        encryption_algorithm: SymmetricAlgorithm::Aes256Gcm.as_i32(),
        ciphertext,
    }
}

#[test]
fn test_encrypted_packet_temporal_identifier_correct_length() {
    let temporal_id = vec![1, 2, 3, 4, 5, 6, 7, 8, 9, 10, 11, 12, 13, 14, 15, 16];
    let packet = encrypted_packet(temporal_id.clone(), vec![0xAA, 0xBB, 0xCC, 0xDD]);
    let buf = packet.encode_to_vec();
    let decoded = EncryptedPacket::decode(&buf[..]).unwrap();
    assert_eq!(decoded.temporal_identifier, temporal_id);
    assert_eq!(decoded.temporal_identifier.len(), 16);
}

#[test]
fn test_encrypted_packet_temporal_identifier_wrong_length() {
    let packet = encrypted_packet(vec![1, 2, 3, 4, 5], vec![0xAA, 0xBB]);
    let buf = packet.encode_to_vec();
    let decoded = EncryptedPacket::decode(&buf[..]).unwrap();
    assert_eq!(decoded.temporal_identifier.len(), 5);
}

#[test]
fn test_encrypted_packet_field_order_independent() {
    let temporal_id = vec![0xFF; 16];
    let ciphertext = vec![0xDE, 0xAD, 0xBE, 0xEF];
    let packet = encrypted_packet(temporal_id.clone(), ciphertext.clone());
    let buf = packet.encode_to_vec();
    let decoded = EncryptedPacket::decode(&buf[..]).unwrap();
    assert_eq!(decoded.temporal_identifier, temporal_id);
    assert_eq!(decoded.encryption_algorithm, SymmetricAlgorithm::Aes256Gcm.as_i32());
    assert_eq!(decoded.ciphertext, ciphertext);
}

#[test]
fn encrypted_packet_fields_in_reverse_order_decode() {
    // ciphertext (field 3), algorithm (field 2), identifier (field 1)
    let mut buf = vec![0x1a, 0x02, 0xDE, 0xAD, 0x10, 0x01, 0x0a, 0x02, 0x07, 0x08];
    let decoded = EncryptedPacket::decode(&buf).unwrap();
    assert_eq!(decoded.temporal_identifier, vec![7, 8]);
    assert_eq!(decoded.encryption_algorithm, 1);
    assert_eq!(decoded.ciphertext, vec![0xDE, 0xAD]);
    buf.truncate(buf.len() - 1);
    assert_eq!(EncryptedPacket::decode(&buf), Err(DecodeError));
}

#[test]
fn test_encrypted_packet_with_various_ciphertext_lengths() {
    let temporal_id = vec![0x42; 16];
    for ciphertext_len in [0, 1, 100, 1000, 10000] {
        let packet = encrypted_packet(temporal_id.clone(), vec![0xAB; ciphertext_len]);
        let buf = packet.encode_to_vec();
        let decoded = EncryptedPacket::decode(&buf[..]).unwrap();
        assert_eq!(decoded.temporal_identifier, temporal_id, "Failed for ciphertext length {}", ciphertext_len);
    }
}

#[test]
fn test_encrypted_packet_all_byte_values() {
    for byte_val in [0x00u8, 0x01, 0x7F, 0x80, 0xFF] {
        let temporal_id = vec![byte_val; 16];
        let packet = encrypted_packet(temporal_id.clone(), vec![0x00]);
        let buf = packet.encode_to_vec();
        let decoded = EncryptedPacket::decode(&buf[..]).unwrap();
        assert_eq!(decoded.temporal_identifier, temporal_id, "Failed for byte value 0x{:02X}", byte_val);
    }
}

#[test]
fn test_extract_temporal_identifier_correct_length() {
    let temporal_id = vec![1, 2, 3, 4, 5, 6, 7, 8, 9, 10, 11, 12, 13, 14, 15, 16];
    let packet = encrypted_packet(temporal_id.clone(), vec![0xAA, 0xBB, 0xCC, 0xDD]);
    let buf = packet.encode_to_vec();
    let decoded = EncryptedPacket::decode(&buf[..]).unwrap();
    assert_eq!(decoded.temporal_identifier, temporal_id);
    assert_eq!(decoded.temporal_identifier.len(), 16);
    assert_eq!(extract_temporal_identifier(&buf).unwrap(), temporal_id);
}

#[test]
fn test_extract_temporal_identifier_wrong_length_fails() {
    let packet = encrypted_packet(vec![1, 2, 3, 4, 5], vec![0xAA, 0xBB]);
    let buf = packet.encode_to_vec();
    let decoded = EncryptedPacket::decode(&buf[..]).unwrap();
    assert_eq!(decoded.temporal_identifier.len(), 5);
    assert_eq!(extract_temporal_identifier(&buf), Err(ProtocolError::InvalidMessageFormat));
}

#[test]
fn test_extract_temporal_identifier_field_order_independent() {
    let temporal_id = vec![0xFF; 16];
    let ciphertext = vec![0xDE, 0xAD, 0xBE, 0xEF];
    let packet = encrypted_packet(temporal_id.clone(), ciphertext.clone());
    let buf = packet.encode_to_vec();
    let decoded = EncryptedPacket::decode(&buf[..]).unwrap();
    assert_eq!(decoded.temporal_identifier, temporal_id);
    assert_eq!(decoded.encryption_algorithm, SymmetricAlgorithm::Aes256Gcm.as_i32());
    assert_eq!(decoded.ciphertext, ciphertext);
}

#[test]
fn test_extract_temporal_identifier_with_various_ciphertext_lengths() {
    let temporal_id = vec![0x42; 16];
    for ciphertext_len in [0, 1, 100, 1000, 10000] {
        let packet = encrypted_packet(temporal_id.clone(), vec![0xAB; ciphertext_len]);
        let buf = packet.encode_to_vec();
        assert_eq!(extract_temporal_identifier(&buf).unwrap(), temporal_id, "Failed for ciphertext length {}", ciphertext_len);
    }
}

#[test]
fn test_extract_temporal_identifier_all_byte_values() {
    for byte_val in [0x00u8, 0x01, 0x7F, 0x80, 0xFF] {
        let temporal_id = vec![byte_val; 16];
        let packet = encrypted_packet(temporal_id.clone(), vec![0x00]);
        let buf = packet.encode_to_vec();
        assert_eq!(extract_temporal_identifier(&buf).unwrap(), temporal_id, "Failed for byte value 0x{:02X}", byte_val);
    }
}

#[test]
fn extract_temporal_identifier_of_garbage_is_a_decoding_error() {
    assert_eq!(
        extract_temporal_identifier(&[0xFF, 0xFF, 0xFF, 0xFF, 0xFF]),
        Err(ProtocolError::Deserialization(DecodeError))
    );
}

fn wrapper_with(version: u32, signature: Vec<u8>, payload: Option<Payload>) -> WrapperMessage {
    WrapperMessage {
        version,
        signature_algorithm: SignatureAlgorithm::Ed25519.as_i32(),
        signature,
        payload,
    }
}

#[test]
fn test_wrapper_message_auth_request_type() {
    let wrapper = wrapper_with(1, vec![0xBB; 64], Some(Payload::AuthRequest(request(vec![0xAA; 32], "testuser", "testhost"))));
    let buf = wrapper.encode_to_vec();
    let parsed = WrapperMessage::decode(&buf[..]).unwrap();
    assert!(matches!(parsed.payload, Some(Payload::AuthRequest(_))));
}

#[test]
fn test_wrapper_message_grant_confirmation_type() {
    let confirmation = GrantConfirmation { challenge: vec![0xCC; 32] };
    let wrapper = wrapper_with(1, vec![0xBB; 64], Some(Payload::GrantConfirmation(confirmation)));
    let buf = wrapper.encode_to_vec();
    let parsed = WrapperMessage::decode(&buf[..]).unwrap();
    assert!(matches!(parsed.payload, Some(Payload::GrantConfirmation(_))));
}

#[test]
fn test_wrapper_message_auth_cancel_type() {
    let cancel = AuthenticationCancel { challenge: vec![0xDD; 32] };
    let wrapper = wrapper_with(1, vec![0xCC; 64], Some(Payload::AuthCancel(cancel)));
    let buf = wrapper.encode_to_vec();
    let parsed = WrapperMessage::decode(&buf[..]).unwrap();
    assert!(matches!(parsed.payload, Some(Payload::AuthCancel(_))));
}

#[test]
fn test_wrapper_message_with_version() {
    let wrapper = wrapper_with(42, vec![0xFF; 64], Some(Payload::AuthRequest(request(vec![0xEE; 32], "user", "host"))));
    let buf = wrapper.encode_to_vec();
    let parsed = WrapperMessage::decode(&buf[..]).unwrap();
    assert_eq!(parsed.version, 42);
    assert!(matches!(parsed.payload, Some(Payload::AuthRequest(_))));
}

#[test]
fn test_wrapper_message_unknown_type() {
    let wrapper = wrapper_with(1, Vec::new(), None);
    let buf = wrapper.encode_to_vec();
    let parsed = WrapperMessage::decode(&buf[..]).unwrap();
    assert!(parsed.payload.is_none());
}

#[test]
fn test_determine_auth_request_type() {
    let wrapper = wrapper_with(1, vec![0xBB; 64], Some(Payload::AuthRequest(request(vec![0xAA; 32], "testuser", "testhost"))));
    let buf = wrapper.encode_to_vec();
    let parsed = WrapperMessage::decode(&buf[..]).unwrap();
    assert!(matches!(parsed.payload, Some(Payload::AuthRequest(_))));
    assert_eq!(determine_message_type(&buf).unwrap(), "AUTH_REQUEST");
}

#[test]
fn test_determine_grant_confirmation_type() {
    let confirmation = GrantConfirmation { challenge: vec![0xCC; 32] };
    let wrapper = wrapper_with(1, vec![0xBB; 64], Some(Payload::GrantConfirmation(confirmation)));
    let buf = wrapper.encode_to_vec();
    let parsed = WrapperMessage::decode(&buf[..]).unwrap();
    assert!(matches!(parsed.payload, Some(Payload::GrantConfirmation(_))));
    assert_eq!(determine_message_type(&buf).unwrap(), "GRANT_CONFIRMATION");
}

#[test]
fn test_determine_auth_cancel_type() {
    let cancel = AuthenticationCancel { challenge: vec![0xDD; 32] };
    let wrapper = wrapper_with(1, vec![0xCC; 64], Some(Payload::AuthCancel(cancel)));
    let buf = wrapper.encode_to_vec();
    let parsed = WrapperMessage::decode(&buf[..]).unwrap();
    assert!(matches!(parsed.payload, Some(Payload::AuthCancel(_))));
    assert_eq!(determine_message_type(&buf).unwrap(), "AUTH_CANCEL");
}

#[test]
fn test_determine_message_type_with_version() {
    let wrapper = wrapper_with(42, vec![0xFF; 64], Some(Payload::AuthRequest(request(vec![0xEE; 32], "user", "host"))));
    let buf = wrapper.encode_to_vec();
    let parsed = WrapperMessage::decode(&buf[..]).unwrap();
    assert_eq!(parsed.version, 42);
    assert!(matches!(parsed.payload, Some(Payload::AuthRequest(_))));
    assert_eq!(determine_message_type(&buf).unwrap(), "AUTH_REQUEST");
}

#[test]
fn test_determine_message_type_unknown() {
    let wrapper = wrapper_with(1, Vec::new(), None);
    let buf = wrapper.encode_to_vec();
    let parsed = WrapperMessage::decode(&buf[..]).unwrap();
    assert!(parsed.payload.is_none());
    assert_eq!(determine_message_type(&buf).unwrap(), "UNKNOWN");
}

#[test]
fn wrapper_round_trips_through_its_encoding() {
    let wrapper = wrapper_with(3, vec![1, 2, 3], Some(Payload::AuthRequest(request(vec![9; 32], "ünïcode", ""))));
    let buf = wrapper.encode_to_vec();
    assert_eq!(WrapperMessage::decode(&buf).unwrap(), wrapper);
}

#[test]
fn test_client_session_public_keys() {
    let keypair = Ed25519KeyPair::generate().unwrap();
    let session = ClientPairingSession::new(keypair.clone()).unwrap();
    assert_eq!(session.x25519_public_key().len(), 32);
    assert_eq!(session.ed25519_public_key(), keypair.verifying_key_bytes());
}

#[test]
fn test_server_session_creation() {
    let ed25519_public = [42u8; 32];
    let session = ServerPairingSession::new(ed25519_public).unwrap();
    assert_eq!(session.ed25519_public_key, ed25519_public);
}

#[test]
fn pairing_exchange_in_memory_agrees_on_the_code_and_key() {
    let server_keys = Ed25519KeyPair::generate().unwrap();
    let client_keys = Ed25519KeyPair::generate().unwrap();
    let mut server = ServerPairingSession::new(server_keys.verifying_key_bytes()).unwrap();
    let mut client = ClientPairingSession::new(client_keys.clone()).unwrap();

    let hello = server.pairing_hello("phone").encode_to_vec();
    let hello = client.receive_pairing_hello(&hello).unwrap();
    let client_sas = client.apply_pairing_hello(&hello).unwrap();
    assert_eq!(client.server_ed25519_public_key(&hello).unwrap(), server_keys.verifying_key_bytes());

    let response = client.pairing_response("laptop").encode_to_vec();
    let response = server.receive_pairing_response(&response).unwrap();
    let server_sas = server.apply_pairing_response(&response).unwrap();
    assert_eq!(client_sas, server_sas);
    assert_eq!(client_sas.len(), 6);
    assert_eq!(client.sas(), Some(client_sas.as_str()));
    assert_eq!(server.sas(), Some(server_sas.as_str()));
    assert_eq!(server.client_ed25519_public_key(&response).unwrap(), client_keys.verifying_key_bytes());

    let csk = ClientSymmetricKey::generate().unwrap();
    let csk_message = client.csk_message(&csk, "alice").unwrap().encode_to_vec();
    let (received_csk, hash) = server.receive_csk_message(&csk_message).unwrap();
    assert_eq!(received_csk.as_bytes(), csk.as_bytes());

    let complete = server.pairing_complete(&hash).unwrap().encode_to_vec();
    assert!(client.check_pairing_complete(&complete, &csk).is_ok());
    let other = ClientSymmetricKey::generate().unwrap();
    assert!(client.check_pairing_complete(&complete, &other).is_err());
}

#[test]
fn failed_pairing_complete_is_refused() {
    let client_keys = Ed25519KeyPair::generate().unwrap();
    let client = ClientPairingSession::new(client_keys).unwrap();
    let complete = PairingComplete { success: false, hash_algorithm: 1, csk_hash: vec![] }.encode_to_vec();
    let csk = ClientSymmetricKey::from_bytes([1u8; 32]);
    assert_eq!(client.check_pairing_complete(&complete, &csk), Err(ProtocolError::InvalidMessageFormat));
}

#[test]
fn pairing_frames_are_bounded() {
    assert_eq!(check_frame_length(16384).unwrap(), 16384);
    assert_eq!(check_frame_length(0).unwrap(), 0);
    assert!(check_frame_length(16385).is_err());
}

use tapauth::protocol::messages::create_auth_request_at;

#[test]
fn requests_are_stamped_with_the_time_given() {
    let challenge = [7u8; 32];
    let req = create_auth_request_at("alice", "box", &challenge, 1_700_000_123).unwrap();
    assert_eq!(req.timestamp_unix_seconds, 1_700_000_123);
    assert_eq!(req.challenge, challenge.to_vec());
    assert_eq!(req.username, "alice");
    assert_eq!(req.hostname, "box");
    assert!(matches!(
        create_auth_request_at("alice", "box", &[7u8; 31], 5),
        Err(ProtocolError::InvalidMessageFormat)
    ));
    assert!(matches!(
        create_auth_request_at("alice", "box", &[], 5),
        Err(ProtocolError::InvalidMessageFormat)
    ));
}
