use tapauth::crypto::encryption::{
    decrypt_aes_gcm, decrypt_with_csk, decrypt_with_csk_and_prepended_nonce, decrypt_with_psk,
    derive_nonce, encrypt_aes_gcm, encrypt_with_csk, encrypt_with_csk_and_random_nonce,
    encrypt_with_psk,
};
use tapauth::crypto::kdf::{derive_psk_from_x25519, derive_sas, format_sas};
use tapauth::crypto::keys::{ClientSymmetricKey, Ed25519KeyPair, PairingSymmetricKey, X25519KeyPair};
use tapauth::crypto::signing::{sign_ed25519, verify_ed25519};
use tapauth::crypto::temporal::{
    current_time_window, generate_current_temporal_identifier,
    generate_current_temporal_identifier_ble, generate_previous_temporal_identifier,
    generate_temporal_identifier, generate_temporal_identifier_ble, time_window_of,
    verify_temporal_identifier, TIME_WINDOW_SECONDS,
};
use tapauth::crypto::CryptoError;
use tapauth::crypto::temporal::verify_temporal_identifier_ble;
use tapauth::text::{hex_decode, hex_encode};

#[test]
fn crypto_test_signing_and_verification() {
    let keypair = Ed25519KeyPair::generate().unwrap();
    let message = b"test message";
    let signature = sign_ed25519(&keypair, message);
    assert!(verify_ed25519(&keypair.verifying_key_bytes(), message, &signature).is_ok());
}

#[test]
fn test_verification_fail() {
    let keypair1 = Ed25519KeyPair::generate().unwrap();
    let keypair2 = Ed25519KeyPair::generate().unwrap();
    let message = b"test message";
    let signature = sign_ed25519(&keypair1, message);
    assert!(verify_ed25519(&keypair2.verifying_key_bytes(), message, &signature).is_err());
}

#[test]
fn test_verification_fail_tampered_message() {
    let keypair = Ed25519KeyPair::generate().unwrap();
    let signature = sign_ed25519(&keypair, b"test message");
    assert!(verify_ed25519(&keypair.verifying_key_bytes(), b"test massage", &signature).is_err());
}

#[test]
fn test_generate_temporal_identifier() {
    let csk = ClientSymmetricKey::from_bytes(*b"test_key_12345678901234567890123");
    let identifier = generate_current_temporal_identifier(&csk).unwrap();
    assert_eq!(identifier.len(), 16);
}

#[test]
fn test_generate_sas() {
    let psk = PairingSymmetricKey::from_bytes([7u8; 32]);
    let sas = derive_sas(&psk, &[1u8; 32], &[2u8; 32]).unwrap();
    assert_eq!(sas.len(), 6);
    assert!(sas.chars().all(|c| c.is_ascii_digit()));
    let sas2 = derive_sas(&psk, &[1u8; 32], &[2u8; 32]).unwrap();
    assert_eq!(sas, sas2);
}

#[test]
fn crypto_test_x25519_key_exchange() {
    let a = X25519KeyPair::generate().unwrap();
    let b = X25519KeyPair::generate().unwrap();
    let shared1 = a.diffie_hellman(&b.public_key_bytes()).unwrap();
    let shared2 = b.diffie_hellman(&a.public_key_bytes()).unwrap();
    assert_eq!(shared1, shared2);
}

#[test]
fn test_nonce_derivation_is_deterministic_and_distinct() {
    let challenge = [0x11u8; 32];
    let nonce_grant = derive_nonce(&challenge, b"auth_grant").unwrap();
    let nonce_grant_repeat = derive_nonce(&challenge, b"auth_grant").unwrap();
    assert_eq!(nonce_grant, nonce_grant_repeat);
    let nonce_denial = derive_nonce(&challenge, b"auth_denial").unwrap();
    assert_ne!(nonce_grant, nonce_denial);
}

#[test]
fn test_aes_gcm_encryption() {
    let key = [0u8; 32];
    let nonce = [0u8; 12];
    let plaintext = b"Hello, World!";
    let aad = b"additional data";
    let ciphertext = encrypt_aes_gcm(&key, &nonce, plaintext, aad).unwrap();
    let decrypted = decrypt_aes_gcm(&key, &nonce, &ciphertext, aad).unwrap();
    assert_eq!(plaintext, decrypted.as_slice());
}

#[test]
fn aes_gcm_ciphertext_carries_a_tag_and_binds_the_associated_data() {
    let key = [9u8; 32];
    let nonce = [3u8; 12];
    let ciphertext = encrypt_aes_gcm(&key, &nonce, b"abc", b"aad").unwrap();
    assert_eq!(ciphertext.len(), 3 + 16);
    assert_ne!(&ciphertext[..3], b"abc");
    assert_eq!(decrypt_aes_gcm(&key, &nonce, &ciphertext, b"other"), Err(CryptoError::DecryptionFailed));
}

#[test]
fn test_nonce_derivation() {
    let challenge = [1u8; 32];
    let nonce1 = derive_nonce(&challenge, b"context1").unwrap();
    let nonce2 = derive_nonce(&challenge, b"context2").unwrap();
    assert_ne!(nonce1, nonce2);
    let nonce1_again = derive_nonce(&challenge, b"context1").unwrap();
    assert_eq!(nonce1, nonce1_again);
}

#[test]
fn test_csk_encryption() {
    let csk = ClientSymmetricKey::generate().unwrap();
    let challenge = [2u8; 32];
    let ciphertext = encrypt_with_csk(&csk, &challenge, b"test_context", b"Secret message").unwrap();
    let decrypted = decrypt_with_csk(&csk, &challenge, b"test_context", &ciphertext).unwrap();
    assert_eq!(b"Secret message", decrypted.as_slice());
}

#[test]
fn test_wrong_key_decryption_fails() {
    let csk1 = ClientSymmetricKey::generate().unwrap();
    let csk2 = ClientSymmetricKey::generate().unwrap();
    let challenge = [3u8; 32];
    let ciphertext = encrypt_with_csk(&csk1, &challenge, b"test", b"data").unwrap();
    assert!(decrypt_with_csk(&csk2, &challenge, b"test", &ciphertext).is_err());
}

#[test]
fn test_wrong_context_decryption_fails() {
    let csk = ClientSymmetricKey::generate().unwrap();
    let challenge = [4u8; 32];
    let ciphertext = encrypt_with_csk(&csk, &challenge, b"context1", b"data").unwrap();
    assert!(decrypt_with_csk(&csk, &challenge, b"context2", &ciphertext).is_err());
}

#[test]
fn test_tampered_ciphertext_fails() {
    let csk = ClientSymmetricKey::generate().unwrap();
    let challenge = [5u8; 32];
    let mut ciphertext = encrypt_with_csk(&csk, &challenge, b"test", b"data").unwrap();
    if !ciphertext.is_empty() {
        ciphertext[0] ^= 0xFF;
    }
    assert!(decrypt_with_csk(&csk, &challenge, b"test", &ciphertext).is_err());
}

#[test]
fn test_empty_plaintext_encryption() {
    let csk = ClientSymmetricKey::generate().unwrap();
    let challenge = [6u8; 32];
    let plaintext = b"";
    let ciphertext = encrypt_with_csk(&csk, &challenge, b"test", plaintext).unwrap();
    let decrypted = decrypt_with_csk(&csk, &challenge, b"test", &ciphertext).unwrap();
    assert_eq!(plaintext, decrypted.as_slice());
    assert!(decrypted.is_empty());
}

#[test]
fn test_large_plaintext_encryption() {
    let csk = ClientSymmetricKey::generate().unwrap();
    let challenge = [7u8; 32];
    let plaintext = vec![42u8; 10000];
    let ciphertext = encrypt_with_csk(&csk, &challenge, b"test", &plaintext).unwrap();
    let decrypted = decrypt_with_csk(&csk, &challenge, b"test", &ciphertext).unwrap();
    assert_eq!(plaintext, decrypted);
}

#[test]
fn test_psk_random_nonce_uniqueness_and_roundtrip() {
    let mut bytes = [0u8; 32];
    getrandom::fill(&mut bytes).expect("getrandom failed");
    let psk = PairingSymmetricKey::from_bytes(bytes);
    let plaintext = b"hello psk";
    let c1 = encrypt_with_psk(&psk, plaintext).unwrap();
    let c2 = encrypt_with_psk(&psk, plaintext).unwrap();
    assert_ne!(c1, c2);
    assert_eq!(decrypt_with_psk(&psk, &c1).unwrap(), plaintext);
    assert_eq!(decrypt_with_psk(&psk, &c2).unwrap(), plaintext);
}

#[test]
fn csk_random_nonce_is_prepended_and_round_trips() {
    let csk = ClientSymmetricKey::from_bytes([8u8; 32]);
    let sealed = encrypt_with_csk_and_random_nonce(&csk, b"payload").unwrap();
    assert_eq!(sealed.len(), 12 + 7 + 16);
    assert_eq!(decrypt_with_csk_and_prepended_nonce(&csk, &sealed).unwrap(), b"payload");
    assert_eq!(
        decrypt_with_csk_and_prepended_nonce(&csk, &sealed[..11]),
        Err(CryptoError::DecryptionFailed)
    );
}

#[test]
fn test_psk_derivation() {
    let shared_secret = [1u8; 32];
    let psk = derive_psk_from_x25519(&shared_secret).unwrap();
    let psk2 = derive_psk_from_x25519(&shared_secret).unwrap();
    assert_eq!(psk.as_bytes(), psk2.as_bytes());
    let other = derive_psk_from_x25519(&[2u8; 32]).unwrap();
    assert_ne!(psk.as_bytes(), other.as_bytes());
    assert_ne!(psk.as_bytes(), &shared_secret);
}

#[test]
fn test_sas_derivation() {
    let psk = PairingSymmetricKey::from_bytes([2u8; 32]);
    let client_pub = [3u8; 32];
    let server_pub = [4u8; 32];
    let sas = derive_sas(&psk, &client_pub, &server_pub).unwrap();
    assert_eq!(sas.len(), 6);
    assert!(sas.chars().all(|c| c.is_ascii_digit()));
    let sas2 = derive_sas(&psk, &client_pub, &server_pub).unwrap();
    assert_eq!(sas, sas2);
}

#[test]
fn test_sas_formatting() {
    let sas = "123456";
    let formatted = format_sas(sas);
    assert_eq!(formatted, "123-456");
}

#[test]
fn sas_formatting_of_other_lengths() {
    assert_eq!(format_sas("12345"), "12345");
    assert_eq!(format_sas(""), "");
    assert_eq!(format_sas("000000"), "000-000");
}

#[test]
fn test_ed25519_key_generation() {
    let keypair = Ed25519KeyPair::generate().unwrap();
    let bytes = keypair.signing_key_bytes();
    let restored = Ed25519KeyPair::from_signing_key_bytes(&bytes).unwrap();
    assert_eq!(keypair.verifying_key_bytes(), restored.verifying_key_bytes());
}

#[test]
fn keys_test_x25519_key_exchange() {
    let alice = X25519KeyPair::generate().unwrap();
    let bob = X25519KeyPair::generate().unwrap();
    let alice_shared = alice.diffie_hellman(&bob.public_key_bytes()).unwrap();
    let bob_shared = bob.diffie_hellman(&alice.public_key_bytes()).unwrap();
    assert_eq!(alice_shared, bob_shared);
}

#[test]
fn test_csk_generation() {
    let csk1 = ClientSymmetricKey::generate().unwrap();
    let csk2 = ClientSymmetricKey::generate().unwrap();
    assert_ne!(csk1.as_bytes(), csk2.as_bytes());
}

#[test]
fn signing_test_signing_and_verification() {
    let keypair = Ed25519KeyPair::generate().unwrap();
    let message = b"Test message for signing";
    let signature = sign_ed25519(&keypair, message);
    assert!(verify_ed25519(&keypair.verifying_key_bytes(), message, &signature).is_ok());
    assert!(verify_ed25519(&keypair.verifying_key_bytes(), b"Wrong message", &signature).is_err());
    let other_keypair = Ed25519KeyPair::generate().unwrap();
    assert!(verify_ed25519(&other_keypair.verifying_key_bytes(), message, &signature).is_err());
}

#[test]
fn signature_of_wrong_length_is_refused() {
    let keypair = Ed25519KeyPair::generate().unwrap();
    let signature = sign_ed25519(&keypair, b"m");
    assert_eq!(signature.len(), 64);
    assert_eq!(
        verify_ed25519(&keypair.verifying_key_bytes(), b"m", &signature[..63]),
        Err(CryptoError::InvalidSignature)
    );
}

#[test]
fn test_time_window_calculation() {
    let window = current_time_window().unwrap();
    assert!(window > 26_000_000);
}

#[test]
fn time_window_is_the_minute_count() {
    assert_eq!(TIME_WINDOW_SECONDS, 60);
    assert_eq!(time_window_of(0), 0);
    assert_eq!(time_window_of(59), 0);
    assert_eq!(time_window_of(60), 1);
    assert_eq!(time_window_of(1_700_000_000), 28_333_333);
}

#[test]
fn test_temporal_identifier_generation() {
    let csk = ClientSymmetricKey::generate().unwrap();
    let window = current_time_window().unwrap();
    let id1 = generate_temporal_identifier(&csk, window).unwrap();
    let id2 = generate_temporal_identifier(&csk, window).unwrap();
    assert_eq!(id1, id2);
    let id3 = generate_temporal_identifier(&csk, window + 1).unwrap();
    assert_ne!(id1, id3);
}

#[test]
fn ble_identifier_is_a_prefix_of_the_full_one() {
    let csk = ClientSymmetricKey::from_bytes([5u8; 32]);
    let full = generate_temporal_identifier(&csk, 1234).unwrap();
    let ble = generate_temporal_identifier_ble(&csk, 1234).unwrap();
    assert_eq!(&full[..10], &ble[..]);
    let current_ble = generate_current_temporal_identifier_ble(&csk).unwrap();
    assert_eq!(current_ble.len(), 10);
}

#[test]
fn test_temporal_identifier_verification() {
    let csk = ClientSymmetricKey::generate().unwrap();
    let current_id = generate_current_temporal_identifier(&csk).unwrap();
    assert!(verify_temporal_identifier(&csk, &current_id).unwrap());
    let random_id = [0u8; 16];
    assert!(!verify_temporal_identifier(&csk, &random_id).unwrap());
}

#[test]
fn test_previous_identifier_verification() {
    let csk = ClientSymmetricKey::generate().unwrap();
    if current_time_window().unwrap() > 0 {
        let previous_id = generate_previous_temporal_identifier(&csk).unwrap();
        assert!(verify_temporal_identifier(&csk, &previous_id).unwrap());
    }
}

#[test]
fn test_different_csk_produces_different_identifier() {
    let csk1 = ClientSymmetricKey::generate().unwrap();
    let csk2 = ClientSymmetricKey::generate().unwrap();
    let window = current_time_window().unwrap();
    let id1 = generate_temporal_identifier(&csk1, window).unwrap();
    let id2 = generate_temporal_identifier(&csk2, window).unwrap();
    assert_ne!(id1, id2);
}

#[test]
fn test_temporal_identifier_length() {
    let csk = ClientSymmetricKey::generate().unwrap();
    let id = generate_current_temporal_identifier(&csk).unwrap();
    assert_eq!(id.len(), 16);
}

#[test]
fn test_verify_wrong_key_fails() {
    let csk1 = ClientSymmetricKey::generate().unwrap();
    let csk2 = ClientSymmetricKey::generate().unwrap();
    let id = generate_current_temporal_identifier(&csk1).unwrap();
    assert!(!verify_temporal_identifier(&csk2, &id).unwrap());
}

#[test]
fn test_old_identifier_does_not_verify() {
    let csk = ClientSymmetricKey::generate().unwrap();
    let current_window = current_time_window().unwrap();
    if current_window > 1 {
        let old_id = generate_temporal_identifier(&csk, current_window - 2).unwrap();
        assert!(!verify_temporal_identifier(&csk, &old_id).unwrap());
    }
}

#[test]
fn ble_identifier_verification() {
    let csk = ClientSymmetricKey::generate().unwrap();
    let current = generate_current_temporal_identifier_ble(&csk).unwrap();
    assert!(verify_temporal_identifier_ble(&csk, &current).unwrap());
    assert!(!verify_temporal_identifier_ble(&csk, &[0u8; 10]).unwrap());
}

#[test]
fn hex_round_trip() {
    let bytes = vec![0x00, 0x0f, 0xa0, 0xff];
    assert_eq!(hex_encode(&bytes), "000fa0ff");
    assert_eq!(hex_decode("000FA0ff"), Some(bytes));
    assert_eq!(hex_decode("0"), None);
    assert_eq!(hex_decode("zz"), None);
}

/// A random 32-byte key and 12-byte nonce from the operating system.
fn random_key_and_nonce() -> ([u8; 32], [u8; 12]) {
    let mut key = [0u8; 32];
    let mut nonce = [0u8; 12];
    getrandom::fill(&mut key).unwrap();
    getrandom::fill(&mut nonce).unwrap();
    (key, nonce)
}

#[test]
fn test_encryption_decryption() {
    let (key, nonce) = random_key_and_nonce();
    let data = b"super secret message";
    let ciphertext = encrypt_aes_gcm(&key, &nonce, data, &[]).unwrap();
    let decrypted = decrypt_aes_gcm(&key, &nonce, &ciphertext, &[]).unwrap();
    assert_eq!(decrypted, data);
}

#[test]
fn test_decryption_fail_wrong_key() {
    let (key1, nonce) = random_key_and_nonce();
    let (key2, _) = random_key_and_nonce();
    let data = b"super secret message";
    let ciphertext = encrypt_aes_gcm(&key1, &nonce, data, &[]).unwrap();
    let result = decrypt_aes_gcm(&key2, &nonce, &ciphertext, &[]);
    assert!(result.is_err());
}

#[test]
fn test_decryption_fail_wrong_nonce() {
    let (key, nonce) = random_key_and_nonce();
    let data = b"super secret message";
    let ciphertext = encrypt_aes_gcm(&key, &nonce, data, &[]).unwrap();
    let (_, wrong_nonce) = random_key_and_nonce();
    let result = decrypt_aes_gcm(&key, &wrong_nonce, &ciphertext, &[]);
    assert!(result.is_err());
}

#[test]
fn test_decryption_fail_corrupted_ciphertext() {
    let (key, nonce) = random_key_and_nonce();
    let data = b"super secret message";
    let mut ciphertext = encrypt_aes_gcm(&key, &nonce, data, &[]).unwrap();
    ciphertext[0] ^= 0xff;
    let result = decrypt_aes_gcm(&key, &nonce, &ciphertext, &[]);
    assert!(result.is_err());
}

use tapauth::crypto::temporal::{
    previous_temporal_identifier_at, previous_temporal_identifier_ble_at,
    verify_temporal_identifier_at, verify_temporal_identifier_ble_at,
};

#[test]
fn previous_identifier_is_that_of_the_window_before() {
    let csk = ClientSymmetricKey::from_bytes([9u8; 32]);
    let prev = previous_temporal_identifier_at(&csk, 1000).unwrap();
    assert_eq!(prev, generate_temporal_identifier(&csk, 999).unwrap());
    let prev_ble = previous_temporal_identifier_ble_at(&csk, 1000).unwrap();
    assert_eq!(prev_ble, generate_temporal_identifier_ble(&csk, 999).unwrap());
}

#[test]
fn first_window_has_no_previous_identifier() {
    let csk = ClientSymmetricKey::from_bytes([9u8; 32]);
    assert_eq!(previous_temporal_identifier_at(&csk, 0), Err(CryptoError::KeyDerivationFailed));
    assert_eq!(previous_temporal_identifier_ble_at(&csk, 0), Err(CryptoError::KeyDerivationFailed));
}

#[test]
fn identifiers_verify_in_the_current_and_previous_window_only() {
    let csk = ClientSymmetricKey::from_bytes([9u8; 32]);
    let other = ClientSymmetricKey::from_bytes([8u8; 32]);
    let w = 5000u64;
    let cur = generate_temporal_identifier(&csk, w).unwrap();
    let prev = generate_temporal_identifier(&csk, w - 1).unwrap();
    let old = generate_temporal_identifier(&csk, w - 2).unwrap();
    let foreign = generate_temporal_identifier(&other, w).unwrap();
    assert_eq!(verify_temporal_identifier_at(&csk, &cur, w, w), Ok(true));
    assert_eq!(verify_temporal_identifier_at(&csk, &prev, w, w), Ok(true));
    assert_eq!(verify_temporal_identifier_at(&csk, &old, w, w), Ok(false));
    assert_eq!(verify_temporal_identifier_at(&csk, &foreign, w, w), Ok(false));
    // The clock crossed into the next window between the two reads.
    assert_eq!(verify_temporal_identifier_at(&csk, &cur, w - 1, w + 1), Ok(true));
    // In the first window an identifier that is not the current one has
    // no previous window to match.
    assert_eq!(
        verify_temporal_identifier_at(&csk, &foreign, 0, 0),
        Err(CryptoError::KeyDerivationFailed)
    );
    let first = generate_temporal_identifier(&csk, 0).unwrap();
    assert_eq!(verify_temporal_identifier_at(&csk, &first, 0, 0), Ok(true));

    let cur_ble = generate_temporal_identifier_ble(&csk, w).unwrap();
    let prev_ble = generate_temporal_identifier_ble(&csk, w - 1).unwrap();
    let old_ble = generate_temporal_identifier_ble(&csk, w - 2).unwrap();
    assert_eq!(verify_temporal_identifier_ble_at(&csk, &cur_ble, w, w), Ok(true));
    assert_eq!(verify_temporal_identifier_ble_at(&csk, &prev_ble, w, w), Ok(true));
    assert_eq!(verify_temporal_identifier_ble_at(&csk, &old_ble, w, w), Ok(false));
    assert_eq!(
        verify_temporal_identifier_ble_at(&csk, &old_ble, 0, 0),
        Err(CryptoError::KeyDerivationFailed)
    );
}
