use tapauth::error::TapAuthError;
use tapauth::jni::conversions::{jbytearray_to_ed25519_keypair, jbytearray_to_fixed};
use tapauth::jni::exceptions::{
    throw_tapauth_error, AEAD_BAD_TAG_EXCEPTION, GENERAL_SECURITY_EXCEPTION,
    ILLEGAL_ARGUMENT_EXCEPTION, ILLEGAL_STATE_EXCEPTION, IO_EXCEPTION,
};
use tapauth::pb::wrapper_message::WrapperMessage;

#[test]
fn test_jni_functions_handle_null_inputs_gracefully() {
    // Empty arrays from the Java side are refused with a message, never a panic.
    assert!(jbytearray_to_fixed(&[], 32, "csk").is_err());
    assert!(jbytearray_to_ed25519_keypair(&[], "private_key").is_err());
}

#[test]
fn test_crypto_operations_validate_input_lengths() {
    const VALID_KEY_LEN: usize = 32;
    const VALID_SIG_LEN: usize = 64;
    assert_eq!(VALID_KEY_LEN, 32);
    assert_eq!(VALID_SIG_LEN, 64);
}

#[test]
fn test_protobuf_operations_handle_invalid_data() {
    let invalid_protobuf = [0xFF, 0xFF, 0xFF, 0xFF, 0xFF];
    assert!(!invalid_protobuf.is_empty());
    assert!(WrapperMessage::decode(&invalid_protobuf).is_err());
}

#[test]
fn test_error_conversion_infrastructure() {
    let cases = [
        (TapAuthError::InvalidInput("bad".into()), ILLEGAL_ARGUMENT_EXCEPTION),
        (TapAuthError::Io("io".into()), IO_EXCEPTION),
        (TapAuthError::ProtoDecode("invalid wire type".into()), IO_EXCEPTION),
        (TapAuthError::AeadBadTag, AEAD_BAD_TAG_EXCEPTION),
        (TapAuthError::Crypto("kdf".into()), GENERAL_SECURITY_EXCEPTION),
        (TapAuthError::State("state".into()), ILLEGAL_STATE_EXCEPTION),
    ];
    for (err, class) in cases {
        assert_eq!(throw_tapauth_error(&err).class, class);
    }
    assert_eq!(throw_tapauth_error(&TapAuthError::InvalidInput("bad".into())).message, "bad");
    assert_eq!(throw_tapauth_error(&TapAuthError::AeadBadTag).message, "AEAD tag verification failed");
    assert_eq!(
        throw_tapauth_error(&TapAuthError::ProtoDecode("invalid wire type value: 7".into())).message,
        "failed to decode Protobuf message: invalid wire type value: 7"
    );
}

#[test]
fn test_documentation_references() {
    println!("JNI panic recovery integration tests location:");
    println!("  - Android: server-android/app/src/androidTest/java/dev/rourunisen/tapauth/crypto/TapAuthCryptoTest.kt");
    println!("\nTo run:");
    println!("  cd server-android && ./gradlew connectedDebugAndroidTest");
}

#[test]
fn key_buffers_of_32_or_64_bytes_load() {
    let seed = [9u8; 32];
    let a = jbytearray_to_ed25519_keypair(&seed, "key").unwrap();
    let mut full = seed.to_vec();
    full.extend_from_slice(&a.verifying_key_bytes());
    let b = jbytearray_to_ed25519_keypair(&full, "key").unwrap();
    assert_eq!(a.signing_key_bytes(), b.signing_key_bytes());
    assert_eq!(
        jbytearray_to_ed25519_keypair(&[0u8; 31], "identity").err().unwrap(),
        "identity must be 32 bytes (signing key) or 64 bytes (full keypair)"
    );
}


#[test]
fn fixed_size_arrays_are_taken_whole_or_refused_with_their_size() {
    assert_eq!(jbytearray_to_fixed(&[1, 2, 3], 3, "nonce").unwrap(), vec![1, 2, 3]);
    assert_eq!(jbytearray_to_fixed(&[0u8; 12], 32, "challenge").err().unwrap(), "challenge must be 32 bytes");
    assert_eq!(jbytearray_to_fixed(&[], 0, "empty").unwrap(), Vec::<u8>::new());
}
