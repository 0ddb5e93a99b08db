use tapauth::crypto::CryptoError;
use tapauth::error::TapAuthError;
use tapauth::tpm::{keypair_from_unsealed, TpmKeyError};

#[test]
fn test_runner_documentation() {
    println!("Error scenario integration tests");
    println!("These tests verify daemon resilience under various error conditions");
    println!("\nRun with: sudo ./tests/run-integration-tests.sh");
}

#[test]
fn crypto_errors_map_to_boundary_errors() {
    assert_eq!(
        TapAuthError::from_crypto(CryptoError::InvalidKeyLength),
        TapAuthError::InvalidInput("crypto: Invalid key length".into())
    );
    assert_eq!(TapAuthError::from_crypto(CryptoError::DecryptionFailed), TapAuthError::AeadBadTag);
    assert_eq!(
        TapAuthError::from_crypto(CryptoError::SystemTimeError),
        TapAuthError::State("system time error".into())
    );
}

#[test]
fn unsealed_keys_must_be_32_bytes() {
    assert_eq!(keypair_from_unsealed(&[1u8; 31]).err(), Some(TpmKeyError::InvalidKeyFormat));
    let kp = keypair_from_unsealed(&[1u8; 32]).unwrap();
    assert_eq!(kp.signing_key_bytes(), [1u8; 32]);
    assert_eq!(TpmKeyError::OperationFailed("x".into()).message(), "Operation failed: x");
    assert_eq!(TpmKeyError::NotAvailable.message(), "TPM not available");
}

use tapauth::tpm::{
    check_sealed_key, seal_plan, sealed_key_files, tool_result, unseal_plan, TpmToolOutcome, SRK_HANDLE,
};

#[test]
fn sealing_runs_tpm2_create_under_the_storage_root_key() {
    let plan = seal_plan("/var/lib/tapauth/key.sealed").unwrap();
    assert_eq!(plan.input_path, "/var/lib/tapauth/key.tmp_in");
    assert_eq!(plan.create.program, "tpm2_create");
    assert_eq!(
        plan.create.args,
        vec![
            "-C", SRK_HANDLE, "-g", "sha256", "-G", "keyedseal", "-i", "/var/lib/tapauth/key.tmp_in",
            "-u", "/var/lib/tapauth/key.pub", "-r", "/var/lib/tapauth/key.priv",
        ]
    );
}

#[test]
fn unsealing_loads_then_unseals_through_a_context_file() {
    let plan = unseal_plan("/var/lib/tapauth/key.sealed").unwrap();
    assert_eq!(plan.output_path, "/var/lib/tapauth/key.tmp_out");
    assert_eq!(plan.context_path, "/var/lib/tapauth/key.ctx");
    assert_eq!(plan.load.program, "tpm2_load");
    assert_eq!(
        plan.load.args,
        vec![
            "-C", "0x81000001", "-u", "/var/lib/tapauth/key.pub", "-r", "/var/lib/tapauth/key.priv", "-c",
            "/var/lib/tapauth/key.ctx",
        ]
    );
    assert_eq!(plan.unseal.program, "tpm2_unseal");
    assert_eq!(plan.unseal.args, vec!["-c", "/var/lib/tapauth/key.ctx", "-o", "/var/lib/tapauth/key.tmp_out"]);
    let (public, private) = sealed_key_files("key").unwrap();
    assert_eq!((public.as_str(), private.as_str()), ("key.pub", "key.priv"));
}

#[test]
fn tpm_tool_failures_name_the_tool() {
    assert!(tool_result("tpm2_load", &TpmToolOutcome::Succeeded).is_ok());
    assert_eq!(
        tool_result("tpm2_load", &TpmToolOutcome::Failed("bad handle".to_string())),
        Err(TpmKeyError::OperationFailed("tpm2_load failed: bad handle".to_string()))
    );
    assert_eq!(
        tool_result("tpm2_create", &TpmToolOutcome::NotRun("not found".to_string())),
        Err(TpmKeyError::OperationFailed("Failed to run tpm2_create: not found".to_string()))
    );
    assert_eq!(check_sealed_key(false, true), Err(TpmKeyError::NotAvailable));
    assert_eq!(check_sealed_key(true, false), Err(TpmKeyError::KeyNotFound));
    assert!(check_sealed_key(true, true).is_ok());
}
