use tapauth::config::toml_config::{
    resolve_enable_fprintd_bridge, TapAuthConfig, TpmPcrPolicy,
};
use tapauth::config::{
    ClientConfig, ClientConfigManager, ConfigError, PairedClient, PairedServer, PairedServers,
    UtcTimestamp,
};
use tapauth::crypto::CryptoError;
use tapauth::string_map::StringMap;

fn at(seconds: i64) -> UtcTimestamp {
    UtcTimestamp { seconds, nanoseconds: 0 }
}

#[test]
fn mod_test_default_config() {
    let config = ClientConfig::default();
    assert_eq!(config.udp_port, 36692);
}

#[test]
fn toml_config_test_default_config() {
    let config = TapAuthConfig::default();
    assert_eq!(config.pam_operation_timeout_secs, 120);
    assert_eq!(config.pam_gui_timeout_secs, 30);
    assert_eq!(config.udp_port, 36692);
    assert!(config.enable_network);
    assert!(config.enable_ble);
    assert_eq!(config.enable_fprintd_bridge, None);
    assert!(!config.use_tpm);
    assert_eq!(config.tpm_pcr_policy, TpmPcrPolicy::Standard);
}

#[test]
fn test_resolve_enable_fprintd_bridge() {
    assert!(resolve_enable_fprintd_bridge(Some(true), false));
    assert!(resolve_enable_fprintd_bridge(Some(true), true));
    assert!(!resolve_enable_fprintd_bridge(Some(false), false));
    assert!(!resolve_enable_fprintd_bridge(Some(false), true));
    assert!(!resolve_enable_fprintd_bridge(None, false));
    assert!(resolve_enable_fprintd_bridge(None, true));
}

#[test]
fn test_paired_server_user_authorization() {
    let server = PairedServer {
        name: "TestServer".to_string(),
        public_key: "abc123".to_string(),
        allowed_users: vec!["alice".to_string(), "bob".to_string()],
        paired_at: at(1_700_000_000),
    };
    assert!(server.is_user_allowed("alice"));
    assert!(server.is_user_allowed("bob"));
    assert!(!server.is_user_allowed("charlie"));
    assert!(!server.is_user_allowed(""));
}

#[test]
fn test_paired_server_empty_allowed_users() {
    let server = PairedServer {
        name: "TestServer".to_string(),
        public_key: "abc123".to_string(),
        allowed_users: vec![],
        paired_at: at(1_700_000_000),
    };
    assert!(!server.is_user_allowed("alice"));
    assert!(!server.is_user_allowed("root"));
    assert!(!server.is_user_allowed(""));
}

#[test]
fn paired_client_users_are_checked_exactly() {
    let client = PairedClient {
        hostname: "client-laptop".to_string(),
        public_key: "def456".to_string(),
        csk: "encrypted_key_data".to_string(),
        allowed_users: vec!["user1".to_string()],
        paired_at: at(0),
    };
    assert!(client.is_user_allowed("user1"));
    assert!(!client.is_user_allowed("user"));
    assert!(!client.is_user_allowed("user12"));
}

#[test]
fn tpm_policy_pcrs_and_descriptions() {
    assert_eq!(TpmPcrPolicy::default(), TpmPcrPolicy::Standard);
    assert_eq!(TpmPcrPolicy::Standard.pcr_list(), "7,14");
    assert_eq!(TpmPcrPolicy::Paranoid.pcr_list(), "0,2,7,14");
    assert!(!TpmPcrPolicy::Standard.description().is_empty());
    assert_ne!(TpmPcrPolicy::Standard.description(), TpmPcrPolicy::Paranoid.description());
}

#[test]
fn fprintd_bridge_follows_explicit_setting() {
    let mut config = TapAuthConfig::default();
    config.enable_fprintd_bridge = Some(true);
    assert!(config.fprintd_bridge_enabled());
    config.enable_fprintd_bridge = Some(false);
    assert!(!config.fprintd_bridge_enabled());
}

fn server_with(users: &[&str]) -> PairedServer {
    PairedServer {
        name: "phone".to_string(),
        public_key: "aa".repeat(32),
        allowed_users: users.iter().map(|u| u.to_string()).collect(),
        paired_at: at(1),
    }
}

#[test]
fn remove_user_keeps_pairing_while_users_remain() {
    let manager = ClientConfigManager::new();
    let mut servers: PairedServers = StringMap::new();
    servers.insert("srv".to_string(), server_with(&["alice", "bob", "alice"]));
    // Only the user went: the pairing stays.
    assert!(!manager.remove_user_from_pairing(&mut servers, "srv", "alice"));
    let left = servers.get("srv").unwrap();
    assert_eq!(left.allowed_users, vec!["bob".to_string()]);
    // The last user takes the pairing with them.
    assert!(manager.remove_user_from_pairing(&mut servers, "srv", "bob"));
    assert!(servers.get("srv").is_none());
    assert_eq!(servers.len(), 0);
}

#[test]
fn remove_user_of_unknown_pairing_reports_it_gone() {
    let manager = ClientConfigManager::new();
    let mut servers: PairedServers = StringMap::new();
    servers.insert("srv".to_string(), server_with(&["alice"]));
    // No such pairing: nothing is left of it.
    assert!(manager.remove_user_from_pairing(&mut servers, "other", "alice"));
    assert!(!manager.remove_user_from_pairing(&mut servers, "srv", "mallory"));
    assert_eq!(servers.get("srv").unwrap().allowed_users, vec!["alice".to_string()]);
}

#[test]
fn remove_paired_server_drops_only_that_server() {
    let manager = ClientConfigManager::new();
    let mut servers: PairedServers = StringMap::new();
    servers.insert("a".to_string(), server_with(&["alice"]));
    servers.insert("b".to_string(), server_with(&["bob"]));
    manager.remove_paired_server(&mut servers, "a");
    assert!(servers.get("a").is_none());
    assert!(servers.get("b").is_some());
    manager.remove_paired_server(&mut servers, "missing");
    assert_eq!(servers.len(), 1);
}

#[test]
fn config_manager_paths() {
    let manager = ClientConfigManager::new();
    assert_eq!(manager.config_dir(), "/etc/tapauth");
    assert_eq!(manager.file_path("client_key"), "/etc/tapauth/client_key");
}

#[test]
fn config_error_messages() {
    assert_eq!(ConfigError::InvalidConfig.message(), "Invalid configuration");
    assert_eq!(ConfigError::InsufficientPermissions.message(), "Insufficient permissions");
    assert_eq!(
        ConfigError::Crypto(CryptoError::InvalidKeyLength).message(),
        "Crypto error: Invalid key length"
    );
}

use tapauth::config::{check_secure_file, may_modify_config};

#[test]
fn secure_files_are_owned_by_root_or_the_service_and_private() {
    assert!(check_secure_file(0, None, 0o100600).is_ok());
    assert!(check_secure_file(0, None, 0o400).is_ok());
    assert!(check_secure_file(990, Some(990), 0o600).is_ok());
    assert_eq!(check_secure_file(1000, Some(990), 0o600), Err(ConfigError::InsufficientPermissions));
    assert_eq!(check_secure_file(0, None, 0o640), Err(ConfigError::InsufficientPermissions));
    assert_eq!(check_secure_file(0, None, 0o644), Err(ConfigError::InsufficientPermissions));
}

#[test]
fn only_the_service_user_modifies_configuration() {
    assert!(may_modify_config(990, Some(990)).is_ok());
    assert_eq!(may_modify_config(0, Some(990)), Err(ConfigError::InsufficientPermissions));
    assert_eq!(may_modify_config(0, None), Err(ConfigError::InsufficientPermissions));
}


#[test]
fn manager_setup_is_for_the_service_user_only() {
    let m = ClientConfigManager::new();
    assert!(m.init(990, Some(990)).is_ok());
    assert_eq!(m.init(1000, Some(990)), Err(ConfigError::InsufficientPermissions));
    assert_eq!(m.init(0, None), Err(ConfigError::InsufficientPermissions));
}

#[test]
fn stored_keys_must_be_32_bytes() {
    let m = ClientConfigManager::new();
    let kp = m.load_keypair(Some(&[8u8; 32])).unwrap();
    assert_eq!(kp.signing_key_bytes(), [8u8; 32]);
    assert_eq!(m.load_keypair(Some(&[8u8; 31])).err(), Some(ConfigError::InvalidConfig));
    assert_eq!(m.load_keypair(None).err(), Some(ConfigError::InvalidConfig));
    let csk = m.load_csk(Some(&[4u8; 32])).unwrap();
    assert_eq!(csk.as_bytes(), &[4u8; 32]);
    assert_eq!(m.load_csk(Some(&[4u8; 64])).err(), Some(ConfigError::InvalidConfig));
    assert_eq!(m.load_csk(None).err(), Some(ConfigError::InvalidConfig));
}

#[test]
fn adding_a_paired_server_replaces_one_under_the_same_id() {
    let m = ClientConfigManager::new();
    let mut servers: PairedServers = StringMap::new();
    let server = |name: &str| PairedServer {
        name: name.to_string(),
        public_key: "ab".to_string(),
        allowed_users: vec!["alice".to_string()],
        paired_at: UtcTimestamp { seconds: 1, nanoseconds: 0 },
    };
    m.add_paired_server(&mut servers, "id1".to_string(), server("first"));
    m.add_paired_server(&mut servers, "id2".to_string(), server("second"));
    m.add_paired_server(&mut servers, "id1".to_string(), server("again"));
    assert_eq!(servers.len(), 2);
    assert_eq!(servers.get("id1").unwrap().name, "again");
    assert_eq!(servers.get("id2").unwrap().name, "second");
}
