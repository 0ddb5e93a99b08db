//! Client configuration, paired servers and paired clients, and the rules
//! for who a pairing may authenticate. Reading and writing the files is the
//! caller's; here are the values and their updates.
pub mod toml_config;

use crate::crypto::keys::{ClientSymmetricKey, Ed25519KeyPair};
use crate::crypto::CryptoError;
use crate::string_map::StringMap;
use crate::text::{str_eq, take32};
use vstd::prelude::*;

verus! {

/// A UTC instant: seconds since the Unix epoch and the nanoseconds within
/// that second.
#[derive(Debug, Clone, Copy, PartialEq, Eq)]
pub struct UtcTimestamp {
    pub seconds: i64,
    pub nanoseconds: u32,
}

/// Failures of configuration handling.
#[derive(Debug, Clone, Copy, PartialEq, Eq)]
pub enum ConfigError {
    /// A file could not be read or written.
    Io,
    /// A file did not parse.
    Serialization,
    InsufficientPermissions,
    InvalidConfig,
    Crypto(CryptoError),
}

/// The message of a configuration failure.
pub open spec fn spec_config_error_message(e: ConfigError) -> Seq<char> {
    match e {
        ConfigError::Io => "IO error"@,
        ConfigError::Serialization => "Serialization error"@,
        ConfigError::InsufficientPermissions => "Insufficient permissions"@,
        ConfigError::InvalidConfig => "Invalid configuration"@,
        ConfigError::Crypto(c) => "Crypto error: "@ + crate::crypto::crypto_error_message(c)@,
    }
}

impl ConfigError {
    /// The failure's message (I/O and parse failures without the
    /// underlying reason, which the caller holds).
    pub fn message(&self) -> (r: String)
        ensures
            r@ == spec_config_error_message(*self),
    {
        match self {
            ConfigError::Io => "IO error".to_owned(),
            ConfigError::Serialization => "Serialization error".to_owned(),
            ConfigError::InsufficientPermissions => "Insufficient permissions".to_owned(),
            ConfigError::InvalidConfig => "Invalid configuration".to_owned(),
            ConfigError::Crypto(c) => {
                let mut m = "Crypto error: ".to_owned();
                m.append(c.message());
                m
            },
        }
    }
}

/// Well-known configuration directory.
pub const CONFIG_DIR: &'static str = "/etc/tapauth";

/// Client configuration file.
pub const CLIENT_CONFIG_FILE: &'static str = "client_config.json";

/// Paired servers file (on the client).
pub const PAIRED_SERVERS_FILE: &'static str = "paired_servers.json";

/// Client private key file.
pub const CLIENT_KEY_FILE: &'static str = "client_key";

/// Client symmetric key file.
pub const CLIENT_SYMMETRIC_KEY_FILE: &'static str = "client_symmetric_key";

/// Default UDP port of the client.
pub const DEFAULT_CLIENT_UDP_PORT: u16 = 36692;

/// `hostname::get` (the `hostname` crate), as UTF-8; `None` when the name
/// cannot be read or is not UTF-8. Nothing is stated of the name itself.
#[verifier::external_body]
fn system_hostname() -> Option<String> {
    match hostname::get() {
        Ok(h) => h.into_string().ok(),
        Err(_) => None,
    }
}

/// Whether a configuration or key file may be read: it is owned by root
/// or by the service user, and its permission bits are `600` or `400`.
pub open spec fn spec_secure_file(owner_uid: u32, service_uid: Option<u32>, mode: u32) -> bool {
    &&& (owner_uid == 0 || service_uid == Some(owner_uid))
    &&& (mode % 512 == 0o600 || mode % 512 == 0o400)
}

/// Checks the owner and permission bits of a file before it is read.
pub fn check_secure_file(owner_uid: u32, service_uid: Option<u32>, mode: u32) -> (r: Result<(), ConfigError>)
    ensures
        r is Ok <==> spec_secure_file(owner_uid, service_uid, mode),
        r matches Err(e) ==> e == ConfigError::InsufficientPermissions,
{
    let owner_ok = owner_uid == 0 || match service_uid {
        Some(u) => u == owner_uid,
        None => false,
    };
    if !owner_ok {
        return Err(ConfigError::InsufficientPermissions);
    }
    let bits = mode & 0o777;
    assert(bits == mode % 512) by (bit_vector)
        requires
            bits == mode & 0o777,
    ;
    if bits != 0o600 && bits != 0o400 {
        return Err(ConfigError::InsufficientPermissions);
    }
    Ok(())
}

/// Whether this process may create or change configuration files: only
/// when it runs as the service user.
pub fn may_modify_config(euid: u32, service_uid: Option<u32>) -> (r: Result<(), ConfigError>)
    ensures
        r is Ok <==> service_uid == Some(euid),
        r matches Err(e) ==> e == ConfigError::InsufficientPermissions,
{
    match service_uid {
        Some(u) => if u == euid {
            Ok(())
        } else {
            Err(ConfigError::InsufficientPermissions)
        },
        None => Err(ConfigError::InsufficientPermissions),
    }
}

/// Client configuration.
#[derive(Debug, Clone)]
pub struct ClientConfig {
    /// Hostname of this client.
    pub hostname: String,
    /// UDP port for authentication.
    pub udp_port: u16,
    /// Whether to use the TPM for key storage.
    pub use_tpm: bool,
}

impl Default for ClientConfig {
    /// The system's host name (or `unknown`), port 36692, no TPM.
    fn default() -> (r: Self)
        ensures
            r.udp_port == DEFAULT_CLIENT_UDP_PORT,
            !r.use_tpm,
    {
        let hostname = match system_hostname() {
            Some(h) => h,
            None => "unknown".to_owned(),
        };
        ClientConfig { hostname, udp_port: DEFAULT_CLIENT_UDP_PORT, use_tpm: false }
    }
}

/// The character views of a list of strings.
pub open spec fn strings_view(v: Seq<String>) -> Seq<Seq<char>> {
    v.map_values(|s: String| s@)
}

/// Whether `users` names `username`.
pub open spec fn spec_user_allowed(users: Seq<Seq<char>>, username: Seq<char>) -> bool {
    users.contains(username)
}

/// `users` without any occurrence of `username`, in order.
pub open spec fn spec_without_user(users: Seq<Seq<char>>, username: Seq<char>) -> Seq<Seq<char>> {
    users.filter(|u: Seq<char>| u != username)
}

fn any_user_is(users: &Vec<String>, username: &str) -> (r: bool)
    ensures
        r == spec_user_allowed(strings_view(users@), username@),
{
    let mut i: usize = 0;
    while i < users.len()
        invariant
            i <= users@.len(),
            forall|j: int| 0 <= j < i ==> users@[j]@ != username@,
        decreases users@.len() - i,
    {
        if str_eq(users[i].as_str(), username) {
            assert(strings_view(users@)[i as int] == username@);
            return true;
        }
        i = i + 1;
    }
    assert(!strings_view(users@).contains(username@)) by {
        if strings_view(users@).contains(username@) {
            let k = choose|k: int| 0 <= k < strings_view(users@).len() && strings_view(users@)[k] == username@;
            assert(users@[k]@ == username@);
        }
    }
    false
}

/// A server this client is paired with.
#[derive(Debug)]
pub struct PairedServer {
    /// The server's display name.
    pub name: String,
    /// The server's Ed25519 public key, hex-encoded.
    pub public_key: String,
    /// The users on this client the server may authenticate; empty means
    /// nobody.
    pub allowed_users: Vec<String>,
    /// When the pairing was made.
    pub paired_at: UtcTimestamp,
}

impl PairedServer {
    /// Whether the server may authenticate `username`: exactly when the
    /// name is in the allowed list (an empty list allows nobody).
    pub fn is_user_allowed(&self, username: &str) -> (r: bool)
        ensures
            r == spec_user_allowed(strings_view(self.allowed_users@), username@),
    {
        any_user_is(&self.allowed_users, username)
    }
}

/// A client this server is paired with.
#[derive(Debug)]
pub struct PairedClient {
    /// The client's display name (host name).
    pub hostname: String,
    /// The client's Ed25519 public key, hex-encoded.
    pub public_key: String,
    /// The client symmetric key, hex-encoded.
    pub csk: String,
    /// The users on the client this pairing may authenticate; empty means
    /// nobody.
    pub allowed_users: Vec<String>,
    /// When the pairing was made.
    pub paired_at: UtcTimestamp,
}

impl PairedClient {
    /// Whether the pairing may authenticate `username`.
    pub fn is_user_allowed(&self, username: &str) -> (r: bool)
        ensures
            r == spec_user_allowed(strings_view(self.allowed_users@), username@),
    {
        any_user_is(&self.allowed_users, username)
    }
}

/// Removes every occurrence of `username` from a user list.
fn retain_other_users(users: &Vec<String>, username: &str) -> (r: Vec<String>)
    ensures
        strings_view(r@) == spec_without_user(strings_view(users@), username@),
{
    let mut out: Vec<String> = Vec::new();
    let mut i: usize = 0;
    while i < users.len()
        invariant
            i <= users@.len(),
            strings_view(out@) == spec_without_user(strings_view(users@.take(i as int)), username@),
        decreases users@.len() - i,
    {
        let ghost before = out@;
        assert(users@.take(i + 1) =~= users@.take(i as int).push(users@[i as int]));
        assert(strings_view(users@.take(i + 1)) =~= strings_view(users@.take(i as int)).push(
            users@[i as int]@,
        ));
        proof {
            reveal(Seq::filter);
            assert(strings_view(users@.take(i + 1)).drop_last() =~= strings_view(users@.take(i as int)));
        }
        if !str_eq(users[i].as_str(), username) {
            let u = users[i].clone();
            out.push(u);
            assert(strings_view(out@) =~= strings_view(before).push(users@[i as int]@));
        }
        i = i + 1;
    }
    assert(users@.take(users@.len() as int) =~= users@);
    out
}

/// The view of a paired server.
pub struct PairedServerView {
    pub name: Seq<char>,
    pub public_key: Seq<char>,
    pub allowed_users: Seq<Seq<char>>,
    pub paired_at: UtcTimestamp,
}

impl View for PairedServer {
    type V = PairedServerView;

    open spec fn view(&self) -> PairedServerView {
        PairedServerView {
            name: self.name@,
            public_key: self.public_key@,
            allowed_users: strings_view(self.allowed_users@),
            paired_at: self.paired_at,
        }
    }
}

/// The servers a client is paired with, by pairing id.
pub type PairedServers = StringMap<PairedServer>;

/// The client's configuration manager: where its files live.
pub struct ClientConfigManager {
    config_dir: String,
}

impl ClientConfigManager {
    /// The directory the files live in.
    pub closed spec fn dir(&self) -> Seq<char> {
        self.config_dir@
    }

    /// A manager for the well-known directory [`CONFIG_DIR`].
    pub fn new() -> (r: Self)
        ensures
            r.dir() == CONFIG_DIR@,
    {
        ClientConfigManager { config_dir: CONFIG_DIR.to_owned() }
    }

    /// The configuration directory.
    pub fn config_dir(&self) -> (r: &str)
        ensures
            r@ == self.dir(),
    {
        self.config_dir.as_str()
    }

    /// The path of a file in the configuration directory.
    pub fn file_path(&self, file: &str) -> (r: String)
        ensures
            r@ == self.dir() + "/"@ + file@,
    {
        let mut p = self.config_dir.clone();
        p.append("/");
        p.append(file);
        p
    }

    /// Checks, before the configuration directory is created or its mode
    /// set, that this process (effective uid `euid`) is the service user
    /// (`service_uid`, when that user exists).
    pub fn init(&self, euid: u32, service_uid: Option<u32>) -> (r: Result<(), ConfigError>)
        ensures
            r is Ok <==> service_uid == Some(euid),
            r matches Err(e) ==> e == ConfigError::InsufficientPermissions,
    {
        may_modify_config(euid, service_uid)
    }

    /// The key pair stored in the client key file, given the file's
    /// contents (`None` when there is no such file): exactly 32 bytes are
    /// the signing key; a missing file or another length is an invalid
    /// configuration.
    pub fn load_keypair(&self, contents: Option<&[u8]>) -> (r: Result<Ed25519KeyPair, ConfigError>)
        ensures
            match contents {
                Some(data) if data@.len() == 32 => r matches Ok(kp) && kp.secret() == data@,
                _ => r == Err::<Ed25519KeyPair, ConfigError>(ConfigError::InvalidConfig),
            },
    {
        match contents {
            Some(data) => {
                if data.len() != 32 {
                    return Err(ConfigError::InvalidConfig);
                }
                let bytes = take32(data);
                proof {
                    assert(data@.take(32) =~= data@);
                }
                match Ed25519KeyPair::from_signing_key_bytes(&bytes) {
                    Ok(kp) => Ok(kp),
                    Err(e) => Err(ConfigError::Crypto(e)),
                }
            },
            None => Err(ConfigError::InvalidConfig),
        }
    }

    /// The client symmetric key stored in its file, given the file's
    /// contents (`None` when there is no such file): exactly 32 bytes are
    /// the key; a missing file or another length is an invalid
    /// configuration.
    pub fn load_csk(&self, contents: Option<&[u8]>) -> (r: Result<ClientSymmetricKey, ConfigError>)
        ensures
            match contents {
                Some(data) if data@.len() == 32 => r matches Ok(k) && k@ == data@,
                _ => r == Err::<ClientSymmetricKey, ConfigError>(ConfigError::InvalidConfig),
            },
    {
        match contents {
            Some(data) => {
                if data.len() != 32 {
                    return Err(ConfigError::InvalidConfig);
                }
                let bytes = take32(data);
                proof {
                    assert(data@.take(32) =~= data@);
                }
                Ok(ClientSymmetricKey::from_bytes(bytes))
            },
            None => Err(ConfigError::InvalidConfig),
        }
    }

    /// Adds (or replaces) the server paired under `id` in the loaded list.
    pub fn add_paired_server(&self, servers: &mut PairedServers, id: String, server: PairedServer)
        ensures
            final(servers)@ == old(servers)@.insert(id@, server@),
    {
        servers.insert(id, server);
    }

    /// Removes the server paired under `id` from the loaded list.
    pub fn remove_paired_server(&self, servers: &mut PairedServers, id: &str)
        ensures
            final(servers)@ == old(servers)@.remove(id@),
    {
        let _ = servers.remove(id);
    }

    /// Removes `username` from the users the server paired under `id` may
    /// authenticate; a pairing left with no user is removed altogether.
    /// Returns whether the pairing is gone (also when there was none).
    pub fn remove_user_from_pairing(&self, servers: &mut PairedServers, id: &str, username: &str) -> (r: bool)
        ensures
            !old(servers)@.contains_key(id@) ==> r && final(servers)@ == old(servers)@,
            old(servers)@.contains_key(id@) ==> {
                let s = old(servers)@[id@];
                let users = spec_without_user(s.allowed_users, username@);
                &&& r == (users.len() == 0)
                &&& users.len() == 0 ==> final(servers)@ == old(servers)@.remove(id@)
                &&& users.len() != 0 ==> final(servers)@ == old(servers)@.insert(
                    id@,
                    PairedServerView { allowed_users: users, ..s },
                )
            },
    {
        match servers.remove(id) {
            Some(server) => {
                let users = retain_other_users(&server.allowed_users, username);
                if users.len() == 0 {
                    true
                } else {
                    let updated = PairedServer {
                        name: server.name,
                        public_key: server.public_key,
                        allowed_users: users,
                        paired_at: server.paired_at,
                    };
                    let ghost after_remove = servers@;
                    servers.insert(id.to_owned(), updated);
                    proof {
                        assert(old(servers)@.remove(id@).insert(id@, updated@) =~= old(servers)@.insert(
                            id@,
                            updated@,
                        ));
                    }
                    false
                }
            },
            None => {
                assert(servers@ =~= old(servers)@);
                true
            },
        }
    }
}

} // verus!
