//! The two-phase pairing handshake, as the decisions each side takes on
//! each message; the caller moves the length-prefixed frames.
//!
//! Phase one: the server sends its hello (X25519 and Ed25519 public keys,
//! device name, supported algorithms); the client derives the pairing key
//! from the X25519 exchange and the six-digit SAS, and answers with its own
//! keys; the server derives the same key and SAS. Phase two, once the user
//! has compared the SAS on both devices: the client sends its symmetric key
//! encrypted under the pairing key, and the server answers with the
//! encrypted SHA-256 of the key it received, which the client checks.
use crate::crypto::encryption::{decrypt_with_psk, encrypt_with_psk, spec_open_prefixed};
use crate::crypto::kdf::{derive_psk_from_x25519, derive_sas, pairing_key_info, spec_sas};
use crate::crypto::keys::{
    ClientSymmetricKey, Ed25519KeyPair, PairingSymmetricKey, X25519KeyPair, x25519_pair_valid,
};
use crate::crypto::primitives::{
    aes_gcm_max_len, ed25519_public, hkdf_sha256, sha256, sha256_digest, x25519_public,
    x25519_shared,
};
use crate::crypto::CryptoError;
use crate::pb::{
    spec_decode_pairing_complete, spec_decode_pairing_hello, spec_decode_pairing_response,
    DecodeError, PairingComplete, PairingCskMessage, PairingHello, PairingHelloView,
    PairingResponse, PairingResponseView, HASH_SHA256, SIGNATURE_ED25519, SYMMETRIC_AES256_GCM,
    PairingCompleteView, PairingCskMessageView, pairing_complete_wf, pairing_csk_wf,
    spec_encode_pairing_complete, spec_encode_pairing_csk, pairing_hello_wf, pairing_response_wf,
    spec_encode_pairing_hello, spec_encode_pairing_response,
};
use crate::protocol::ProtocolError;
use crate::text::{bytes_eq, take32};
use vstd::prelude::*;

verus! {

/// Largest pairing message, in bytes.
pub const MAX_MESSAGE_SIZE: usize = 16384;

/// Pairing protocol version.
pub const PAIRING_VERSION: u32 = 1;

/// The pairing key one side derives from its X25519 secret and the peer's
/// public key.
pub open spec fn spec_pairing_psk(my_secret: Seq<u8>, their_public: Seq<u8>) -> Seq<u8> {
    hkdf_sha256(x25519_shared(my_secret, their_public), pairing_key_info(), 32)
}

/// The algorithm a client selects from a server's list: the first one, or
/// the default when the list is empty.
pub open spec fn spec_select(list: Seq<i32>, default: i32) -> i32 {
    if list.len() == 0 {
        default
    } else {
        list[0]
    }
}

/// Both sides of a pairing hold the same pairing key and the same short
/// authentication string, when each used the other's genuine public key.
pub proof fn lemma_pairing_sides_agree(
    client_secret: Seq<u8>,
    client_public: Seq<u8>,
    server_secret: Seq<u8>,
    server_public: Seq<u8>,
)
    requires
        x25519_pair_valid(client_secret, client_public),
        x25519_pair_valid(server_secret, server_public),
    ensures
        spec_pairing_psk(client_secret, server_public) == spec_pairing_psk(server_secret, client_public),
        spec_sas(spec_pairing_psk(client_secret, server_public), client_public, server_public)
            == spec_sas(spec_pairing_psk(server_secret, client_public), client_public, server_public),
{
    assert(x25519_shared(server_secret, client_public) == x25519_shared(
        client_secret,
        x25519_public(server_secret),
    ));
}

/// A pairing run end to end. The hello and the response, once encoded and
/// sent, arrive unchanged (version, names, keys, algorithms), so each side
/// takes the other's genuine X25519 public key; then the client key that the
/// client seals under its pairing key is, once encoded and sent, the key the
/// server receives; the server's acknowledgement, which seals that key's
/// SHA-256 under the server's pairing key, passes the client's check once
/// encoded and sent; and both sides show the same SAS.
pub proof fn lemma_pairing_handshake(
    client_secret: Seq<u8>,
    client_public: Seq<u8>,
    server_secret: Seq<u8>,
    server_public: Seq<u8>,
    hello: PairingHelloView,
    response: PairingResponseView,
    csk: Seq<u8>,
    key_message: PairingCskMessageView,
    ack: PairingCompleteView,
)
    requires
        x25519_pair_valid(client_secret, client_public),
        x25519_pair_valid(server_secret, server_public),
        pairing_hello_wf(hello),
        hello.x25519_public_key == server_public,
        pairing_response_wf(response),
        response.x25519_public_key == client_public,
        csk.len() == 32,
        pairing_csk_wf(key_message),
        pairing_complete_wf(ack),
        spec_open_prefixed(spec_pairing_psk(client_secret, server_public), key_message.encrypted_csk) == Some(csk),
        ack.success,
        spec_open_prefixed(spec_pairing_psk(server_secret, client_public), ack.csk_hash) == Some(sha256(csk)),
    ensures
        spec_decode_pairing_hello(spec_encode_pairing_hello(hello)) == Some(hello),
        spec_decode_pairing_response(spec_encode_pairing_response(response)) == Some(response),
        spec_pairing_psk(client_secret, server_public) == spec_pairing_psk(server_secret, client_public),
        spec_sas(spec_pairing_psk(client_secret, server_public), client_public, server_public)
            == spec_sas(spec_pairing_psk(server_secret, client_public), client_public, server_public),
        spec_received_csk(
            spec_encode_pairing_csk(key_message),
            Some(spec_pairing_psk(server_secret, client_public)),
        ) == Some(csk),
        spec_complete_ok(
            spec_encode_pairing_complete(ack),
            Some(spec_pairing_psk(client_secret, server_public)),
            csk,
        ),
{
    lemma_pairing_sides_agree(client_secret, client_public, server_secret, server_public);
    crate::pb::lemma_pairing_hello_roundtrip(hello);
    crate::pb::lemma_pairing_response_roundtrip(response);
    crate::pb::lemma_pairing_csk_roundtrip(key_message);
    crate::pb::lemma_pairing_complete_roundtrip(ack);
}

/// Whether an acknowledgement reports success and carries, under the
/// pairing key, the SHA-256 of the client key.
pub open spec fn spec_complete_ok(buf: Seq<u8>, psk: Option<Seq<u8>>, csk: Seq<u8>) -> bool {
    match (spec_decode_pairing_complete(buf), psk) {
        (Some(c), Some(k)) => c.success && spec_open_prefixed(k, c.csk_hash) == Some(sha256(csk)),
        _ => false,
    }
}

/// The 32-byte client key a key message carries under the pairing key.
pub open spec fn spec_received_csk(buf: Seq<u8>, psk: Option<Seq<u8>>) -> Option<Seq<u8>> {
    match (crate::pb::spec_decode_pairing_csk(buf), psk) {
        (Some(m), Some(k)) => match spec_open_prefixed(k, m.encrypted_csk) {
            Some(c) => if c.len() == 32 {
                Some(c)
            } else {
                None
            },
            None => None,
        },
        _ => None,
    }
}

/// Checks the length prefix of a pairing frame: at most
/// [`MAX_MESSAGE_SIZE`] bytes.
pub fn check_frame_length(len: u32) -> (r: Result<usize, ProtocolError>)
    ensures
        r is Ok <==> len <= MAX_MESSAGE_SIZE,
        r matches Ok(n) ==> n == len,
        r matches Err(e) ==> e == ProtocolError::InvalidMessageFormat,
{
    if len > 16384 {
        Err(ProtocolError::InvalidMessageFormat)
    } else {
        Ok(len as usize)
    }
}

/// A 32-byte key field of a message.
fn key_field(b: &[u8]) -> (r: Result<[u8; 32], ProtocolError>)
    ensures
        r is Ok <==> b@.len() == 32,
        r matches Ok(k) ==> k@ == b@,
        r matches Err(e) ==> e == ProtocolError::InvalidMessageFormat,
{
    if b.len() != 32 {
        return Err(ProtocolError::InvalidMessageFormat);
    }
    let k = take32(b);
    assert(b@.take(32) =~= b@);
    Ok(k)
}

fn copy_i32s(v: &Vec<i32>) -> (r: Vec<i32>)
    ensures
        r@ == v@,
{
    let mut out: Vec<i32> = Vec::new();
    let mut i: usize = 0;
    while i < v.len()
        invariant
            i <= v@.len(),
            out@ == v@.take(i as int),
        decreases v@.len() - i,
    {
        out.push(v[i]);
        i = i + 1;
        assert(out@ =~= v@.take(i as int));
    }
    assert(v@.take(v@.len() as int) =~= v@);
    out
}

fn select(list: &Vec<i32>, default: i32) -> (r: i32)
    ensures
        r == spec_select(list@, default),
{
    if list.len() == 0 {
        default
    } else {
        list[0]
    }
}

fn to_vec32(k: &[u8; 32]) -> (r: Vec<u8>)
    ensures
        r@ == k@,
{
    crate::wire::copy_range(k.as_slice(), 0, 32)
}

/// The client side of a pairing.
pub struct ClientPairingSession {
    x25519_keypair: X25519KeyPair,
    ed25519_keypair: Ed25519KeyPair,
    server_x25519_public: Option<[u8; 32]>,
    psk: Option<PairingSymmetricKey>,
    sas: Option<String>,
    server_supported_symmetric: Vec<i32>,
    server_supported_hash: Vec<i32>,
    server_supported_signature: Vec<i32>,
}

impl ClientPairingSession {
    /// The session's X25519 secret.
    pub closed spec fn x25519_secret(&self) -> Seq<u8> {
        self.x25519_keypair.secret()
    }

    /// The client's Ed25519 secret key.
    pub closed spec fn ed25519_secret(&self) -> Seq<u8> {
        self.ed25519_keypair.secret()
    }

    /// The server's X25519 public key, once its hello was applied.
    pub closed spec fn server_public(&self) -> Option<Seq<u8>> {
        match self.server_x25519_public {
            Some(k) => Some(k@),
            None => None,
        }
    }

    /// The pairing key, once derived.
    pub closed spec fn psk_view(&self) -> Option<Seq<u8>> {
        match &self.psk {
            Some(k) => Some(k@),
            None => None,
        }
    }

    /// The short authentication string, once derived.
    pub closed spec fn sas_view(&self) -> Option<Seq<char>> {
        match &self.sas {
            Some(s) => Some(s@),
            None => None,
        }
    }

    /// The algorithm lists of the server's hello.
    pub closed spec fn server_lists(&self) -> (Seq<i32>, Seq<i32>, Seq<i32>) {
        (
            self.server_supported_symmetric@,
            self.server_supported_hash@,
            self.server_supported_signature@,
        )
    }

    /// A fresh session with an ephemeral X25519 key pair.
    pub fn new(ed25519_keypair: Ed25519KeyPair) -> (r: Result<Self, CryptoError>)
        ensures
            r matches Err(e) ==> e == CryptoError::RandomGenerationFailed,
            r matches Ok(s) ==> s.ed25519_secret() == ed25519_keypair.secret() && s.server_public()
                is None && s.psk_view() is None && s.sas_view() is None,
    {
        let x25519_keypair = match X25519KeyPair::generate() {
            Ok(k) => k,
            Err(e) => {
                return Err(e);
            },
        };
        Ok(ClientPairingSession {
            x25519_keypair,
            ed25519_keypair,
            server_x25519_public: None,
            psk: None,
            sas: None,
            server_supported_symmetric: Vec::new(),
            server_supported_hash: Vec::new(),
            server_supported_signature: Vec::new(),
        })
    }

    /// The session's X25519 public key (shown in the pairing QR code).
    pub fn x25519_public_key(&self) -> (r: [u8; 32])
        ensures
            x25519_pair_valid(self.x25519_secret(), r@),
    {
        self.x25519_keypair.public_key_bytes()
    }

    /// The client's Ed25519 public key.
    pub fn ed25519_public_key(&self) -> (r: [u8; 32])
        ensures
            r@ == ed25519_public(self.ed25519_secret()),
    {
        self.ed25519_keypair.verifying_key_bytes()
    }

    /// Decodes the server's hello; its version must be [`PAIRING_VERSION`].
    pub fn receive_pairing_hello(&self, buf: &[u8]) -> (r: Result<PairingHello, ProtocolError>)
        ensures
            r is Ok <==> (spec_decode_pairing_hello(buf@) matches Some(h) && h.version
                == PAIRING_VERSION),
            r matches Ok(h) ==> spec_decode_pairing_hello(buf@) == Some(h@),
            r matches Err(e) ==> e == ProtocolError::Deserialization(DecodeError) || e
                == ProtocolError::InvalidMessageFormat,
    {
        let hello = match PairingHello::decode(buf) {
            Ok(h) => h,
            Err(e) => {
                return Err(ProtocolError::Deserialization(e));
            },
        };
        if hello.version != PAIRING_VERSION {
            return Err(ProtocolError::InvalidMessageFormat);
        }
        Ok(hello)
    }

    /// Applies the server's hello: records the server's X25519 key and
    /// algorithm lists, derives the pairing key and the SAS, and returns
    /// the SAS. The server's X25519 key must be 32 bytes.
    pub fn apply_pairing_hello(&mut self, hello: &PairingHello) -> (r: Result<String, ProtocolError>)
        ensures
            r is Ok <==> hello@.x25519_public_key.len() == 32,
            r matches Err(e) ==> e == ProtocolError::InvalidMessageFormat && *final(self) == *old(self),
            r matches Ok(sas) ==> {
                let psk = spec_pairing_psk(old(self).x25519_secret(), hello@.x25519_public_key);
                &&& final(self).x25519_secret() == old(self).x25519_secret()
                &&& final(self).ed25519_secret() == old(self).ed25519_secret()
                &&& final(self).server_public() == Some(hello@.x25519_public_key)
                &&& final(self).psk_view() == Some(psk)
                &&& sas@ == spec_sas(psk, x25519_public(old(self).x25519_secret()), hello@.x25519_public_key)
                &&& final(self).sas_view() == Some(sas@)
                &&& final(self).server_lists() == (
                    hello@.supported_symmetric_algorithms,
                    hello@.supported_hash_algorithms,
                    hello@.supported_signature_algorithms,
                )
            },
    {
        let server_x25519_pub = match key_field(hello.x25519_public_key.as_slice()) {
            Ok(k) => k,
            Err(e) => {
                return Err(e);
            },
        };
        let shared_secret = match self.x25519_keypair.diffie_hellman(&server_x25519_pub) {
            Ok(s) => s,
            Err(e) => {
                return Err(ProtocolError::Crypto(e));
            },
        };
        let psk = match derive_psk_from_x25519(&shared_secret) {
            Ok(k) => k,
            Err(e) => {
                return Err(ProtocolError::Crypto(e));
            },
        };
        let client_x25519_pub = self.x25519_keypair.public_key_bytes();
        let sas = match derive_sas(&psk, &client_x25519_pub, &server_x25519_pub) {
            Ok(s) => s,
            Err(e) => {
                return Err(ProtocolError::Crypto(e));
            },
        };
        self.server_x25519_public = Some(server_x25519_pub);
        self.server_supported_symmetric = copy_i32s(&hello.supported_symmetric_algorithms);
        self.server_supported_hash = copy_i32s(&hello.supported_hash_algorithms);
        self.server_supported_signature = copy_i32s(&hello.supported_signature_algorithms);
        self.psk = Some(psk);
        let out = sas.clone();
        self.sas = Some(sas);
        Ok(out)
    }

    /// The client's answer to the hello: its keys, its device name, and for
    /// each algorithm kind the first the server offered (or the default).
    pub fn pairing_response(&self, client_device_name: &str) -> (r: PairingResponse)
        ensures
            r@ == (PairingResponseView {
                version: PAIRING_VERSION,
                x25519_public_key: x25519_public(self.x25519_secret()),
                ed25519_public_key: ed25519_public(self.ed25519_secret()),
                device_name: client_device_name@,
                selected_symmetric_algorithm: spec_select(self.server_lists().0, SYMMETRIC_AES256_GCM),
                selected_hash_algorithm: spec_select(self.server_lists().1, HASH_SHA256),
                selected_signature_algorithm: spec_select(self.server_lists().2, SIGNATURE_ED25519),
            }),
    {
        let x = self.x25519_keypair.public_key_bytes();
        let e = self.ed25519_keypair.verifying_key_bytes();
        PairingResponse {
            version: PAIRING_VERSION,
            x25519_public_key: to_vec32(&x),
            ed25519_public_key: to_vec32(&e),
            device_name: client_device_name.to_owned(),
            selected_symmetric_algorithm: select(&self.server_supported_symmetric, SYMMETRIC_AES256_GCM),
            selected_hash_algorithm: select(&self.server_supported_hash, HASH_SHA256),
            selected_signature_algorithm: select(&self.server_supported_signature, SIGNATURE_ED25519),
        }
    }

    /// The server's Ed25519 public key from its hello; must be 32 bytes.
    pub fn server_ed25519_public_key(&self, hello: &PairingHello) -> (r: Result<[u8; 32], ProtocolError>)
        ensures
            r is Ok <==> hello@.ed25519_public_key.len() == 32,
            r matches Ok(k) ==> k@ == hello@.ed25519_public_key,
            r matches Err(e) ==> e == ProtocolError::InvalidMessageFormat,
    {
        key_field(hello.ed25519_public_key.as_slice())
    }

    /// The message carrying the client's symmetric key, encrypted under the
    /// pairing key, and the user it pairs.
    pub fn csk_message(&self, csk: &ClientSymmetricKey, username: &str) -> (r: Result<PairingCskMessage, ProtocolError>)
        ensures
            self.psk_view() is None ==> r == Err::<PairingCskMessage, ProtocolError>(
                ProtocolError::MissingField("psk"),
            ),
            r matches Err(e) ==> e == ProtocolError::MissingField("psk") || e
                == ProtocolError::Crypto(CryptoError::RandomGenerationFailed),
            r matches Ok(m) ==> self.psk_view() matches Some(psk) && spec_open_prefixed(
                psk,
                m.encrypted_csk@,
            ) == Some(csk@) && m.username@ == username@,
    {
        let psk = match &self.psk {
            Some(k) => k,
            None => {
                return Err(ProtocolError::MissingField("psk"));
            },
        };
        let encrypted_csk = match encrypt_with_psk(psk, csk.as_bytes()) {
            Ok(c) => c,
            Err(e) => {
                return Err(ProtocolError::Crypto(e));
            },
        };
        Ok(PairingCskMessage { encrypted_csk, username: username.to_owned() })
    }

    /// Checks the server's acknowledgement: it must report success, and its
    /// hash field must decrypt under the pairing key to the SHA-256 of the
    /// key the client sent.
    pub fn check_pairing_complete(&self, buf: &[u8], csk: &ClientSymmetricKey) -> (r: Result<(), ProtocolError>)
        ensures
            r is Ok <==> spec_complete_ok(buf@, self.psk_view(), csk@),
            r matches Err(e) ==> e == ProtocolError::Deserialization(DecodeError) || e
                == ProtocolError::InvalidMessageFormat || e == ProtocolError::MissingField("psk")
                || e == ProtocolError::Crypto(CryptoError::DecryptionFailed),
    {
        let complete = match PairingComplete::decode(buf) {
            Ok(c) => c,
            Err(e) => {
                return Err(ProtocolError::Deserialization(e));
            },
        };
        if !complete.success {
            return Err(ProtocolError::InvalidMessageFormat);
        }
        let psk = match &self.psk {
            Some(k) => k,
            None => {
                return Err(ProtocolError::MissingField("psk"));
            },
        };
        let decrypted_hash = match decrypt_with_psk(psk, complete.csk_hash.as_slice()) {
            Ok(h) => h,
            Err(e) => {
                return Err(ProtocolError::Crypto(e));
            },
        };
        let expected_hash = sha256_digest(csk.as_bytes());
        if !bytes_eq(decrypted_hash.as_slice(), expected_hash.as_slice()) {
            return Err(ProtocolError::InvalidMessageFormat);
        }
        Ok(())
    }

    /// The short authentication string, once derived.
    pub fn sas(&self) -> (r: Option<&str>)
        ensures
            r matches Some(s) ==> self.sas_view() == Some(s@),
            r is None <==> self.sas_view() is None,
    {
        match &self.sas {
            Some(s) => Some(s.as_str()),
            None => None,
        }
    }
}

/// The server side of a pairing.
pub struct ServerPairingSession {
    x25519_keypair: X25519KeyPair,
    pub ed25519_public_key: [u8; 32],
    client_x25519_public: Option<[u8; 32]>,
    psk: Option<PairingSymmetricKey>,
    sas: Option<String>,
}

impl ServerPairingSession {
    /// The session's X25519 secret.
    pub closed spec fn x25519_secret(&self) -> Seq<u8> {
        self.x25519_keypair.secret()
    }

    /// The server's long-term Ed25519 public key.
    pub closed spec fn ed25519_key(&self) -> Seq<u8> {
        self.ed25519_public_key@
    }

    /// The client's X25519 public key, once its response was applied.
    pub closed spec fn client_public(&self) -> Option<Seq<u8>> {
        match self.client_x25519_public {
            Some(k) => Some(k@),
            None => None,
        }
    }

    /// The pairing key, once derived.
    pub closed spec fn psk_view(&self) -> Option<Seq<u8>> {
        match &self.psk {
            Some(k) => Some(k@),
            None => None,
        }
    }

    /// The short authentication string, once derived.
    pub closed spec fn sas_view(&self) -> Option<Seq<char>> {
        match &self.sas {
            Some(s) => Some(s@),
            None => None,
        }
    }

    /// A fresh session with an ephemeral X25519 key pair.
    pub fn new(ed25519_public_key: [u8; 32]) -> (r: Result<Self, CryptoError>)
        ensures
            r matches Err(e) ==> e == CryptoError::RandomGenerationFailed,
            r matches Ok(s) ==> s.ed25519_key() == ed25519_public_key@ && s.client_public()
                is None && s.psk_view() is None && s.sas_view() is None,
    {
        let x25519_keypair = match X25519KeyPair::generate() {
            Ok(k) => k,
            Err(e) => {
                return Err(e);
            },
        };
        Ok(ServerPairingSession {
            x25519_keypair,
            ed25519_public_key,
            client_x25519_public: None,
            psk: None,
            sas: None,
        })
    }

    /// The session's X25519 public key.
    pub fn x25519_public_key(&self) -> (r: [u8; 32])
        ensures
            x25519_pair_valid(self.x25519_secret(), r@),
    {
        self.x25519_keypair.public_key_bytes()
    }

    /// The server's hello: its keys, its device name, and the algorithms it
    /// supports (AES-256-GCM, SHA-256, Ed25519).
    pub fn pairing_hello(&self, server_device_name: &str) -> (r: PairingHello)
        ensures
            r@ == (PairingHelloView {
                version: PAIRING_VERSION,
                x25519_public_key: x25519_public(self.x25519_secret()),
                ed25519_public_key: self.ed25519_key(),
                device_name: server_device_name@,
                supported_symmetric_algorithms: seq![SYMMETRIC_AES256_GCM],
                supported_hash_algorithms: seq![HASH_SHA256],
                supported_signature_algorithms: seq![SIGNATURE_ED25519],
            }),
    {
        let x = self.x25519_keypair.public_key_bytes();
        let r = PairingHello {
            version: PAIRING_VERSION,
            x25519_public_key: to_vec32(&x),
            ed25519_public_key: to_vec32(&self.ed25519_public_key),
            device_name: server_device_name.to_owned(),
            supported_symmetric_algorithms: vec![SYMMETRIC_AES256_GCM],
            supported_hash_algorithms: vec![HASH_SHA256],
            supported_signature_algorithms: vec![SIGNATURE_ED25519],
        };
        assert(r@.supported_symmetric_algorithms =~= seq![SYMMETRIC_AES256_GCM]);
        assert(r@.supported_hash_algorithms =~= seq![HASH_SHA256]);
        assert(r@.supported_signature_algorithms =~= seq![SIGNATURE_ED25519]);
        r
    }

    /// Decodes the client's response; its version must be
    /// [`PAIRING_VERSION`].
    pub fn receive_pairing_response(&self, buf: &[u8]) -> (r: Result<PairingResponse, ProtocolError>)
        ensures
            r is Ok <==> (spec_decode_pairing_response(buf@) matches Some(m) && m.version
                == PAIRING_VERSION),
            r matches Ok(m) ==> spec_decode_pairing_response(buf@) == Some(m@),
            r matches Err(e) ==> e == ProtocolError::Deserialization(DecodeError) || e
                == ProtocolError::InvalidMessageFormat,
    {
        let response = match PairingResponse::decode(buf) {
            Ok(m) => m,
            Err(e) => {
                return Err(ProtocolError::Deserialization(e));
            },
        };
        if response.version != PAIRING_VERSION {
            return Err(ProtocolError::InvalidMessageFormat);
        }
        Ok(response)
    }

    /// Applies the client's response: records its X25519 key, derives the
    /// pairing key and the SAS, and returns the SAS. The client's X25519
    /// key must be 32 bytes.
    pub fn apply_pairing_response(&mut self, response: &PairingResponse) -> (r: Result<String, ProtocolError>)
        ensures
            r is Ok <==> response@.x25519_public_key.len() == 32,
            r matches Err(e) ==> e == ProtocolError::InvalidMessageFormat && *final(self) == *old(self),
            r matches Ok(sas) ==> {
                let psk = spec_pairing_psk(old(self).x25519_secret(), response@.x25519_public_key);
                &&& final(self).x25519_secret() == old(self).x25519_secret()
                &&& final(self).ed25519_key() == old(self).ed25519_key()
                &&& final(self).client_public() == Some(response@.x25519_public_key)
                &&& final(self).psk_view() == Some(psk)
                &&& sas@ == spec_sas(psk, response@.x25519_public_key, x25519_public(old(self).x25519_secret()))
                &&& final(self).sas_view() == Some(sas@)
            },
    {
        let client_x25519_pub = match key_field(response.x25519_public_key.as_slice()) {
            Ok(k) => k,
            Err(e) => {
                return Err(e);
            },
        };
        let shared_secret = match self.x25519_keypair.diffie_hellman(&client_x25519_pub) {
            Ok(s) => s,
            Err(e) => {
                return Err(ProtocolError::Crypto(e));
            },
        };
        let psk = match derive_psk_from_x25519(&shared_secret) {
            Ok(k) => k,
            Err(e) => {
                return Err(ProtocolError::Crypto(e));
            },
        };
        let server_x25519_pub = self.x25519_keypair.public_key_bytes();
        let sas = match derive_sas(&psk, &client_x25519_pub, &server_x25519_pub) {
            Ok(s) => s,
            Err(e) => {
                return Err(ProtocolError::Crypto(e));
            },
        };
        self.client_x25519_public = Some(client_x25519_pub);
        self.psk = Some(psk);
        let out = sas.clone();
        self.sas = Some(sas);
        Ok(out)
    }

    /// The client's Ed25519 public key from its response; must be 32 bytes.
    pub fn client_ed25519_public_key(&self, response: &PairingResponse) -> (r: Result<[u8; 32], ProtocolError>)
        ensures
            r is Ok <==> response@.ed25519_public_key.len() == 32,
            r matches Ok(k) ==> k@ == response@.ed25519_public_key,
            r matches Err(e) ==> e == ProtocolError::InvalidMessageFormat,
    {
        key_field(response.ed25519_public_key.as_slice())
    }

    /// Opens the client's key message: decodes it, decrypts the key under
    /// the pairing key (it must be 32 bytes), and returns the key with its
    /// SHA-256.
    pub fn receive_csk_message(&self, buf: &[u8]) -> (r: Result<(ClientSymmetricKey, [u8; 32]), ProtocolError>)
        ensures
            r is Ok <==> spec_received_csk(buf@, self.psk_view()) is Some,
            r matches Ok((csk, hash)) ==> spec_received_csk(buf@, self.psk_view()) == Some(csk@)
                && hash@ == sha256(csk@),
            r matches Err(e) ==> e == ProtocolError::Deserialization(DecodeError) || e
                == ProtocolError::InvalidMessageFormat || e == ProtocolError::MissingField("psk")
                || e == ProtocolError::Crypto(CryptoError::DecryptionFailed),
    {
        let encrypted_msg = match PairingCskMessage::decode(buf) {
            Ok(m) => m,
            Err(e) => {
                return Err(ProtocolError::Deserialization(e));
            },
        };
        let psk = match &self.psk {
            Some(k) => k,
            None => {
                return Err(ProtocolError::MissingField("psk"));
            },
        };
        let plaintext = match decrypt_with_psk(psk, encrypted_msg.encrypted_csk.as_slice()) {
            Ok(p) => p,
            Err(e) => {
                return Err(ProtocolError::Crypto(e));
            },
        };
        if plaintext.len() != 32 {
            return Err(ProtocolError::InvalidMessageFormat);
        }
        let csk_bytes = take32(plaintext.as_slice());
        assert(plaintext@.take(32) =~= plaintext@);
        let csk_hash = sha256_digest(csk_bytes.as_slice());
        Ok((ClientSymmetricKey::from_bytes(csk_bytes), csk_hash))
    }

    /// The acknowledgement: success, SHA-256, and the key's hash encrypted
    /// under the pairing key.
    pub fn pairing_complete(&self, csk_hash: &[u8; 32]) -> (r: Result<PairingComplete, ProtocolError>)
        ensures
            self.psk_view() is None ==> r == Err::<PairingComplete, ProtocolError>(
                ProtocolError::MissingField("psk"),
            ),
            r matches Err(e) ==> e == ProtocolError::MissingField("psk") || e
                == ProtocolError::Crypto(CryptoError::RandomGenerationFailed),
            r matches Ok(c) ==> c.success && c.hash_algorithm == HASH_SHA256 && self.psk_view() is Some
                && spec_open_prefixed(self.psk_view()->0, c.csk_hash@) == Some(csk_hash@),
    {
        let psk = match &self.psk {
            Some(k) => k,
            None => {
                return Err(ProtocolError::MissingField("psk"));
            },
        };
        let encrypted_hash = match encrypt_with_psk(psk, csk_hash.as_slice()) {
            Ok(c) => c,
            Err(e) => {
                return Err(ProtocolError::Crypto(e));
            },
        };
        Ok(PairingComplete { success: true, hash_algorithm: HASH_SHA256, csk_hash: encrypted_hash })
    }

    /// The short authentication string, once derived.
    pub fn sas(&self) -> (r: Option<&str>)
        ensures
            r matches Some(s) ==> self.sas_view() == Some(s@),
            r is None <==> self.sas_view() is None,
    {
        match &self.sas {
            Some(s) => Some(s.as_str()),
            None => None,
        }
    }
}

} // verus!
