//! The messages of the authentication and pairing protocol and their wire
//! encoding.
//!
//! Each message has an exact specification of its encoding (the records of
//! its non-default fields, in field order) and of its decoding (the last
//! record of each field wins, an absent field takes its default, a field of
//! the wrong wire type or a string that is not UTF-8 is an error); decoding
//! the encoding of a message gives the message back.
pub mod wrapper_message;
pub mod groups;

use crate::fields::{
    field_packed_i32, lemma_opt_packed_other, lemma_opt_packed_wf, lemma_read_packed,
    opt_packed_rec, push_packed_field, spec_field_packed_i32, spec_packed_bytes,
    field_bool, field_bytes, field_i32, field_string, field_u32, field_varint, lemma_no_field_concat,
    lemma_opt_bytes_other, lemma_opt_bytes_wf, lemma_opt_varint_other, lemma_opt_varint_wf,
    lemma_read_bytes, lemma_read_i32, i32_wire, lemma_read_string, lemma_read_varint, opt_bytes_rec,
    opt_i32_rec, opt_string_rec, opt_varint_rec, push_bytes_field, push_i32_field,
    push_string_field, push_varint_field, spec_field_bool, spec_field_bytes, spec_field_i32,
    spec_field_string, spec_field_u32, spec_field_varint,
};
use crate::wire::{
    encode_records, lemma_parse_records_roundtrip, lemma_records_wf_concat, parse_records,
    records_view, spec_parse_records, spec_records_bytes, Record, SpecRecord,
};
use vstd::prelude::*;
use vstd::utf8::encode_utf8;

verus! {

/// Bytes that are not the encoding of the expected message.
#[derive(Debug, Clone, Copy, PartialEq, Eq)]
pub struct DecodeError;

/// Signature algorithms of the protocol.
#[derive(Debug, Clone, Copy, PartialEq, Eq)]
pub enum SignatureAlgorithm {
    Unspecified,
    Ed25519,
}

/// Symmetric ciphers of the protocol.
#[derive(Debug, Clone, Copy, PartialEq, Eq)]
pub enum SymmetricAlgorithm {
    Unspecified,
    Aes256Gcm,
}

/// Hash functions of the protocol.
#[derive(Debug, Clone, Copy, PartialEq, Eq)]
pub enum HashAlgorithm {
    Unspecified,
    Sha256,
}

/// Wire number of Ed25519.
pub const SIGNATURE_ED25519: i32 = 1;

/// Wire number of AES-256-GCM.
pub const SYMMETRIC_AES256_GCM: i32 = 1;

/// Wire number of SHA-256.
pub const HASH_SHA256: i32 = 1;

impl SignatureAlgorithm {
    /// The wire number of the algorithm.
    pub fn as_i32(self) -> (r: i32)
        ensures
            r == (match self {
                SignatureAlgorithm::Unspecified => 0i32,
                SignatureAlgorithm::Ed25519 => SIGNATURE_ED25519,
            }),
    {
        match self {
            SignatureAlgorithm::Unspecified => 0,
            SignatureAlgorithm::Ed25519 => SIGNATURE_ED25519,
        }
    }
}

impl SymmetricAlgorithm {
    /// The wire number of the algorithm.
    pub fn as_i32(self) -> (r: i32)
        ensures
            r == (match self {
                SymmetricAlgorithm::Unspecified => 0i32,
                SymmetricAlgorithm::Aes256Gcm => SYMMETRIC_AES256_GCM,
            }),
    {
        match self {
            SymmetricAlgorithm::Unspecified => 0,
            SymmetricAlgorithm::Aes256Gcm => SYMMETRIC_AES256_GCM,
        }
    }
}

impl HashAlgorithm {
    /// The wire number of the algorithm.
    pub fn as_i32(self) -> (r: i32)
        ensures
            r == (match self {
                HashAlgorithm::Unspecified => 0i32,
                HashAlgorithm::Sha256 => HASH_SHA256,
            }),
    {
        match self {
            HashAlgorithm::Unspecified => 0,
            HashAlgorithm::Sha256 => HASH_SHA256,
        }
    }
}

/// Outer envelope: a temporal identifier and an AEAD ciphertext.
#[derive(Clone, Debug, PartialEq, Eq)]
pub struct EncryptedPacket {
    pub temporal_identifier: Vec<u8>,
    pub encryption_algorithm: i32,
    pub ciphertext: Vec<u8>,
}

/// The value of a [`EncryptedPacket`].
pub struct EncryptedPacketView {
    pub temporal_identifier: Seq<u8>,
    pub encryption_algorithm: i32,
    pub ciphertext: Seq<u8>,
}

impl View for EncryptedPacket {
    type V = EncryptedPacketView;

    open spec fn view(&self) -> EncryptedPacketView {
        EncryptedPacketView {
            temporal_identifier: self.temporal_identifier@,
            encryption_algorithm: self.encryption_algorithm,
            ciphertext: self.ciphertext@,
        }
    }
}

/// The records of a [`EncryptedPacket`]: one per field that is not at its default.
pub open spec fn encrypted_packet_records(m: EncryptedPacketView) -> Seq<SpecRecord> {
    opt_bytes_rec(1, m.temporal_identifier)
        + opt_i32_rec(2, m.encryption_algorithm)
        + opt_bytes_rec(3, m.ciphertext)
}

/// Reads a [`EncryptedPacket`] from its records; `None` on a field of the wrong type
/// or a string that is not UTF-8.
pub open spec fn encrypted_packet_from_records(rs: Seq<SpecRecord>) -> Option<EncryptedPacketView> {
    match spec_field_bytes(rs, 1) {
        Some(temporal_identifier) => match spec_field_i32(rs, 2) {
        Some(encryption_algorithm) => match spec_field_bytes(rs, 3) {
        Some(ciphertext) => Some(EncryptedPacketView { temporal_identifier, encryption_algorithm, ciphertext }),
        None => None,
    },
        None => None,
    },
        None => None,
    }
}

/// The encoding of a [`EncryptedPacket`].
pub open spec fn spec_encode_encrypted_packet(m: EncryptedPacketView) -> Seq<u8> {
    spec_records_bytes(encrypted_packet_records(m))
}

/// The [`EncryptedPacket`] that `s` encodes, if any.
pub open spec fn spec_decode_encrypted_packet(s: Seq<u8>) -> Option<EncryptedPacketView> {
    match spec_parse_records(s) {
        Some(rs) => encrypted_packet_from_records(rs),
        None => None,
    }
}

/// Every byte string of the message has a length that fits the format.
pub open spec fn encrypted_packet_wf(m: EncryptedPacketView) -> bool {
    &&& m.temporal_identifier.len() <= u64::MAX
    &&& m.ciphertext.len() <= u64::MAX
}

impl EncryptedPacket {
    /// The encoding of the message.
    pub fn encode_to_vec(&self) -> (r: Vec<u8>)
        ensures
            r@ == spec_encode_encrypted_packet(self@),
    {
        let mut rs: Vec<Record> = Vec::new();
        push_bytes_field(&mut rs, 1, self.temporal_identifier.as_slice());
        push_i32_field(&mut rs, 2, self.encryption_algorithm);
        push_bytes_field(&mut rs, 3, self.ciphertext.as_slice());
        assert(records_view(rs@) =~= encrypted_packet_records(self@));
        encode_records(&rs)
    }

    /// Decodes a message; `Err` exactly when `spec_decode_encrypted_packet` rejects the bytes.
    pub fn decode(buf: &[u8]) -> (r: Result<EncryptedPacket, DecodeError>)
        ensures
            r is Ok <==> spec_decode_encrypted_packet(buf@) is Some,
            r matches Ok(m) ==> spec_decode_encrypted_packet(buf@) == Some(m@),
    {
        let rs = match parse_records(buf) {
            Some(rs) => rs,
            None => {
                return Err(DecodeError);
            },
        };
        let temporal_identifier = match field_bytes(&rs, 1) {
            Some(x) => x,
            None => {
                return Err(DecodeError);
            },
        };
        let encryption_algorithm = match field_i32(&rs, 2) {
            Some(x) => x,
            None => {
                return Err(DecodeError);
            },
        };
        let ciphertext = match field_bytes(&rs, 3) {
            Some(x) => x,
            None => {
                return Err(DecodeError);
            },
        };
        Ok(EncryptedPacket { temporal_identifier, encryption_algorithm, ciphertext })
    }
}

/// Decoding the encoding of a message gives the message back.
pub proof fn lemma_encrypted_packet_roundtrip(m: EncryptedPacketView)
    requires
        encrypted_packet_wf(m),
    ensures
        spec_decode_encrypted_packet(spec_encode_encrypted_packet(m)) == Some(m),
{
    let rs = encrypted_packet_records(m);
    let o0 = opt_bytes_rec(1, m.temporal_identifier);
    let o1 = opt_i32_rec(2, m.encryption_algorithm);
    let o2 = opt_bytes_rec(3, m.ciphertext);
    let e = Seq::<SpecRecord>::empty();
    assert(spec_field_bytes(rs, 1) == Some(m.temporal_identifier)) by {
        assert(rs =~= (e) + o0 + (e + o1 + o2));
        lemma_opt_varint_other(2, i32_wire(m.encryption_algorithm), 1);
        lemma_no_field_concat(e, o1, 1);
        lemma_opt_bytes_other(3, m.ciphertext, 1);
        lemma_no_field_concat(e + o1, o2, 1);
        lemma_read_bytes(rs, (e), (e + o1 + o2), 1, m.temporal_identifier);
    }
    assert(spec_field_i32(rs, 2) == Some(m.encryption_algorithm)) by {
        assert(rs =~= (e + o0) + o1 + (e + o2));
        lemma_opt_bytes_other(1, m.temporal_identifier, 2);
        lemma_no_field_concat(e, o0, 2);
        lemma_opt_bytes_other(3, m.ciphertext, 2);
        lemma_no_field_concat(e, o2, 2);
        lemma_read_i32(rs, (e + o0), (e + o2), 2, m.encryption_algorithm);
    }
    assert(spec_field_bytes(rs, 3) == Some(m.ciphertext)) by {
        assert(rs =~= (e + o0 + o1) + o2 + (e));
        lemma_opt_bytes_other(1, m.temporal_identifier, 3);
        lemma_no_field_concat(e, o0, 3);
        lemma_opt_varint_other(2, i32_wire(m.encryption_algorithm), 3);
        lemma_no_field_concat(e + o0, o1, 3);
        lemma_read_bytes(rs, (e + o0 + o1), (e), 3, m.ciphertext);
    }
    assert(spec_parse_records(spec_records_bytes(rs)) == Some(rs)) by {
        lemma_opt_bytes_wf(1, m.temporal_identifier);
        lemma_records_wf_concat(e, o0);
        lemma_opt_varint_wf(2, i32_wire(m.encryption_algorithm));
        lemma_records_wf_concat(e + o0, o1);
        lemma_opt_bytes_wf(3, m.ciphertext);
        lemma_records_wf_concat(e + o0 + o1, o2);
        assert(rs =~= e + o0 + o1 + o2);
        lemma_parse_records_roundtrip(rs);
    }
}

/// A request to authenticate `username` on `hostname`, carrying a fresh challenge.
#[derive(Clone, Debug, PartialEq, Eq)]
pub struct AuthenticationRequest {
    pub challenge: Vec<u8>,
    pub username: String,
    pub hostname: String,
    pub timestamp_unix_seconds: u64,
}

/// The value of a [`AuthenticationRequest`].
pub struct AuthenticationRequestView {
    pub challenge: Seq<u8>,
    pub username: Seq<char>,
    pub hostname: Seq<char>,
    pub timestamp_unix_seconds: u64,
}

impl View for AuthenticationRequest {
    type V = AuthenticationRequestView;

    open spec fn view(&self) -> AuthenticationRequestView {
        AuthenticationRequestView {
            challenge: self.challenge@,
            username: self.username@,
            hostname: self.hostname@,
            timestamp_unix_seconds: self.timestamp_unix_seconds,
        }
    }
}

/// The records of a [`AuthenticationRequest`]: one per field that is not at its default.
pub open spec fn auth_request_records(m: AuthenticationRequestView) -> Seq<SpecRecord> {
    opt_bytes_rec(1, m.challenge)
        + opt_string_rec(2, m.username)
        + opt_string_rec(3, m.hostname)
        + opt_varint_rec(4, m.timestamp_unix_seconds)
}

/// Reads a [`AuthenticationRequest`] from its records; `None` on a field of the wrong type
/// or a string that is not UTF-8.
pub open spec fn auth_request_from_records(rs: Seq<SpecRecord>) -> Option<AuthenticationRequestView> {
    match spec_field_bytes(rs, 1) {
        Some(challenge) => match spec_field_string(rs, 2) {
        Some(username) => match spec_field_string(rs, 3) {
        Some(hostname) => match spec_field_varint(rs, 4) {
        Some(timestamp_unix_seconds) => Some(AuthenticationRequestView { challenge, username, hostname, timestamp_unix_seconds }),
        None => None,
    },
        None => None,
    },
        None => None,
    },
        None => None,
    }
}

/// The encoding of a [`AuthenticationRequest`].
pub open spec fn spec_encode_auth_request(m: AuthenticationRequestView) -> Seq<u8> {
    spec_records_bytes(auth_request_records(m))
}

/// The [`AuthenticationRequest`] that `s` encodes, if any.
pub open spec fn spec_decode_auth_request(s: Seq<u8>) -> Option<AuthenticationRequestView> {
    match spec_parse_records(s) {
        Some(rs) => auth_request_from_records(rs),
        None => None,
    }
}

/// Every byte string of the message has a length that fits the format.
pub open spec fn auth_request_wf(m: AuthenticationRequestView) -> bool {
    &&& m.challenge.len() <= u64::MAX
    &&& encode_utf8(m.username).len() <= u64::MAX
    &&& encode_utf8(m.hostname).len() <= u64::MAX
}

impl AuthenticationRequest {
    /// The encoding of the message.
    pub fn encode_to_vec(&self) -> (r: Vec<u8>)
        ensures
            r@ == spec_encode_auth_request(self@),
    {
        let mut rs: Vec<Record> = Vec::new();
        push_bytes_field(&mut rs, 1, self.challenge.as_slice());
        push_string_field(&mut rs, 2, self.username.as_str());
        push_string_field(&mut rs, 3, self.hostname.as_str());
        push_varint_field(&mut rs, 4, self.timestamp_unix_seconds);
        assert(records_view(rs@) =~= auth_request_records(self@));
        encode_records(&rs)
    }

    /// Decodes a message; `Err` exactly when `spec_decode_auth_request` rejects the bytes.
    pub fn decode(buf: &[u8]) -> (r: Result<AuthenticationRequest, DecodeError>)
        ensures
            r is Ok <==> spec_decode_auth_request(buf@) is Some,
            r matches Ok(m) ==> spec_decode_auth_request(buf@) == Some(m@),
    {
        let rs = match parse_records(buf) {
            Some(rs) => rs,
            None => {
                return Err(DecodeError);
            },
        };
        let challenge = match field_bytes(&rs, 1) {
            Some(x) => x,
            None => {
                return Err(DecodeError);
            },
        };
        let username = match field_string(&rs, 2) {
            Some(x) => x,
            None => {
                return Err(DecodeError);
            },
        };
        let hostname = match field_string(&rs, 3) {
            Some(x) => x,
            None => {
                return Err(DecodeError);
            },
        };
        let timestamp_unix_seconds = match field_varint(&rs, 4) {
            Some(x) => x,
            None => {
                return Err(DecodeError);
            },
        };
        Ok(AuthenticationRequest { challenge, username, hostname, timestamp_unix_seconds })
    }
}

/// Decoding the encoding of a message gives the message back.
pub proof fn lemma_auth_request_roundtrip(m: AuthenticationRequestView)
    requires
        auth_request_wf(m),
    ensures
        spec_decode_auth_request(spec_encode_auth_request(m)) == Some(m),
{
    let rs = auth_request_records(m);
    let o0 = opt_bytes_rec(1, m.challenge);
    let o1 = opt_string_rec(2, m.username);
    let o2 = opt_string_rec(3, m.hostname);
    let o3 = opt_varint_rec(4, m.timestamp_unix_seconds);
    let e = Seq::<SpecRecord>::empty();
    assert(spec_field_bytes(rs, 1) == Some(m.challenge)) by {
        assert(rs =~= (e) + o0 + (e + o1 + o2 + o3));
        lemma_opt_bytes_other(2, encode_utf8(m.username), 1);
        lemma_no_field_concat(e, o1, 1);
        lemma_opt_bytes_other(3, encode_utf8(m.hostname), 1);
        lemma_no_field_concat(e + o1, o2, 1);
        lemma_opt_varint_other(4, m.timestamp_unix_seconds, 1);
        lemma_no_field_concat(e + o1 + o2, o3, 1);
        lemma_read_bytes(rs, (e), (e + o1 + o2 + o3), 1, m.challenge);
    }
    assert(spec_field_string(rs, 2) == Some(m.username)) by {
        assert(rs =~= (e + o0) + o1 + (e + o2 + o3));
        lemma_opt_bytes_other(1, m.challenge, 2);
        lemma_no_field_concat(e, o0, 2);
        lemma_opt_bytes_other(3, encode_utf8(m.hostname), 2);
        lemma_no_field_concat(e, o2, 2);
        lemma_opt_varint_other(4, m.timestamp_unix_seconds, 2);
        lemma_no_field_concat(e + o2, o3, 2);
        lemma_read_string(rs, (e + o0), (e + o2 + o3), 2, m.username);
    }
    assert(spec_field_string(rs, 3) == Some(m.hostname)) by {
        assert(rs =~= (e + o0 + o1) + o2 + (e + o3));
        lemma_opt_bytes_other(1, m.challenge, 3);
        lemma_no_field_concat(e, o0, 3);
        lemma_opt_bytes_other(2, encode_utf8(m.username), 3);
        lemma_no_field_concat(e + o0, o1, 3);
        lemma_opt_varint_other(4, m.timestamp_unix_seconds, 3);
        lemma_no_field_concat(e, o3, 3);
        lemma_read_string(rs, (e + o0 + o1), (e + o3), 3, m.hostname);
    }
    assert(spec_field_varint(rs, 4) == Some(m.timestamp_unix_seconds)) by {
        assert(rs =~= (e + o0 + o1 + o2) + o3 + (e));
        lemma_opt_bytes_other(1, m.challenge, 4);
        lemma_no_field_concat(e, o0, 4);
        lemma_opt_bytes_other(2, encode_utf8(m.username), 4);
        lemma_no_field_concat(e + o0, o1, 4);
        lemma_opt_bytes_other(3, encode_utf8(m.hostname), 4);
        lemma_no_field_concat(e + o0 + o1, o2, 4);
        lemma_read_varint(rs, (e + o0 + o1 + o2), (e), 4, m.timestamp_unix_seconds);
    }
    assert(spec_parse_records(spec_records_bytes(rs)) == Some(rs)) by {
        lemma_opt_bytes_wf(1, m.challenge);
        lemma_records_wf_concat(e, o0);
        lemma_opt_bytes_wf(2, encode_utf8(m.username));
        lemma_records_wf_concat(e + o0, o1);
        lemma_opt_bytes_wf(3, encode_utf8(m.hostname));
        lemma_records_wf_concat(e + o0 + o1, o2);
        lemma_opt_varint_wf(4, m.timestamp_unix_seconds);
        lemma_records_wf_concat(e + o0 + o1 + o2, o3);
        assert(rs =~= e + o0 + o1 + o2 + o3);
        lemma_parse_records_roundtrip(rs);
    }
}

/// A grant: the server's signature over the challenge.
#[derive(Clone, Debug, PartialEq, Eq)]
pub struct AuthenticationGrant {
    pub signed_challenge: Vec<u8>,
}

/// The value of a [`AuthenticationGrant`].
pub struct AuthenticationGrantView {
    pub signed_challenge: Seq<u8>,
}

impl View for AuthenticationGrant {
    type V = AuthenticationGrantView;

    open spec fn view(&self) -> AuthenticationGrantView {
        AuthenticationGrantView {
            signed_challenge: self.signed_challenge@,
        }
    }
}

/// The records of a [`AuthenticationGrant`]: one per field that is not at its default.
pub open spec fn auth_grant_records(m: AuthenticationGrantView) -> Seq<SpecRecord> {
    opt_bytes_rec(1, m.signed_challenge)
}

/// Reads a [`AuthenticationGrant`] from its records; `None` on a field of the wrong type
/// or a string that is not UTF-8.
pub open spec fn auth_grant_from_records(rs: Seq<SpecRecord>) -> Option<AuthenticationGrantView> {
    match spec_field_bytes(rs, 1) {
        Some(signed_challenge) => Some(AuthenticationGrantView { signed_challenge }),
        None => None,
    }
}

/// The encoding of a [`AuthenticationGrant`].
pub open spec fn spec_encode_auth_grant(m: AuthenticationGrantView) -> Seq<u8> {
    spec_records_bytes(auth_grant_records(m))
}

/// The [`AuthenticationGrant`] that `s` encodes, if any.
pub open spec fn spec_decode_auth_grant(s: Seq<u8>) -> Option<AuthenticationGrantView> {
    match spec_parse_records(s) {
        Some(rs) => auth_grant_from_records(rs),
        None => None,
    }
}

/// Every byte string of the message has a length that fits the format.
pub open spec fn auth_grant_wf(m: AuthenticationGrantView) -> bool {
    &&& m.signed_challenge.len() <= u64::MAX
}

impl AuthenticationGrant {
    /// The encoding of the message.
    pub fn encode_to_vec(&self) -> (r: Vec<u8>)
        ensures
            r@ == spec_encode_auth_grant(self@),
    {
        let mut rs: Vec<Record> = Vec::new();
        push_bytes_field(&mut rs, 1, self.signed_challenge.as_slice());
        assert(records_view(rs@) =~= auth_grant_records(self@));
        encode_records(&rs)
    }

    /// Decodes a message; `Err` exactly when `spec_decode_auth_grant` rejects the bytes.
    pub fn decode(buf: &[u8]) -> (r: Result<AuthenticationGrant, DecodeError>)
        ensures
            r is Ok <==> spec_decode_auth_grant(buf@) is Some,
            r matches Ok(m) ==> spec_decode_auth_grant(buf@) == Some(m@),
    {
        let rs = match parse_records(buf) {
            Some(rs) => rs,
            None => {
                return Err(DecodeError);
            },
        };
        let signed_challenge = match field_bytes(&rs, 1) {
            Some(x) => x,
            None => {
                return Err(DecodeError);
            },
        };
        Ok(AuthenticationGrant { signed_challenge })
    }
}

/// Decoding the encoding of a message gives the message back.
pub proof fn lemma_auth_grant_roundtrip(m: AuthenticationGrantView)
    requires
        auth_grant_wf(m),
    ensures
        spec_decode_auth_grant(spec_encode_auth_grant(m)) == Some(m),
{
    let rs = auth_grant_records(m);
    let o0 = opt_bytes_rec(1, m.signed_challenge);
    let e = Seq::<SpecRecord>::empty();
    assert(spec_field_bytes(rs, 1) == Some(m.signed_challenge)) by {
        assert(rs =~= (e) + o0 + (e));
        lemma_read_bytes(rs, (e), (e), 1, m.signed_challenge);
    }
    assert(spec_parse_records(spec_records_bytes(rs)) == Some(rs)) by {
        lemma_opt_bytes_wf(1, m.signed_challenge);
        lemma_records_wf_concat(e, o0);
        assert(rs =~= e + o0);
        lemma_parse_records_roundtrip(rs);
    }
}

/// An explicit denial of the request with this challenge.
#[derive(Clone, Debug, PartialEq, Eq)]
pub struct AuthenticationDenial {
    pub challenge: Vec<u8>,
}

/// The value of a [`AuthenticationDenial`].
pub struct AuthenticationDenialView {
    pub challenge: Seq<u8>,
}

impl View for AuthenticationDenial {
    type V = AuthenticationDenialView;

    open spec fn view(&self) -> AuthenticationDenialView {
        AuthenticationDenialView {
            challenge: self.challenge@,
        }
    }
}

/// The records of a [`AuthenticationDenial`]: one per field that is not at its default.
pub open spec fn auth_denial_records(m: AuthenticationDenialView) -> Seq<SpecRecord> {
    opt_bytes_rec(1, m.challenge)
}

/// Reads a [`AuthenticationDenial`] from its records; `None` on a field of the wrong type
/// or a string that is not UTF-8.
pub open spec fn auth_denial_from_records(rs: Seq<SpecRecord>) -> Option<AuthenticationDenialView> {
    match spec_field_bytes(rs, 1) {
        Some(challenge) => Some(AuthenticationDenialView { challenge }),
        None => None,
    }
}

/// The encoding of a [`AuthenticationDenial`].
pub open spec fn spec_encode_auth_denial(m: AuthenticationDenialView) -> Seq<u8> {
    spec_records_bytes(auth_denial_records(m))
}

/// The [`AuthenticationDenial`] that `s` encodes, if any.
pub open spec fn spec_decode_auth_denial(s: Seq<u8>) -> Option<AuthenticationDenialView> {
    match spec_parse_records(s) {
        Some(rs) => auth_denial_from_records(rs),
        None => None,
    }
}

/// Every byte string of the message has a length that fits the format.
pub open spec fn auth_denial_wf(m: AuthenticationDenialView) -> bool {
    &&& m.challenge.len() <= u64::MAX
}

impl AuthenticationDenial {
    /// The encoding of the message.
    pub fn encode_to_vec(&self) -> (r: Vec<u8>)
        ensures
            r@ == spec_encode_auth_denial(self@),
    {
        let mut rs: Vec<Record> = Vec::new();
        push_bytes_field(&mut rs, 1, self.challenge.as_slice());
        assert(records_view(rs@) =~= auth_denial_records(self@));
        encode_records(&rs)
    }

    /// Decodes a message; `Err` exactly when `spec_decode_auth_denial` rejects the bytes.
    pub fn decode(buf: &[u8]) -> (r: Result<AuthenticationDenial, DecodeError>)
        ensures
            r is Ok <==> spec_decode_auth_denial(buf@) is Some,
            r matches Ok(m) ==> spec_decode_auth_denial(buf@) == Some(m@),
    {
        let rs = match parse_records(buf) {
            Some(rs) => rs,
            None => {
                return Err(DecodeError);
            },
        };
        let challenge = match field_bytes(&rs, 1) {
            Some(x) => x,
            None => {
                return Err(DecodeError);
            },
        };
        Ok(AuthenticationDenial { challenge })
    }
}

/// Decoding the encoding of a message gives the message back.
pub proof fn lemma_auth_denial_roundtrip(m: AuthenticationDenialView)
    requires
        auth_denial_wf(m),
    ensures
        spec_decode_auth_denial(spec_encode_auth_denial(m)) == Some(m),
{
    let rs = auth_denial_records(m);
    let o0 = opt_bytes_rec(1, m.challenge);
    let e = Seq::<SpecRecord>::empty();
    assert(spec_field_bytes(rs, 1) == Some(m.challenge)) by {
        assert(rs =~= (e) + o0 + (e));
        lemma_read_bytes(rs, (e), (e), 1, m.challenge);
    }
    assert(spec_parse_records(spec_records_bytes(rs)) == Some(rs)) by {
        lemma_opt_bytes_wf(1, m.challenge);
        lemma_records_wf_concat(e, o0);
        assert(rs =~= e + o0);
        lemma_parse_records_roundtrip(rs);
    }
}

/// The client's acknowledgement of a grant or denial.
#[derive(Clone, Debug, PartialEq, Eq)]
pub struct GrantConfirmation {
    pub challenge: Vec<u8>,
}

/// The value of a [`GrantConfirmation`].
pub struct GrantConfirmationView {
    pub challenge: Seq<u8>,
}

impl View for GrantConfirmation {
    type V = GrantConfirmationView;

    open spec fn view(&self) -> GrantConfirmationView {
        GrantConfirmationView {
            challenge: self.challenge@,
        }
    }
}

/// The records of a [`GrantConfirmation`]: one per field that is not at its default.
pub open spec fn grant_confirmation_records(m: GrantConfirmationView) -> Seq<SpecRecord> {
    opt_bytes_rec(1, m.challenge)
}

/// Reads a [`GrantConfirmation`] from its records; `None` on a field of the wrong type
/// or a string that is not UTF-8.
pub open spec fn grant_confirmation_from_records(rs: Seq<SpecRecord>) -> Option<GrantConfirmationView> {
    match spec_field_bytes(rs, 1) {
        Some(challenge) => Some(GrantConfirmationView { challenge }),
        None => None,
    }
}

/// The encoding of a [`GrantConfirmation`].
pub open spec fn spec_encode_grant_confirmation(m: GrantConfirmationView) -> Seq<u8> {
    spec_records_bytes(grant_confirmation_records(m))
}

/// The [`GrantConfirmation`] that `s` encodes, if any.
pub open spec fn spec_decode_grant_confirmation(s: Seq<u8>) -> Option<GrantConfirmationView> {
    match spec_parse_records(s) {
        Some(rs) => grant_confirmation_from_records(rs),
        None => None,
    }
}

/// Every byte string of the message has a length that fits the format.
pub open spec fn grant_confirmation_wf(m: GrantConfirmationView) -> bool {
    &&& m.challenge.len() <= u64::MAX
}

impl GrantConfirmation {
    /// The encoding of the message.
    pub fn encode_to_vec(&self) -> (r: Vec<u8>)
        ensures
            r@ == spec_encode_grant_confirmation(self@),
    {
        let mut rs: Vec<Record> = Vec::new();
        push_bytes_field(&mut rs, 1, self.challenge.as_slice());
        assert(records_view(rs@) =~= grant_confirmation_records(self@));
        encode_records(&rs)
    }

    /// Decodes a message; `Err` exactly when `spec_decode_grant_confirmation` rejects the bytes.
    pub fn decode(buf: &[u8]) -> (r: Result<GrantConfirmation, DecodeError>)
        ensures
            r is Ok <==> spec_decode_grant_confirmation(buf@) is Some,
            r matches Ok(m) ==> spec_decode_grant_confirmation(buf@) == Some(m@),
    {
        let rs = match parse_records(buf) {
            Some(rs) => rs,
            None => {
                return Err(DecodeError);
            },
        };
        let challenge = match field_bytes(&rs, 1) {
            Some(x) => x,
            None => {
                return Err(DecodeError);
            },
        };
        Ok(GrantConfirmation { challenge })
    }
}

/// Decoding the encoding of a message gives the message back.
pub proof fn lemma_grant_confirmation_roundtrip(m: GrantConfirmationView)
    requires
        grant_confirmation_wf(m),
    ensures
        spec_decode_grant_confirmation(spec_encode_grant_confirmation(m)) == Some(m),
{
    let rs = grant_confirmation_records(m);
    let o0 = opt_bytes_rec(1, m.challenge);
    let e = Seq::<SpecRecord>::empty();
    assert(spec_field_bytes(rs, 1) == Some(m.challenge)) by {
        assert(rs =~= (e) + o0 + (e));
        lemma_read_bytes(rs, (e), (e), 1, m.challenge);
    }
    assert(spec_parse_records(spec_records_bytes(rs)) == Some(rs)) by {
        lemma_opt_bytes_wf(1, m.challenge);
        lemma_records_wf_concat(e, o0);
        assert(rs =~= e + o0);
        lemma_parse_records_roundtrip(rs);
    }
}

/// Withdraws the request with this challenge.
#[derive(Clone, Debug, PartialEq, Eq)]
pub struct AuthenticationCancel {
    pub challenge: Vec<u8>,
}

/// The value of a [`AuthenticationCancel`].
pub struct AuthenticationCancelView {
    pub challenge: Seq<u8>,
}

impl View for AuthenticationCancel {
    type V = AuthenticationCancelView;

    open spec fn view(&self) -> AuthenticationCancelView {
        AuthenticationCancelView {
            challenge: self.challenge@,
        }
    }
}

/// The records of a [`AuthenticationCancel`]: one per field that is not at its default.
pub open spec fn auth_cancel_records(m: AuthenticationCancelView) -> Seq<SpecRecord> {
    opt_bytes_rec(1, m.challenge)
}

/// Reads a [`AuthenticationCancel`] from its records; `None` on a field of the wrong type
/// or a string that is not UTF-8.
pub open spec fn auth_cancel_from_records(rs: Seq<SpecRecord>) -> Option<AuthenticationCancelView> {
    match spec_field_bytes(rs, 1) {
        Some(challenge) => Some(AuthenticationCancelView { challenge }),
        None => None,
    }
}

/// The encoding of a [`AuthenticationCancel`].
pub open spec fn spec_encode_auth_cancel(m: AuthenticationCancelView) -> Seq<u8> {
    spec_records_bytes(auth_cancel_records(m))
}

/// The [`AuthenticationCancel`] that `s` encodes, if any.
pub open spec fn spec_decode_auth_cancel(s: Seq<u8>) -> Option<AuthenticationCancelView> {
    match spec_parse_records(s) {
        Some(rs) => auth_cancel_from_records(rs),
        None => None,
    }
}

/// Every byte string of the message has a length that fits the format.
pub open spec fn auth_cancel_wf(m: AuthenticationCancelView) -> bool {
    &&& m.challenge.len() <= u64::MAX
}

impl AuthenticationCancel {
    /// The encoding of the message.
    pub fn encode_to_vec(&self) -> (r: Vec<u8>)
        ensures
            r@ == spec_encode_auth_cancel(self@),
    {
        let mut rs: Vec<Record> = Vec::new();
        push_bytes_field(&mut rs, 1, self.challenge.as_slice());
        assert(records_view(rs@) =~= auth_cancel_records(self@));
        encode_records(&rs)
    }

    /// Decodes a message; `Err` exactly when `spec_decode_auth_cancel` rejects the bytes.
    pub fn decode(buf: &[u8]) -> (r: Result<AuthenticationCancel, DecodeError>)
        ensures
            r is Ok <==> spec_decode_auth_cancel(buf@) is Some,
            r matches Ok(m) ==> spec_decode_auth_cancel(buf@) == Some(m@),
    {
        let rs = match parse_records(buf) {
            Some(rs) => rs,
            None => {
                return Err(DecodeError);
            },
        };
        let challenge = match field_bytes(&rs, 1) {
            Some(x) => x,
            None => {
                return Err(DecodeError);
            },
        };
        Ok(AuthenticationCancel { challenge })
    }
}

/// Decoding the encoding of a message gives the message back.
pub proof fn lemma_auth_cancel_roundtrip(m: AuthenticationCancelView)
    requires
        auth_cancel_wf(m),
    ensures
        spec_decode_auth_cancel(spec_encode_auth_cancel(m)) == Some(m),
{
    let rs = auth_cancel_records(m);
    let o0 = opt_bytes_rec(1, m.challenge);
    let e = Seq::<SpecRecord>::empty();
    assert(spec_field_bytes(rs, 1) == Some(m.challenge)) by {
        assert(rs =~= (e) + o0 + (e));
        lemma_read_bytes(rs, (e), (e), 1, m.challenge);
    }
    assert(spec_parse_records(spec_records_bytes(rs)) == Some(rs)) by {
        lemma_opt_bytes_wf(1, m.challenge);
        lemma_records_wf_concat(e, o0);
        assert(rs =~= e + o0);
        lemma_parse_records_roundtrip(rs);
    }
}

/// The client's half of the pairing key exchange.
#[derive(Clone, Debug, PartialEq, Eq)]
pub struct PairingResponse {
    pub version: u32,
    pub x25519_public_key: Vec<u8>,
    pub ed25519_public_key: Vec<u8>,
    pub device_name: String,
    pub selected_symmetric_algorithm: i32,
    pub selected_hash_algorithm: i32,
    pub selected_signature_algorithm: i32,
}

/// The value of a [`PairingResponse`].
pub struct PairingResponseView {
    pub version: u32,
    pub x25519_public_key: Seq<u8>,
    pub ed25519_public_key: Seq<u8>,
    pub device_name: Seq<char>,
    pub selected_symmetric_algorithm: i32,
    pub selected_hash_algorithm: i32,
    pub selected_signature_algorithm: i32,
}

impl View for PairingResponse {
    type V = PairingResponseView;

    open spec fn view(&self) -> PairingResponseView {
        PairingResponseView {
            version: self.version,
            x25519_public_key: self.x25519_public_key@,
            ed25519_public_key: self.ed25519_public_key@,
            device_name: self.device_name@,
            selected_symmetric_algorithm: self.selected_symmetric_algorithm,
            selected_hash_algorithm: self.selected_hash_algorithm,
            selected_signature_algorithm: self.selected_signature_algorithm,
        }
    }
}

/// The records of a [`PairingResponse`]: one per field that is not at its default.
pub open spec fn pairing_response_records(m: PairingResponseView) -> Seq<SpecRecord> {
    opt_varint_rec(1, m.version as u64)
        + opt_bytes_rec(2, m.x25519_public_key)
        + opt_bytes_rec(3, m.ed25519_public_key)
        + opt_string_rec(4, m.device_name)
        + opt_i32_rec(5, m.selected_symmetric_algorithm)
        + opt_i32_rec(6, m.selected_hash_algorithm)
        + opt_i32_rec(7, m.selected_signature_algorithm)
}

/// Reads a [`PairingResponse`] from its records; `None` on a field of the wrong type
/// or a string that is not UTF-8.
pub open spec fn pairing_response_from_records(rs: Seq<SpecRecord>) -> Option<PairingResponseView> {
    match spec_field_u32(rs, 1) {
        Some(version) => match spec_field_bytes(rs, 2) {
        Some(x25519_public_key) => match spec_field_bytes(rs, 3) {
        Some(ed25519_public_key) => match spec_field_string(rs, 4) {
        Some(device_name) => match spec_field_i32(rs, 5) {
        Some(selected_symmetric_algorithm) => match spec_field_i32(rs, 6) {
        Some(selected_hash_algorithm) => match spec_field_i32(rs, 7) {
        Some(selected_signature_algorithm) => Some(PairingResponseView { version, x25519_public_key, ed25519_public_key, device_name, selected_symmetric_algorithm, selected_hash_algorithm, selected_signature_algorithm }),
        None => None,
    },
        None => None,
    },
        None => None,
    },
        None => None,
    },
        None => None,
    },
        None => None,
    },
        None => None,
    }
}

/// The encoding of a [`PairingResponse`].
pub open spec fn spec_encode_pairing_response(m: PairingResponseView) -> Seq<u8> {
    spec_records_bytes(pairing_response_records(m))
}

/// The [`PairingResponse`] that `s` encodes, if any.
pub open spec fn spec_decode_pairing_response(s: Seq<u8>) -> Option<PairingResponseView> {
    match spec_parse_records(s) {
        Some(rs) => pairing_response_from_records(rs),
        None => None,
    }
}

/// Every byte string of the message has a length that fits the format.
pub open spec fn pairing_response_wf(m: PairingResponseView) -> bool {
    &&& m.x25519_public_key.len() <= u64::MAX
    &&& m.ed25519_public_key.len() <= u64::MAX
    &&& encode_utf8(m.device_name).len() <= u64::MAX
}

impl PairingResponse {
    /// The encoding of the message.
    pub fn encode_to_vec(&self) -> (r: Vec<u8>)
        ensures
            r@ == spec_encode_pairing_response(self@),
    {
        let mut rs: Vec<Record> = Vec::new();
        push_varint_field(&mut rs, 1, self.version as u64);
        push_bytes_field(&mut rs, 2, self.x25519_public_key.as_slice());
        push_bytes_field(&mut rs, 3, self.ed25519_public_key.as_slice());
        push_string_field(&mut rs, 4, self.device_name.as_str());
        push_i32_field(&mut rs, 5, self.selected_symmetric_algorithm);
        push_i32_field(&mut rs, 6, self.selected_hash_algorithm);
        push_i32_field(&mut rs, 7, self.selected_signature_algorithm);
        assert(records_view(rs@) =~= pairing_response_records(self@));
        encode_records(&rs)
    }

    /// Decodes a message; `Err` exactly when `spec_decode_pairing_response` rejects the bytes.
    pub fn decode(buf: &[u8]) -> (r: Result<PairingResponse, DecodeError>)
        ensures
            r is Ok <==> spec_decode_pairing_response(buf@) is Some,
            r matches Ok(m) ==> spec_decode_pairing_response(buf@) == Some(m@),
    {
        let rs = match parse_records(buf) {
            Some(rs) => rs,
            None => {
                return Err(DecodeError);
            },
        };
        let version = match field_u32(&rs, 1) {
            Some(x) => x,
            None => {
                return Err(DecodeError);
            },
        };
        let x25519_public_key = match field_bytes(&rs, 2) {
            Some(x) => x,
            None => {
                return Err(DecodeError);
            },
        };
        let ed25519_public_key = match field_bytes(&rs, 3) {
            Some(x) => x,
            None => {
                return Err(DecodeError);
            },
        };
        let device_name = match field_string(&rs, 4) {
            Some(x) => x,
            None => {
                return Err(DecodeError);
            },
        };
        let selected_symmetric_algorithm = match field_i32(&rs, 5) {
            Some(x) => x,
            None => {
                return Err(DecodeError);
            },
        };
        let selected_hash_algorithm = match field_i32(&rs, 6) {
            Some(x) => x,
            None => {
                return Err(DecodeError);
            },
        };
        let selected_signature_algorithm = match field_i32(&rs, 7) {
            Some(x) => x,
            None => {
                return Err(DecodeError);
            },
        };
        Ok(PairingResponse { version, x25519_public_key, ed25519_public_key, device_name, selected_symmetric_algorithm, selected_hash_algorithm, selected_signature_algorithm })
    }
}

/// Decoding the encoding of a message gives the message back.
pub proof fn lemma_pairing_response_roundtrip(m: PairingResponseView)
    requires
        pairing_response_wf(m),
    ensures
        spec_decode_pairing_response(spec_encode_pairing_response(m)) == Some(m),
{
    let rs = pairing_response_records(m);
    let o0 = opt_varint_rec(1, m.version as u64);
    let o1 = opt_bytes_rec(2, m.x25519_public_key);
    let o2 = opt_bytes_rec(3, m.ed25519_public_key);
    let o3 = opt_string_rec(4, m.device_name);
    let o4 = opt_i32_rec(5, m.selected_symmetric_algorithm);
    let o5 = opt_i32_rec(6, m.selected_hash_algorithm);
    let o6 = opt_i32_rec(7, m.selected_signature_algorithm);
    let e = Seq::<SpecRecord>::empty();
    assert(spec_field_u32(rs, 1) == Some(m.version)) by {
        assert(rs =~= (e) + o0 + (e + o1 + o2 + o3 + o4 + o5 + o6));
        lemma_opt_bytes_other(2, m.x25519_public_key, 1);
        lemma_no_field_concat(e, o1, 1);
        lemma_opt_bytes_other(3, m.ed25519_public_key, 1);
        lemma_no_field_concat(e + o1, o2, 1);
        lemma_opt_bytes_other(4, encode_utf8(m.device_name), 1);
        lemma_no_field_concat(e + o1 + o2, o3, 1);
        lemma_opt_varint_other(5, i32_wire(m.selected_symmetric_algorithm), 1);
        lemma_no_field_concat(e + o1 + o2 + o3, o4, 1);
        lemma_opt_varint_other(6, i32_wire(m.selected_hash_algorithm), 1);
        lemma_no_field_concat(e + o1 + o2 + o3 + o4, o5, 1);
        lemma_opt_varint_other(7, i32_wire(m.selected_signature_algorithm), 1);
        lemma_no_field_concat(e + o1 + o2 + o3 + o4 + o5, o6, 1);
        lemma_read_varint(rs, (e), (e + o1 + o2 + o3 + o4 + o5 + o6), 1, m.version as u64);
    }
    assert(spec_field_bytes(rs, 2) == Some(m.x25519_public_key)) by {
        assert(rs =~= (e + o0) + o1 + (e + o2 + o3 + o4 + o5 + o6));
        lemma_opt_varint_other(1, m.version as u64, 2);
        lemma_no_field_concat(e, o0, 2);
        lemma_opt_bytes_other(3, m.ed25519_public_key, 2);
        lemma_no_field_concat(e, o2, 2);
        lemma_opt_bytes_other(4, encode_utf8(m.device_name), 2);
        lemma_no_field_concat(e + o2, o3, 2);
        lemma_opt_varint_other(5, i32_wire(m.selected_symmetric_algorithm), 2);
        lemma_no_field_concat(e + o2 + o3, o4, 2);
        lemma_opt_varint_other(6, i32_wire(m.selected_hash_algorithm), 2);
        lemma_no_field_concat(e + o2 + o3 + o4, o5, 2);
        lemma_opt_varint_other(7, i32_wire(m.selected_signature_algorithm), 2);
        lemma_no_field_concat(e + o2 + o3 + o4 + o5, o6, 2);
        lemma_read_bytes(rs, (e + o0), (e + o2 + o3 + o4 + o5 + o6), 2, m.x25519_public_key);
    }
    assert(spec_field_bytes(rs, 3) == Some(m.ed25519_public_key)) by {
        assert(rs =~= (e + o0 + o1) + o2 + (e + o3 + o4 + o5 + o6));
        lemma_opt_varint_other(1, m.version as u64, 3);
        lemma_no_field_concat(e, o0, 3);
        lemma_opt_bytes_other(2, m.x25519_public_key, 3);
        lemma_no_field_concat(e + o0, o1, 3);
        lemma_opt_bytes_other(4, encode_utf8(m.device_name), 3);
        lemma_no_field_concat(e, o3, 3);
        lemma_opt_varint_other(5, i32_wire(m.selected_symmetric_algorithm), 3);
        lemma_no_field_concat(e + o3, o4, 3);
        lemma_opt_varint_other(6, i32_wire(m.selected_hash_algorithm), 3);
        lemma_no_field_concat(e + o3 + o4, o5, 3);
        lemma_opt_varint_other(7, i32_wire(m.selected_signature_algorithm), 3);
        lemma_no_field_concat(e + o3 + o4 + o5, o6, 3);
        lemma_read_bytes(rs, (e + o0 + o1), (e + o3 + o4 + o5 + o6), 3, m.ed25519_public_key);
    }
    assert(spec_field_string(rs, 4) == Some(m.device_name)) by {
        assert(rs =~= (e + o0 + o1 + o2) + o3 + (e + o4 + o5 + o6));
        lemma_opt_varint_other(1, m.version as u64, 4);
        lemma_no_field_concat(e, o0, 4);
        lemma_opt_bytes_other(2, m.x25519_public_key, 4);
        lemma_no_field_concat(e + o0, o1, 4);
        lemma_opt_bytes_other(3, m.ed25519_public_key, 4);
        lemma_no_field_concat(e + o0 + o1, o2, 4);
        lemma_opt_varint_other(5, i32_wire(m.selected_symmetric_algorithm), 4);
        lemma_no_field_concat(e, o4, 4);
        lemma_opt_varint_other(6, i32_wire(m.selected_hash_algorithm), 4);
        lemma_no_field_concat(e + o4, o5, 4);
        lemma_opt_varint_other(7, i32_wire(m.selected_signature_algorithm), 4);
        lemma_no_field_concat(e + o4 + o5, o6, 4);
        lemma_read_string(rs, (e + o0 + o1 + o2), (e + o4 + o5 + o6), 4, m.device_name);
    }
    assert(spec_field_i32(rs, 5) == Some(m.selected_symmetric_algorithm)) by {
        assert(rs =~= (e + o0 + o1 + o2 + o3) + o4 + (e + o5 + o6));
        lemma_opt_varint_other(1, m.version as u64, 5);
        lemma_no_field_concat(e, o0, 5);
        lemma_opt_bytes_other(2, m.x25519_public_key, 5);
        lemma_no_field_concat(e + o0, o1, 5);
        lemma_opt_bytes_other(3, m.ed25519_public_key, 5);
        lemma_no_field_concat(e + o0 + o1, o2, 5);
        lemma_opt_bytes_other(4, encode_utf8(m.device_name), 5);
        lemma_no_field_concat(e + o0 + o1 + o2, o3, 5);
        lemma_opt_varint_other(6, i32_wire(m.selected_hash_algorithm), 5);
        lemma_no_field_concat(e, o5, 5);
        lemma_opt_varint_other(7, i32_wire(m.selected_signature_algorithm), 5);
        lemma_no_field_concat(e + o5, o6, 5);
        lemma_read_i32(rs, (e + o0 + o1 + o2 + o3), (e + o5 + o6), 5, m.selected_symmetric_algorithm);
    }
    assert(spec_field_i32(rs, 6) == Some(m.selected_hash_algorithm)) by {
        assert(rs =~= (e + o0 + o1 + o2 + o3 + o4) + o5 + (e + o6));
        lemma_opt_varint_other(1, m.version as u64, 6);
        lemma_no_field_concat(e, o0, 6);
        lemma_opt_bytes_other(2, m.x25519_public_key, 6);
        lemma_no_field_concat(e + o0, o1, 6);
        lemma_opt_bytes_other(3, m.ed25519_public_key, 6);
        lemma_no_field_concat(e + o0 + o1, o2, 6);
        lemma_opt_bytes_other(4, encode_utf8(m.device_name), 6);
        lemma_no_field_concat(e + o0 + o1 + o2, o3, 6);
        lemma_opt_varint_other(5, i32_wire(m.selected_symmetric_algorithm), 6);
        lemma_no_field_concat(e + o0 + o1 + o2 + o3, o4, 6);
        lemma_opt_varint_other(7, i32_wire(m.selected_signature_algorithm), 6);
        lemma_no_field_concat(e, o6, 6);
        lemma_read_i32(rs, (e + o0 + o1 + o2 + o3 + o4), (e + o6), 6, m.selected_hash_algorithm);
    }
    assert(spec_field_i32(rs, 7) == Some(m.selected_signature_algorithm)) by {
        assert(rs =~= (e + o0 + o1 + o2 + o3 + o4 + o5) + o6 + (e));
        lemma_opt_varint_other(1, m.version as u64, 7);
        lemma_no_field_concat(e, o0, 7);
        lemma_opt_bytes_other(2, m.x25519_public_key, 7);
        lemma_no_field_concat(e + o0, o1, 7);
        lemma_opt_bytes_other(3, m.ed25519_public_key, 7);
        lemma_no_field_concat(e + o0 + o1, o2, 7);
        lemma_opt_bytes_other(4, encode_utf8(m.device_name), 7);
        lemma_no_field_concat(e + o0 + o1 + o2, o3, 7);
        lemma_opt_varint_other(5, i32_wire(m.selected_symmetric_algorithm), 7);
        lemma_no_field_concat(e + o0 + o1 + o2 + o3, o4, 7);
        lemma_opt_varint_other(6, i32_wire(m.selected_hash_algorithm), 7);
        lemma_no_field_concat(e + o0 + o1 + o2 + o3 + o4, o5, 7);
        lemma_read_i32(rs, (e + o0 + o1 + o2 + o3 + o4 + o5), (e), 7, m.selected_signature_algorithm);
    }
    assert(spec_parse_records(spec_records_bytes(rs)) == Some(rs)) by {
        lemma_opt_varint_wf(1, m.version as u64);
        lemma_records_wf_concat(e, o0);
        lemma_opt_bytes_wf(2, m.x25519_public_key);
        lemma_records_wf_concat(e + o0, o1);
        lemma_opt_bytes_wf(3, m.ed25519_public_key);
        lemma_records_wf_concat(e + o0 + o1, o2);
        lemma_opt_bytes_wf(4, encode_utf8(m.device_name));
        lemma_records_wf_concat(e + o0 + o1 + o2, o3);
        lemma_opt_varint_wf(5, i32_wire(m.selected_symmetric_algorithm));
        lemma_records_wf_concat(e + o0 + o1 + o2 + o3, o4);
        lemma_opt_varint_wf(6, i32_wire(m.selected_hash_algorithm));
        lemma_records_wf_concat(e + o0 + o1 + o2 + o3 + o4, o5);
        lemma_opt_varint_wf(7, i32_wire(m.selected_signature_algorithm));
        lemma_records_wf_concat(e + o0 + o1 + o2 + o3 + o4 + o5, o6);
        assert(rs =~= e + o0 + o1 + o2 + o3 + o4 + o5 + o6);
        lemma_parse_records_roundtrip(rs);
    }
}

/// The server's half of the pairing key exchange, with the algorithms it supports.
#[derive(Clone, Debug, PartialEq, Eq)]
pub struct PairingHello {
    pub version: u32,
    pub x25519_public_key: Vec<u8>,
    pub ed25519_public_key: Vec<u8>,
    pub device_name: String,
    pub supported_symmetric_algorithms: Vec<i32>,
    pub supported_hash_algorithms: Vec<i32>,
    pub supported_signature_algorithms: Vec<i32>,
}

/// The value of a [`PairingHello`].
pub struct PairingHelloView {
    pub version: u32,
    pub x25519_public_key: Seq<u8>,
    pub ed25519_public_key: Seq<u8>,
    pub device_name: Seq<char>,
    pub supported_symmetric_algorithms: Seq<i32>,
    pub supported_hash_algorithms: Seq<i32>,
    pub supported_signature_algorithms: Seq<i32>,
}

impl View for PairingHello {
    type V = PairingHelloView;

    open spec fn view(&self) -> PairingHelloView {
        PairingHelloView {
            version: self.version,
            x25519_public_key: self.x25519_public_key@,
            ed25519_public_key: self.ed25519_public_key@,
            device_name: self.device_name@,
            supported_symmetric_algorithms: self.supported_symmetric_algorithms@,
            supported_hash_algorithms: self.supported_hash_algorithms@,
            supported_signature_algorithms: self.supported_signature_algorithms@,
        }
    }
}

/// The records of a [`PairingHello`]: one per field that is not at its default.
pub open spec fn pairing_hello_records(m: PairingHelloView) -> Seq<SpecRecord> {
    opt_varint_rec(1, m.version as u64)
        + opt_bytes_rec(2, m.x25519_public_key)
        + opt_bytes_rec(3, m.ed25519_public_key)
        + opt_string_rec(4, m.device_name)
        + opt_packed_rec(5, m.supported_symmetric_algorithms)
        + opt_packed_rec(6, m.supported_hash_algorithms)
        + opt_packed_rec(7, m.supported_signature_algorithms)
}

/// Reads a [`PairingHello`] from its records; `None` on a field of the wrong type
/// or a string that is not UTF-8.
pub open spec fn pairing_hello_from_records(rs: Seq<SpecRecord>) -> Option<PairingHelloView> {
    match spec_field_u32(rs, 1) {
        Some(version) => match spec_field_bytes(rs, 2) {
        Some(x25519_public_key) => match spec_field_bytes(rs, 3) {
        Some(ed25519_public_key) => match spec_field_string(rs, 4) {
        Some(device_name) => match spec_field_packed_i32(rs, 5) {
        Some(supported_symmetric_algorithms) => match spec_field_packed_i32(rs, 6) {
        Some(supported_hash_algorithms) => match spec_field_packed_i32(rs, 7) {
        Some(supported_signature_algorithms) => Some(PairingHelloView { version, x25519_public_key, ed25519_public_key, device_name, supported_symmetric_algorithms, supported_hash_algorithms, supported_signature_algorithms }),
        None => None,
    },
        None => None,
    },
        None => None,
    },
        None => None,
    },
        None => None,
    },
        None => None,
    },
        None => None,
    }
}

/// The encoding of a [`PairingHello`].
pub open spec fn spec_encode_pairing_hello(m: PairingHelloView) -> Seq<u8> {
    spec_records_bytes(pairing_hello_records(m))
}

/// The [`PairingHello`] that `s` encodes, if any.
pub open spec fn spec_decode_pairing_hello(s: Seq<u8>) -> Option<PairingHelloView> {
    match spec_parse_records(s) {
        Some(rs) => pairing_hello_from_records(rs),
        None => None,
    }
}

/// Every byte string of the message has a length that fits the format.
pub open spec fn pairing_hello_wf(m: PairingHelloView) -> bool {
    &&& m.x25519_public_key.len() <= u64::MAX
    &&& m.ed25519_public_key.len() <= u64::MAX
    &&& encode_utf8(m.device_name).len() <= u64::MAX
    &&& spec_packed_bytes(m.supported_symmetric_algorithms).len() <= u64::MAX
    &&& spec_packed_bytes(m.supported_hash_algorithms).len() <= u64::MAX
    &&& spec_packed_bytes(m.supported_signature_algorithms).len() <= u64::MAX
}

impl PairingHello {
    /// The encoding of the message.
    pub fn encode_to_vec(&self) -> (r: Vec<u8>)
        ensures
            r@ == spec_encode_pairing_hello(self@),
    {
        let mut rs: Vec<Record> = Vec::new();
        push_varint_field(&mut rs, 1, self.version as u64);
        push_bytes_field(&mut rs, 2, self.x25519_public_key.as_slice());
        push_bytes_field(&mut rs, 3, self.ed25519_public_key.as_slice());
        push_string_field(&mut rs, 4, self.device_name.as_str());
        push_packed_field(&mut rs, 5, self.supported_symmetric_algorithms.as_slice());
        push_packed_field(&mut rs, 6, self.supported_hash_algorithms.as_slice());
        push_packed_field(&mut rs, 7, self.supported_signature_algorithms.as_slice());
        assert(records_view(rs@) =~= pairing_hello_records(self@));
        encode_records(&rs)
    }

    /// Decodes a message; `Err` exactly when `spec_decode_pairing_hello` rejects the bytes.
    pub fn decode(buf: &[u8]) -> (r: Result<PairingHello, DecodeError>)
        ensures
            r is Ok <==> spec_decode_pairing_hello(buf@) is Some,
            r matches Ok(m) ==> spec_decode_pairing_hello(buf@) == Some(m@),
    {
        let rs = match parse_records(buf) {
            Some(rs) => rs,
            None => {
                return Err(DecodeError);
            },
        };
        let version = match field_u32(&rs, 1) {
            Some(x) => x,
            None => {
                return Err(DecodeError);
            },
        };
        let x25519_public_key = match field_bytes(&rs, 2) {
            Some(x) => x,
            None => {
                return Err(DecodeError);
            },
        };
        let ed25519_public_key = match field_bytes(&rs, 3) {
            Some(x) => x,
            None => {
                return Err(DecodeError);
            },
        };
        let device_name = match field_string(&rs, 4) {
            Some(x) => x,
            None => {
                return Err(DecodeError);
            },
        };
        let supported_symmetric_algorithms = match field_packed_i32(&rs, 5) {
            Some(x) => x,
            None => {
                return Err(DecodeError);
            },
        };
        let supported_hash_algorithms = match field_packed_i32(&rs, 6) {
            Some(x) => x,
            None => {
                return Err(DecodeError);
            },
        };
        let supported_signature_algorithms = match field_packed_i32(&rs, 7) {
            Some(x) => x,
            None => {
                return Err(DecodeError);
            },
        };
        Ok(PairingHello { version, x25519_public_key, ed25519_public_key, device_name, supported_symmetric_algorithms, supported_hash_algorithms, supported_signature_algorithms })
    }
}

/// Decoding the encoding of a message gives the message back.
pub proof fn lemma_pairing_hello_roundtrip(m: PairingHelloView)
    requires
        pairing_hello_wf(m),
    ensures
        spec_decode_pairing_hello(spec_encode_pairing_hello(m)) == Some(m),
{
    let rs = pairing_hello_records(m);
    let o0 = opt_varint_rec(1, m.version as u64);
    let o1 = opt_bytes_rec(2, m.x25519_public_key);
    let o2 = opt_bytes_rec(3, m.ed25519_public_key);
    let o3 = opt_string_rec(4, m.device_name);
    let o4 = opt_packed_rec(5, m.supported_symmetric_algorithms);
    let o5 = opt_packed_rec(6, m.supported_hash_algorithms);
    let o6 = opt_packed_rec(7, m.supported_signature_algorithms);
    let e = Seq::<SpecRecord>::empty();
    assert(spec_field_u32(rs, 1) == Some(m.version)) by {
        assert(rs =~= (e) + o0 + (e + o1 + o2 + o3 + o4 + o5 + o6));
        lemma_opt_bytes_other(2, m.x25519_public_key, 1);
        lemma_no_field_concat(e, o1, 1);
        lemma_opt_bytes_other(3, m.ed25519_public_key, 1);
        lemma_no_field_concat(e + o1, o2, 1);
        lemma_opt_bytes_other(4, encode_utf8(m.device_name), 1);
        lemma_no_field_concat(e + o1 + o2, o3, 1);
        lemma_opt_packed_other(5, m.supported_symmetric_algorithms, 1);
        lemma_no_field_concat(e + o1 + o2 + o3, o4, 1);
        lemma_opt_packed_other(6, m.supported_hash_algorithms, 1);
        lemma_no_field_concat(e + o1 + o2 + o3 + o4, o5, 1);
        lemma_opt_packed_other(7, m.supported_signature_algorithms, 1);
        lemma_no_field_concat(e + o1 + o2 + o3 + o4 + o5, o6, 1);
        lemma_read_varint(rs, (e), (e + o1 + o2 + o3 + o4 + o5 + o6), 1, m.version as u64);
    }
    assert(spec_field_bytes(rs, 2) == Some(m.x25519_public_key)) by {
        assert(rs =~= (e + o0) + o1 + (e + o2 + o3 + o4 + o5 + o6));
        lemma_opt_varint_other(1, m.version as u64, 2);
        lemma_no_field_concat(e, o0, 2);
        lemma_opt_bytes_other(3, m.ed25519_public_key, 2);
        lemma_no_field_concat(e, o2, 2);
        lemma_opt_bytes_other(4, encode_utf8(m.device_name), 2);
        lemma_no_field_concat(e + o2, o3, 2);
        lemma_opt_packed_other(5, m.supported_symmetric_algorithms, 2);
        lemma_no_field_concat(e + o2 + o3, o4, 2);
        lemma_opt_packed_other(6, m.supported_hash_algorithms, 2);
        lemma_no_field_concat(e + o2 + o3 + o4, o5, 2);
        lemma_opt_packed_other(7, m.supported_signature_algorithms, 2);
        lemma_no_field_concat(e + o2 + o3 + o4 + o5, o6, 2);
        lemma_read_bytes(rs, (e + o0), (e + o2 + o3 + o4 + o5 + o6), 2, m.x25519_public_key);
    }
    assert(spec_field_bytes(rs, 3) == Some(m.ed25519_public_key)) by {
        assert(rs =~= (e + o0 + o1) + o2 + (e + o3 + o4 + o5 + o6));
        lemma_opt_varint_other(1, m.version as u64, 3);
        lemma_no_field_concat(e, o0, 3);
        lemma_opt_bytes_other(2, m.x25519_public_key, 3);
        lemma_no_field_concat(e + o0, o1, 3);
        lemma_opt_bytes_other(4, encode_utf8(m.device_name), 3);
        lemma_no_field_concat(e, o3, 3);
        lemma_opt_packed_other(5, m.supported_symmetric_algorithms, 3);
        lemma_no_field_concat(e + o3, o4, 3);
        lemma_opt_packed_other(6, m.supported_hash_algorithms, 3);
        lemma_no_field_concat(e + o3 + o4, o5, 3);
        lemma_opt_packed_other(7, m.supported_signature_algorithms, 3);
        lemma_no_field_concat(e + o3 + o4 + o5, o6, 3);
        lemma_read_bytes(rs, (e + o0 + o1), (e + o3 + o4 + o5 + o6), 3, m.ed25519_public_key);
    }
    assert(spec_field_string(rs, 4) == Some(m.device_name)) by {
        assert(rs =~= (e + o0 + o1 + o2) + o3 + (e + o4 + o5 + o6));
        lemma_opt_varint_other(1, m.version as u64, 4);
        lemma_no_field_concat(e, o0, 4);
        lemma_opt_bytes_other(2, m.x25519_public_key, 4);
        lemma_no_field_concat(e + o0, o1, 4);
        lemma_opt_bytes_other(3, m.ed25519_public_key, 4);
        lemma_no_field_concat(e + o0 + o1, o2, 4);
        lemma_opt_packed_other(5, m.supported_symmetric_algorithms, 4);
        lemma_no_field_concat(e, o4, 4);
        lemma_opt_packed_other(6, m.supported_hash_algorithms, 4);
        lemma_no_field_concat(e + o4, o5, 4);
        lemma_opt_packed_other(7, m.supported_signature_algorithms, 4);
        lemma_no_field_concat(e + o4 + o5, o6, 4);
        lemma_read_string(rs, (e + o0 + o1 + o2), (e + o4 + o5 + o6), 4, m.device_name);
    }
    assert(spec_field_packed_i32(rs, 5) == Some(m.supported_symmetric_algorithms)) by {
        assert(rs =~= (e + o0 + o1 + o2 + o3) + o4 + (e + o5 + o6));
        lemma_opt_varint_other(1, m.version as u64, 5);
        lemma_no_field_concat(e, o0, 5);
        lemma_opt_bytes_other(2, m.x25519_public_key, 5);
        lemma_no_field_concat(e + o0, o1, 5);
        lemma_opt_bytes_other(3, m.ed25519_public_key, 5);
        lemma_no_field_concat(e + o0 + o1, o2, 5);
        lemma_opt_bytes_other(4, encode_utf8(m.device_name), 5);
        lemma_no_field_concat(e + o0 + o1 + o2, o3, 5);
        lemma_opt_packed_other(6, m.supported_hash_algorithms, 5);
        lemma_no_field_concat(e, o5, 5);
        lemma_opt_packed_other(7, m.supported_signature_algorithms, 5);
        lemma_no_field_concat(e + o5, o6, 5);
        lemma_read_packed(rs, (e + o0 + o1 + o2 + o3), (e + o5 + o6), 5, m.supported_symmetric_algorithms);
    }
    assert(spec_field_packed_i32(rs, 6) == Some(m.supported_hash_algorithms)) by {
        assert(rs =~= (e + o0 + o1 + o2 + o3 + o4) + o5 + (e + o6));
        lemma_opt_varint_other(1, m.version as u64, 6);
        lemma_no_field_concat(e, o0, 6);
        lemma_opt_bytes_other(2, m.x25519_public_key, 6);
        lemma_no_field_concat(e + o0, o1, 6);
        lemma_opt_bytes_other(3, m.ed25519_public_key, 6);
        lemma_no_field_concat(e + o0 + o1, o2, 6);
        lemma_opt_bytes_other(4, encode_utf8(m.device_name), 6);
        lemma_no_field_concat(e + o0 + o1 + o2, o3, 6);
        lemma_opt_packed_other(5, m.supported_symmetric_algorithms, 6);
        lemma_no_field_concat(e + o0 + o1 + o2 + o3, o4, 6);
        lemma_opt_packed_other(7, m.supported_signature_algorithms, 6);
        lemma_no_field_concat(e, o6, 6);
        lemma_read_packed(rs, (e + o0 + o1 + o2 + o3 + o4), (e + o6), 6, m.supported_hash_algorithms);
    }
    assert(spec_field_packed_i32(rs, 7) == Some(m.supported_signature_algorithms)) by {
        assert(rs =~= (e + o0 + o1 + o2 + o3 + o4 + o5) + o6 + (e));
        lemma_opt_varint_other(1, m.version as u64, 7);
        lemma_no_field_concat(e, o0, 7);
        lemma_opt_bytes_other(2, m.x25519_public_key, 7);
        lemma_no_field_concat(e + o0, o1, 7);
        lemma_opt_bytes_other(3, m.ed25519_public_key, 7);
        lemma_no_field_concat(e + o0 + o1, o2, 7);
        lemma_opt_bytes_other(4, encode_utf8(m.device_name), 7);
        lemma_no_field_concat(e + o0 + o1 + o2, o3, 7);
        lemma_opt_packed_other(5, m.supported_symmetric_algorithms, 7);
        lemma_no_field_concat(e + o0 + o1 + o2 + o3, o4, 7);
        lemma_opt_packed_other(6, m.supported_hash_algorithms, 7);
        lemma_no_field_concat(e + o0 + o1 + o2 + o3 + o4, o5, 7);
        lemma_read_packed(rs, (e + o0 + o1 + o2 + o3 + o4 + o5), (e), 7, m.supported_signature_algorithms);
    }
    assert(spec_parse_records(spec_records_bytes(rs)) == Some(rs)) by {
        lemma_opt_varint_wf(1, m.version as u64);
        lemma_records_wf_concat(e, o0);
        lemma_opt_bytes_wf(2, m.x25519_public_key);
        lemma_records_wf_concat(e + o0, o1);
        lemma_opt_bytes_wf(3, m.ed25519_public_key);
        lemma_records_wf_concat(e + o0 + o1, o2);
        lemma_opt_bytes_wf(4, encode_utf8(m.device_name));
        lemma_records_wf_concat(e + o0 + o1 + o2, o3);
        lemma_opt_packed_wf(5, m.supported_symmetric_algorithms);
        lemma_records_wf_concat(e + o0 + o1 + o2 + o3, o4);
        lemma_opt_packed_wf(6, m.supported_hash_algorithms);
        lemma_records_wf_concat(e + o0 + o1 + o2 + o3 + o4, o5);
        lemma_opt_packed_wf(7, m.supported_signature_algorithms);
        lemma_records_wf_concat(e + o0 + o1 + o2 + o3 + o4 + o5, o6);
        assert(rs =~= e + o0 + o1 + o2 + o3 + o4 + o5 + o6);
        lemma_parse_records_roundtrip(rs);
    }
}

/// The client symmetric key, encrypted under the pairing key, and the user it is for.
#[derive(Clone, Debug, PartialEq, Eq)]
pub struct PairingCskMessage {
    pub encrypted_csk: Vec<u8>,
    pub username: String,
}

/// The value of a [`PairingCskMessage`].
pub struct PairingCskMessageView {
    pub encrypted_csk: Seq<u8>,
    pub username: Seq<char>,
}

impl View for PairingCskMessage {
    type V = PairingCskMessageView;

    open spec fn view(&self) -> PairingCskMessageView {
        PairingCskMessageView {
            encrypted_csk: self.encrypted_csk@,
            username: self.username@,
        }
    }
}

/// The records of a [`PairingCskMessage`]: one per field that is not at its default.
pub open spec fn pairing_csk_records(m: PairingCskMessageView) -> Seq<SpecRecord> {
    opt_bytes_rec(1, m.encrypted_csk)
        + opt_string_rec(2, m.username)
}

/// Reads a [`PairingCskMessage`] from its records; `None` on a field of the wrong type
/// or a string that is not UTF-8.
pub open spec fn pairing_csk_from_records(rs: Seq<SpecRecord>) -> Option<PairingCskMessageView> {
    match spec_field_bytes(rs, 1) {
        Some(encrypted_csk) => match spec_field_string(rs, 2) {
        Some(username) => Some(PairingCskMessageView { encrypted_csk, username }),
        None => None,
    },
        None => None,
    }
}

/// The encoding of a [`PairingCskMessage`].
pub open spec fn spec_encode_pairing_csk(m: PairingCskMessageView) -> Seq<u8> {
    spec_records_bytes(pairing_csk_records(m))
}

/// The [`PairingCskMessage`] that `s` encodes, if any.
pub open spec fn spec_decode_pairing_csk(s: Seq<u8>) -> Option<PairingCskMessageView> {
    match spec_parse_records(s) {
        Some(rs) => pairing_csk_from_records(rs),
        None => None,
    }
}

/// Every byte string of the message has a length that fits the format.
pub open spec fn pairing_csk_wf(m: PairingCskMessageView) -> bool {
    &&& m.encrypted_csk.len() <= u64::MAX
    &&& encode_utf8(m.username).len() <= u64::MAX
}

impl PairingCskMessage {
    /// The encoding of the message.
    pub fn encode_to_vec(&self) -> (r: Vec<u8>)
        ensures
            r@ == spec_encode_pairing_csk(self@),
    {
        let mut rs: Vec<Record> = Vec::new();
        push_bytes_field(&mut rs, 1, self.encrypted_csk.as_slice());
        push_string_field(&mut rs, 2, self.username.as_str());
        assert(records_view(rs@) =~= pairing_csk_records(self@));
        encode_records(&rs)
    }

    /// Decodes a message; `Err` exactly when `spec_decode_pairing_csk` rejects the bytes.
    pub fn decode(buf: &[u8]) -> (r: Result<PairingCskMessage, DecodeError>)
        ensures
            r is Ok <==> spec_decode_pairing_csk(buf@) is Some,
            r matches Ok(m) ==> spec_decode_pairing_csk(buf@) == Some(m@),
    {
        let rs = match parse_records(buf) {
            Some(rs) => rs,
            None => {
                return Err(DecodeError);
            },
        };
        let encrypted_csk = match field_bytes(&rs, 1) {
            Some(x) => x,
            None => {
                return Err(DecodeError);
            },
        };
        let username = match field_string(&rs, 2) {
            Some(x) => x,
            None => {
                return Err(DecodeError);
            },
        };
        Ok(PairingCskMessage { encrypted_csk, username })
    }
}

/// Decoding the encoding of a message gives the message back.
pub proof fn lemma_pairing_csk_roundtrip(m: PairingCskMessageView)
    requires
        pairing_csk_wf(m),
    ensures
        spec_decode_pairing_csk(spec_encode_pairing_csk(m)) == Some(m),
{
    let rs = pairing_csk_records(m);
    let o0 = opt_bytes_rec(1, m.encrypted_csk);
    let o1 = opt_string_rec(2, m.username);
    let e = Seq::<SpecRecord>::empty();
    assert(spec_field_bytes(rs, 1) == Some(m.encrypted_csk)) by {
        assert(rs =~= (e) + o0 + (e + o1));
        lemma_opt_bytes_other(2, encode_utf8(m.username), 1);
        lemma_no_field_concat(e, o1, 1);
        lemma_read_bytes(rs, (e), (e + o1), 1, m.encrypted_csk);
    }
    assert(spec_field_string(rs, 2) == Some(m.username)) by {
        assert(rs =~= (e + o0) + o1 + (e));
        lemma_opt_bytes_other(1, m.encrypted_csk, 2);
        lemma_no_field_concat(e, o0, 2);
        lemma_read_string(rs, (e + o0), (e), 2, m.username);
    }
    assert(spec_parse_records(spec_records_bytes(rs)) == Some(rs)) by {
        lemma_opt_bytes_wf(1, m.encrypted_csk);
        lemma_records_wf_concat(e, o0);
        lemma_opt_bytes_wf(2, encode_utf8(m.username));
        lemma_records_wf_concat(e + o0, o1);
        assert(rs =~= e + o0 + o1);
        lemma_parse_records_roundtrip(rs);
    }
}

/// The server's acknowledgement: the hash of the received key, encrypted under the pairing key.
#[derive(Clone, Debug, PartialEq, Eq)]
pub struct PairingComplete {
    pub success: bool,
    pub hash_algorithm: i32,
    pub csk_hash: Vec<u8>,
}

/// The value of a [`PairingComplete`].
pub struct PairingCompleteView {
    pub success: bool,
    pub hash_algorithm: i32,
    pub csk_hash: Seq<u8>,
}

impl View for PairingComplete {
    type V = PairingCompleteView;

    open spec fn view(&self) -> PairingCompleteView {
        PairingCompleteView {
            success: self.success,
            hash_algorithm: self.hash_algorithm,
            csk_hash: self.csk_hash@,
        }
    }
}

/// The records of a [`PairingComplete`]: one per field that is not at its default.
pub open spec fn pairing_complete_records(m: PairingCompleteView) -> Seq<SpecRecord> {
    opt_varint_rec(1, if m.success { 1 } else { 0 })
        + opt_i32_rec(2, m.hash_algorithm)
        + opt_bytes_rec(3, m.csk_hash)
}

/// Reads a [`PairingComplete`] from its records; `None` on a field of the wrong type
/// or a string that is not UTF-8.
pub open spec fn pairing_complete_from_records(rs: Seq<SpecRecord>) -> Option<PairingCompleteView> {
    match spec_field_bool(rs, 1) {
        Some(success) => match spec_field_i32(rs, 2) {
        Some(hash_algorithm) => match spec_field_bytes(rs, 3) {
        Some(csk_hash) => Some(PairingCompleteView { success, hash_algorithm, csk_hash }),
        None => None,
    },
        None => None,
    },
        None => None,
    }
}

/// The encoding of a [`PairingComplete`].
pub open spec fn spec_encode_pairing_complete(m: PairingCompleteView) -> Seq<u8> {
    spec_records_bytes(pairing_complete_records(m))
}

/// The [`PairingComplete`] that `s` encodes, if any.
pub open spec fn spec_decode_pairing_complete(s: Seq<u8>) -> Option<PairingCompleteView> {
    match spec_parse_records(s) {
        Some(rs) => pairing_complete_from_records(rs),
        None => None,
    }
}

/// Every byte string of the message has a length that fits the format.
pub open spec fn pairing_complete_wf(m: PairingCompleteView) -> bool {
    &&& m.csk_hash.len() <= u64::MAX
}

impl PairingComplete {
    /// The encoding of the message.
    pub fn encode_to_vec(&self) -> (r: Vec<u8>)
        ensures
            r@ == spec_encode_pairing_complete(self@),
    {
        let mut rs: Vec<Record> = Vec::new();
        push_varint_field(&mut rs, 1, if self.success { 1 } else { 0 });
        push_i32_field(&mut rs, 2, self.hash_algorithm);
        push_bytes_field(&mut rs, 3, self.csk_hash.as_slice());
        assert(records_view(rs@) =~= pairing_complete_records(self@));
        encode_records(&rs)
    }

    /// Decodes a message; `Err` exactly when `spec_decode_pairing_complete` rejects the bytes.
    pub fn decode(buf: &[u8]) -> (r: Result<PairingComplete, DecodeError>)
        ensures
            r is Ok <==> spec_decode_pairing_complete(buf@) is Some,
            r matches Ok(m) ==> spec_decode_pairing_complete(buf@) == Some(m@),
    {
        let rs = match parse_records(buf) {
            Some(rs) => rs,
            None => {
                return Err(DecodeError);
            },
        };
        let success = match field_bool(&rs, 1) {
            Some(x) => x,
            None => {
                return Err(DecodeError);
            },
        };
        let hash_algorithm = match field_i32(&rs, 2) {
            Some(x) => x,
            None => {
                return Err(DecodeError);
            },
        };
        let csk_hash = match field_bytes(&rs, 3) {
            Some(x) => x,
            None => {
                return Err(DecodeError);
            },
        };
        Ok(PairingComplete { success, hash_algorithm, csk_hash })
    }
}

/// Decoding the encoding of a message gives the message back.
pub proof fn lemma_pairing_complete_roundtrip(m: PairingCompleteView)
    requires
        pairing_complete_wf(m),
    ensures
        spec_decode_pairing_complete(spec_encode_pairing_complete(m)) == Some(m),
{
    let rs = pairing_complete_records(m);
    let o0 = opt_varint_rec(1, if m.success { 1 } else { 0 });
    let o1 = opt_i32_rec(2, m.hash_algorithm);
    let o2 = opt_bytes_rec(3, m.csk_hash);
    let e = Seq::<SpecRecord>::empty();
    assert(spec_field_bool(rs, 1) == Some(m.success)) by {
        assert(rs =~= (e) + o0 + (e + o1 + o2));
        lemma_opt_varint_other(2, i32_wire(m.hash_algorithm), 1);
        lemma_no_field_concat(e, o1, 1);
        lemma_opt_bytes_other(3, m.csk_hash, 1);
        lemma_no_field_concat(e + o1, o2, 1);
        lemma_read_varint(rs, (e), (e + o1 + o2), 1, if m.success { 1 } else { 0 });
    }
    assert(spec_field_i32(rs, 2) == Some(m.hash_algorithm)) by {
        assert(rs =~= (e + o0) + o1 + (e + o2));
        lemma_opt_varint_other(1, if m.success { 1u64 } else { 0u64 }, 2);
        lemma_no_field_concat(e, o0, 2);
        lemma_opt_bytes_other(3, m.csk_hash, 2);
        lemma_no_field_concat(e, o2, 2);
        lemma_read_i32(rs, (e + o0), (e + o2), 2, m.hash_algorithm);
    }
    assert(spec_field_bytes(rs, 3) == Some(m.csk_hash)) by {
        assert(rs =~= (e + o0 + o1) + o2 + (e));
        lemma_opt_varint_other(1, if m.success { 1u64 } else { 0u64 }, 3);
        lemma_no_field_concat(e, o0, 3);
        lemma_opt_varint_other(2, i32_wire(m.hash_algorithm), 3);
        lemma_no_field_concat(e + o0, o1, 3);
        lemma_read_bytes(rs, (e + o0 + o1), (e), 3, m.csk_hash);
    }
    assert(spec_parse_records(spec_records_bytes(rs)) == Some(rs)) by {
        lemma_opt_varint_wf(1, if m.success { 1u64 } else { 0u64 });
        lemma_records_wf_concat(e, o0);
        lemma_opt_varint_wf(2, i32_wire(m.hash_algorithm));
        lemma_records_wf_concat(e + o0, o1);
        lemma_opt_bytes_wf(3, m.csk_hash);
        lemma_records_wf_concat(e + o0 + o1, o2);
        assert(rs =~= e + o0 + o1 + o2);
        lemma_parse_records_roundtrip(rs);
    }
}

} // verus!
