//! The decisions of an authentication: whether to start at all, which
//! paired servers may answer, which responses to believe, replay
//! protection, and the answer returned to the PAM module.
use crate::config::{spec_config_error_message, spec_user_allowed, PairedServer, PairedServerView, PairedServers, ConfigError};
use crate::crypto::encryption::spec_open_prefixed;
use crate::crypto::keys::ClientSymmetricKey;
use crate::crypto::{crypto_error_message, CryptoError};
use crate::pb::{DecodeError, EncryptedPacket, EncryptedPacketView};
use crate::protocol::packet::{decrypt_encrypted_packet_with_csk_nonce, spec_prefixed_packet_wrapper};
use crate::daemon::ipc::{
    cancel_response, pam_response, PamAuthenticateResponse, PamOutcome, PAM_OUTCOME_DENIED, PAM_OUTCOME_ERROR,
    PAM_OUTCOME_IGNORE, PAM_OUTCOME_SUCCESS,
};
use crate::pb::wrapper_message::{Payload, PayloadView, WrapperMessage, WrapperMessageView};
use crate::protocol::messages::{spec_wrapper_signature_ok, verify_auth_grant, verify_wrapper_signature};
use crate::crypto::signing::spec_signature_valid;
use crate::protocol::{spec_protocol_error_message, ProtocolError};
use crate::text::{bytes_eq, hex_bytes, hex_decode, hex_text, take32};
use crate::wire::copy_range;
use crate::string_map::StringMap;
use crate::network::discovery::{get_client_retry_interval, spec_client_retry_ms};
use vstd::prelude::*;

verus! {

/// Failures of an authentication attempt.
#[derive(Debug, Clone, PartialEq, Eq)]
pub enum AuthHandlerError {
    Config(ConfigError),
    Network,
    Protocol(ProtocolError),
    Crypto(CryptoError),
    Timeout,
    Denied,
    ExplicitDenial,
    NoPairedDevices,
    BleError(String),
}

/// The message of an authentication failure.
pub open spec fn spec_auth_error_message(e: AuthHandlerError) -> Seq<char> {
    match e {
        AuthHandlerError::Config(c) => "Configuration error: "@ + spec_config_error_message(c),
        AuthHandlerError::Network => "Network error"@,
        AuthHandlerError::Protocol(p) => "Protocol error: "@ + spec_protocol_error_message(p),
        AuthHandlerError::Crypto(c) => "Crypto error: "@ + crypto_error_message(c)@,
        AuthHandlerError::Timeout => "Authentication timeout"@,
        AuthHandlerError::Denied => "Authentication denied"@,
        AuthHandlerError::ExplicitDenial => "Authentication explicitly denied by user"@,
        AuthHandlerError::NoPairedDevices => "No paired devices"@,
        AuthHandlerError::BleError(s) => "BLE error: "@ + s@,
    }
}

impl AuthHandlerError {
    /// The error's message (a network failure without its reason).
    pub fn message(&self) -> (r: String)
        ensures
            r@ == spec_auth_error_message(*self),
    {
        match self {
            AuthHandlerError::Config(c) => {
                let mut m = "Configuration error: ".to_owned();
                m.append(c.message().as_str());
                m
            },
            AuthHandlerError::Network => "Network error".to_owned(),
            AuthHandlerError::Protocol(p) => {
                let mut m = "Protocol error: ".to_owned();
                m.append(p.message().as_str());
                m
            },
            AuthHandlerError::Crypto(e) => {
                let mut m = "Crypto error: ".to_owned();
                m.append(e.message());
                m
            },
            AuthHandlerError::Timeout => "Authentication timeout".to_owned(),
            AuthHandlerError::Denied => "Authentication denied".to_owned(),
            AuthHandlerError::ExplicitDenial => "Authentication explicitly denied by user".to_owned(),
            AuthHandlerError::NoPairedDevices => "No paired devices".to_owned(),
            AuthHandlerError::BleError(s) => {
                let mut m = "BLE error: ".to_owned();
                m.append(s.as_str());
                m
            },
        }
    }
}

/// The 32-byte Ed25519 key a paired server's hex key field denotes, if it
/// is valid hex of exactly 32 bytes.
pub open spec fn spec_server_key(public_key_hex: Seq<char>) -> Option<Seq<u8>> {
    match hex_bytes(public_key_hex) {
        Some(b) => if b.len() == 32 {
            Some(b)
        } else {
            None
        },
        None => None,
    }
}

/// Whether some server of `m` may authenticate `username`.
pub open spec fn spec_some_server_allows(m: Map<Seq<char>, PairedServerView>, username: Seq<char>) -> bool {
    exists|k: Seq<char>| m.contains_key(k) && spec_user_allowed(m[k].allowed_users, username)
}

/// Whether some paired server's key verifies the wrapper's signature.
pub open spec fn spec_signed_by_paired(w: WrapperMessageView, m: Map<Seq<char>, PairedServerView>) -> bool {
    exists|k: Seq<char>|
        m.contains_key(k) && (spec_server_key(m[k].public_key) matches Some(pk)
            && spec_wrapper_signature_ok(w, pk))
}

/// Whether some paired server's key verifies both the wrapper's signature
/// and the grant's signature of the challenge.
pub open spec fn spec_grant_by_paired(
    w: WrapperMessageView,
    challenge: Seq<u8>,
    m: Map<Seq<char>, PairedServerView>,
) -> bool {
    exists|k: Seq<char>|
        m.contains_key(k) && (spec_server_key(m[k].public_key) matches Some(pk)
            && spec_wrapper_signature_ok(w, pk) && (w.payload matches Some(PayloadView::AuthGrant(g))
            && spec_signature_valid(pk, challenge, g.signed_challenge)))
}

/// The hexadecimal key a pairing records is read back as that key: a
/// phone paired with key `k` is recognized by `k`.
pub proof fn lemma_recorded_key_recognized(k: Seq<u8>)
    requires
        k.len() == 32,
    ensures
        spec_server_key(hex_text(k)) == Some(k),
{
    crate::text::lemma_hex_roundtrip(k);
}

/// Replay protection: a packet seen once is refused when it comes again.
pub proof fn lemma_replay_refused(seen: Set<Seq<u8>>, temporal_identifier: Seq<u8>, ciphertext: Seq<u8>)
    ensures
        seen.insert(spec_fingerprint(temporal_identifier, ciphertext)).contains(
            spec_fingerprint(temporal_identifier, ciphertext),
        ),
{
}

/// Decodes a paired server's hex key; `None` unless it is 32 bytes.
pub fn decode_server_key(public_key_hex: &str) -> (r: Option<[u8; 32]>)
    ensures
        r is Some <==> spec_server_key(public_key_hex@) is Some,
        r matches Some(k) ==> spec_server_key(public_key_hex@) == Some(k@),
{
    match hex_decode(public_key_hex) {
        Some(b) => {
            if b.len() == 32 {
                let k = take32(b.as_slice());
                assert(b@.take(32) =~= b@);
                Some(k)
            } else {
                None
            }
        },
        None => None,
    }
}

/// The answer given before any broadcast, when there is nothing to
/// broadcast: an unhealthy daemon reports an error (its initialisation
/// error, or a generic one); with no pairing, or no pairing allowed to
/// authenticate the user, the PAM module is told to move on.
pub fn auth_precheck(healthy: bool, init_error: Option<&str>, servers: &PairedServers, username: &str, challenge: &[u8; 32]) -> (r: Option<PamAuthenticateResponse>)
    ensures
        !healthy ==> (r matches Some(resp) && resp.outcome == PAM_OUTCOME_ERROR && resp.challenge@
            == challenge@ && resp.detail@ == match init_error {
            Some(e) => e@,
            None => "Keypair unavailable. Please run tapauth-config to regenerate keys."@,
        }),
        healthy && servers@.len() == 0 ==> (r matches Some(resp) && resp.outcome == PAM_OUTCOME_IGNORE
            && resp.challenge@ == challenge@ && resp.detail@ == "No paired devices configured"@),
        healthy && servers@.len() != 0 && !spec_some_server_allows(servers@, username@) ==> (r matches Some(resp)
            && resp.outcome == PAM_OUTCOME_IGNORE && resp.challenge@ == challenge@ && resp.detail@
            == "No servers authorized for user "@ + username@),
        healthy && servers@.len() != 0 && spec_some_server_allows(servers@, username@) ==> r is None,
{
    let ch = copy_range(challenge.as_slice(), 0, 32);
    assert(ch@ =~= challenge@);
    if !healthy {
        let detail = match init_error {
            Some(e) => e.to_owned(),
            None => "Keypair unavailable. Please run tapauth-config to regenerate keys.".to_owned(),
        };
        return Some(PamAuthenticateResponse { outcome: PAM_OUTCOME_ERROR, detail, challenge: ch });
    }
    if servers.len() == 0 {
        return Some(
            PamAuthenticateResponse {
                outcome: PAM_OUTCOME_IGNORE,
                detail: "No paired devices configured".to_owned(),
                challenge: ch,
            },
        );
    }
    let entries = servers.entries();
    let mut i: usize = 0;
    while i < entries.len()
        invariant
            i <= entries@.len(),
            healthy,
            servers@.len() != 0,
            forall|j: int|
                0 <= j < entries@.len() ==> servers@.contains_key(#[trigger] entries@[j].0@)
                    && servers@[entries@[j].0@] == entries@[j].1@,
            forall|k: Seq<char>| #[trigger] servers@.contains_key(k) ==> crate::string_map::entry_ids(entries@).contains(k),
            forall|j: int| 0 <= j < i ==> !spec_user_allowed(#[trigger] entries@[j].1@.allowed_users, username@),
        decreases entries@.len() - i,
    {
        if entries[i].1.is_user_allowed(username) {
            assert(servers@.contains_key(entries@[i as int].0@));
            return None;
        }
        i = i + 1;
    }
    assert(!spec_some_server_allows(servers@, username@)) by {
        if spec_some_server_allows(servers@, username@) {
            let k = choose|k: Seq<char>| servers@.contains_key(k) && spec_user_allowed(servers@[k].allowed_users, username@);
            let ids = crate::string_map::entry_ids(entries@);
            assert(ids.contains(k));
            let j = choose|j: int| 0 <= j < ids.len() && ids[j] == k;
            assert(entries@[j].0@ == k);
        }
    }
    let mut detail = "No servers authorized for user ".to_owned();
    detail.append(username);
    Some(PamAuthenticateResponse { outcome: PAM_OUTCOME_IGNORE, detail, challenge: ch })
}

/// Whether some paired server's key verifies the wrapper's signature.
pub fn verify_response_signature(wrapper: &WrapperMessage, servers: &PairedServers) -> (r: bool)
    ensures
        r == spec_signed_by_paired(wrapper@, servers@),
{
    let entries = servers.entries();
    let mut i: usize = 0;
    while i < entries.len()
        invariant
            i <= entries@.len(),
            forall|j: int|
                0 <= j < entries@.len() ==> servers@.contains_key(#[trigger] entries@[j].0@)
                    && servers@[entries@[j].0@] == entries@[j].1@,
            forall|k: Seq<char>| #[trigger] servers@.contains_key(k) ==> crate::string_map::entry_ids(entries@).contains(k),
            forall|j: int|
                0 <= j < i ==> !(spec_server_key(#[trigger] entries@[j].1@.public_key) matches Some(pk)
                    && spec_wrapper_signature_ok(wrapper@, pk)),
        decreases entries@.len() - i,
    {
        match decode_server_key(entries[i].1.public_key.as_str()) {
            Some(pk) => {
                if verify_wrapper_signature(wrapper, &pk).is_ok() {
                    assert(servers@.contains_key(entries@[i as int].0@));
                    return true;
                }
            },
            None => {},
        }
        i = i + 1;
    }
    assert(!spec_signed_by_paired(wrapper@, servers@)) by {
        if spec_signed_by_paired(wrapper@, servers@) {
            let k = choose|k: Seq<char>|
                servers@.contains_key(k) && (spec_server_key(servers@[k].public_key) matches Some(pk)
                    && spec_wrapper_signature_ok(wrapper@, pk));
            let ids = crate::string_map::entry_ids(entries@);
            assert(ids.contains(k));
            let j = choose|j: int| 0 <= j < ids.len() && ids[j] == k;
            assert(entries@[j].0@ == k);
        }
    }
    false
}

/// Whether some paired server's key verifies the granting wrapper and its
/// signature of the challenge.
pub fn grant_is_valid(wrapper: &WrapperMessage, challenge: &[u8; 32], servers: &PairedServers) -> (r: bool)
    ensures
        r == spec_grant_by_paired(wrapper@, challenge@, servers@),
{
    let entries = servers.entries();
    let mut i: usize = 0;
    while i < entries.len()
        invariant
            i <= entries@.len(),
            forall|j: int|
                0 <= j < entries@.len() ==> servers@.contains_key(#[trigger] entries@[j].0@)
                    && servers@[entries@[j].0@] == entries@[j].1@,
            forall|k: Seq<char>| #[trigger] servers@.contains_key(k) ==> crate::string_map::entry_ids(entries@).contains(k),
            forall|j: int|
                0 <= j < i ==> !(spec_server_key(#[trigger] entries@[j].1@.public_key) matches Some(pk)
                    && spec_wrapper_signature_ok(wrapper@, pk) && (wrapper@.payload matches Some(
                    PayloadView::AuthGrant(g),
                ) && spec_signature_valid(pk, challenge@, g.signed_challenge))),
        decreases entries@.len() - i,
    {
        match decode_server_key(entries[i].1.public_key.as_str()) {
            Some(pk) => {
                if verify_auth_grant(wrapper, challenge.as_slice(), &pk).is_ok() {
                    assert(servers@.contains_key(entries@[i as int].0@));
                    return true;
                }
            },
            None => {},
        }
        i = i + 1;
    }
    assert(!spec_grant_by_paired(wrapper@, challenge@, servers@)) by {
        if spec_grant_by_paired(wrapper@, challenge@, servers@) {
            let k = choose|k: Seq<char>|
                servers@.contains_key(k) && (spec_server_key(servers@[k].public_key) matches Some(pk)
                    && spec_wrapper_signature_ok(wrapper@, pk) && (wrapper@.payload matches Some(
                    PayloadView::AuthGrant(g),
                ) && spec_signature_valid(pk, challenge@, g.signed_challenge)));
            let ids = crate::string_map::entry_ids(entries@);
            assert(ids.contains(k));
            let j = choose|j: int| 0 <= j < ids.len() && ids[j] == k;
            assert(entries@[j].0@ == k);
        }
    }
    false
}

/// What to do with an authenticated response.
#[derive(Debug, Clone, Copy, PartialEq, Eq)]
pub enum ResponseDecision {
    /// A grant that a paired server signed for this challenge.
    Granted,
    /// A denial of this challenge.
    ExplicitDenial,
    /// Anything else: keep waiting.
    Ignore,
}

/// The decision on a response.
pub open spec fn spec_classify(w: WrapperMessageView, challenge: Seq<u8>, m: Map<Seq<char>, PairedServerView>) -> ResponseDecision {
    match w.payload {
        Some(PayloadView::AuthGrant(_)) => if spec_grant_by_paired(w, challenge, m) {
            ResponseDecision::Granted
        } else {
            ResponseDecision::Ignore
        },
        Some(PayloadView::AuthDenial(d)) => if d.challenge == challenge {
            ResponseDecision::ExplicitDenial
        } else {
            ResponseDecision::Ignore
        },
        _ => ResponseDecision::Ignore,
    }
}

/// Decides on a response whose signature a paired server verified: a grant
/// counts only when a paired server signed this challenge; a denial only
/// when it names this challenge; anything else is ignored.
pub fn classify_response(wrapper: &WrapperMessage, challenge: &[u8; 32], servers: &PairedServers) -> (r: ResponseDecision)
    ensures
        r == spec_classify(wrapper@, challenge@, servers@),
{
    match &wrapper.payload {
        Some(Payload::AuthGrant(_)) => {
            if grant_is_valid(wrapper, challenge, servers) {
                ResponseDecision::Granted
            } else {
                ResponseDecision::Ignore
            }
        },
        Some(Payload::AuthDenial(d)) => {
            if bytes_eq(d.challenge.as_slice(), challenge.as_slice()) {
                ResponseDecision::ExplicitDenial
            } else {
                ResponseDecision::Ignore
            }
        },
        _ => ResponseDecision::Ignore,
    }
}

/// The fingerprints of the responses already seen, to drop replays.
pub struct NonceCache {
    seen: Vec<Vec<u8>>,
}

/// The fingerprint of a response: its temporal identifier followed by its
/// ciphertext.
pub open spec fn spec_fingerprint(temporal_identifier: Seq<u8>, ciphertext: Seq<u8>) -> Seq<u8> {
    temporal_identifier + ciphertext
}

impl View for NonceCache {
    type V = Set<Seq<u8>>;

    closed spec fn view(&self) -> Set<Seq<u8>> {
        Set::new(|f: Seq<u8>| exists|i: int| 0 <= i < self.seen@.len() && self.seen@[i]@ == f)
    }
}

impl NonceCache {
    /// Nothing seen yet.
    pub fn new() -> (r: Self)
        ensures
            r@ == Set::<Seq<u8>>::empty(),
    {
        let r = NonceCache { seen: Vec::new() };
        assert(r@ =~= Set::<Seq<u8>>::empty());
        r
    }

    /// Records a response's fingerprint; `false` when it was seen before (a
    /// replay, to be dropped).
    pub fn insert(&mut self, temporal_identifier: &[u8], ciphertext: &[u8]) -> (r: bool)
        ensures
            r == !old(self)@.contains(spec_fingerprint(temporal_identifier@, ciphertext@)),
            final(self)@ == old(self)@.insert(spec_fingerprint(temporal_identifier@, ciphertext@)),
    {
        let mut f = copy_range(temporal_identifier, 0, temporal_identifier.len());
        crate::wire::append_bytes(&mut f, ciphertext);
        assert(f@ =~= spec_fingerprint(temporal_identifier@, ciphertext@));
        let mut i: usize = 0;
        while i < self.seen.len()
            invariant
                i <= self.seen@.len(),
                *self == *old(self),
                f@ == spec_fingerprint(temporal_identifier@, ciphertext@),
                forall|j: int| 0 <= j < i ==> self.seen@[j]@ != f@,
            decreases self.seen@.len() - i,
        {
            if bytes_eq(self.seen[i].as_slice(), f.as_slice()) {
                assert(self.seen@[i as int]@ == f@);
                assert(self@.contains(f@));
                assert(self@.insert(f@) =~= self@);
                return false;
            }
            i = i + 1;
        }
        let ghost before = self@;
        assert(!before.contains(f@));
        self.seen.push(f);
        proof {
            assert forall|x: Seq<u8>| self@.contains(x) <==> before.insert(f@).contains(x) by {
                if self@.contains(x) {
                    let j = choose|j: int| 0 <= j < self.seen@.len() && self.seen@[j]@ == x;
                    if j < self.seen@.len() - 1 {
                        assert(before.contains(x));
                    }
                }
                if before.contains(x) {
                    let j = choose|j: int| 0 <= j < old(self).seen@.len() && old(self).seen@[j]@ == x;
                    assert(self.seen@[j] == old(self).seen@[j]);
                }
                if x == f@ {
                    assert(self.seen@[self.seen@.len() - 1]@ == x);
                }
            }
            assert(self@ =~= before.insert(f@));
        }
        true
    }
}

/// How an authentication attempt ended.
#[derive(Debug, Clone)]
pub enum AttemptResult {
    /// A paired server granted.
    Authenticated,
    /// The attempt failed.
    Failed(AuthHandlerError),
    /// The overall timeout elapsed.
    TimedOut,
}

/// The answer to the PAM module for an attempt's result: success, an
/// explicit denial, another failure (reported as a denial), or a timeout,
/// which is a denial too: no device answered in time.
pub fn attempt_response(result: &AttemptResult, username: &str, challenge: &[u8; 32]) -> (r: PamAuthenticateResponse)
    ensures
        r.challenge@ == challenge@,
        result is Authenticated ==> r.outcome == PAM_OUTCOME_SUCCESS && r.detail@
            == "Authenticated user "@ + username@ + " successfully"@,
        result matches AttemptResult::Failed(e) ==> r.outcome == PAM_OUTCOME_DENIED,
        result matches AttemptResult::Failed(AuthHandlerError::ExplicitDenial) ==> r.detail@
            == "Authentication explicitly denied by user"@,
        result matches AttemptResult::Failed(e) ==> (e is ExplicitDenial || r.detail@
            == "Authentication failed: "@ + spec_auth_error_message(*e)),
        result is TimedOut ==> r.outcome == PAM_OUTCOME_DENIED && r.detail@ == "Authentication timeout"@,
{
    let ch = copy_range(challenge.as_slice(), 0, 32);
    assert(ch@ =~= challenge@);
    match result {
        AttemptResult::Authenticated => {
            let mut detail = "Authenticated user ".to_owned();
            detail.append(username);
            detail.append(" successfully");
            PamAuthenticateResponse { outcome: PAM_OUTCOME_SUCCESS, detail, challenge: ch }
        },
        AttemptResult::Failed(AuthHandlerError::ExplicitDenial) => PamAuthenticateResponse {
            outcome: PAM_OUTCOME_DENIED,
            detail: "Authentication explicitly denied by user".to_owned(),
            challenge: ch,
        },
        AttemptResult::Failed(e) => {
            let mut detail = "Authentication failed: ".to_owned();
            let m = e.message();
            detail.append(m.as_str());
            PamAuthenticateResponse { outcome: PAM_OUTCOME_DENIED, detail, challenge: ch }
        },
        AttemptResult::TimedOut => PamAuthenticateResponse {
            outcome: PAM_OUTCOME_DENIED,
            detail: "Authentication timeout".to_owned(),
            challenge: ch,
        },
    }
}

/// The answer for a handler result: handler errors become `Error` answers.
pub fn flatten_auth_result(result: Result<PamAuthenticateResponse, AuthHandlerError>) -> (r: PamAuthenticateResponse)
    ensures
        result matches Ok(resp) ==> r == resp,
        result matches Err(e) ==> (r.outcome == PAM_OUTCOME_ERROR && r.challenge@.len() == 0
            && r.detail@ == "Internal error: "@ + spec_auth_error_message(e)),
{
    match result {
        Ok(resp) => resp,
        Err(e) => {
            let mut detail = "Internal error: ".to_owned();
            let m = e.message();
            detail.append(m.as_str());
            pam_response(PamOutcome::Error, detail)
        },
    }
}

/// The initialisation error after a reload, naming what is missing.
pub fn reload_init_error(keypair_loaded: bool, csk_loaded: bool) -> (r: Option<String>)
    ensures
        keypair_loaded && csk_loaded ==> r is None,
        !keypair_loaded && csk_loaded ==> (r matches Some(s) && s@
            == "Keypair unavailable after reload. Use tapauth-config to regenerate keys."@),
        keypair_loaded && !csk_loaded ==> (r matches Some(s) && s@
            == "CSK unavailable after reload. Use tapauth-config to regenerate keys."@),
        !keypair_loaded && !csk_loaded ==> (r matches Some(s) && s@
            == "Keypair and CSK unavailable after reload. Use tapauth-config to regenerate keys."@),
{
    if keypair_loaded && csk_loaded {
        None
    } else if !keypair_loaded && csk_loaded {
        Some("Keypair unavailable after reload. Use tapauth-config to regenerate keys.".to_owned())
    } else if keypair_loaded {
        Some("CSK unavailable after reload. Use tapauth-config to regenerate keys.".to_owned())
    } else {
        Some(
            "Keypair and CSK unavailable after reload. Use tapauth-config to regenerate keys.".to_owned(),
        )
    }
}

/// What the authentication loop does with an answer that arrived.
#[derive(Debug, Clone, Copy, PartialEq, Eq)]
pub enum ResponseStep {
    /// Nothing to act on (a replay, or a signature no paired server made):
    /// send the request again as the next attempt.
    NextAttempt,
    /// A signed answer that decides nothing: send the request again, as
    /// the same attempt.
    SendAgain,
    /// A paired server granted this challenge.
    Granted,
    /// The challenge was denied.
    Denied,
    /// The answer could not be opened: the authentication fails.
    Fail(ProtocolError),
}

/// The step for the answer `p`, with the fingerprints `seen` before it.
pub open spec fn spec_response_step(
    seen: Set<Seq<u8>>,
    csk: Seq<u8>,
    p: EncryptedPacketView,
    challenge: Seq<u8>,
    m: Map<Seq<char>, PairedServerView>,
) -> ResponseStep {
    if seen.contains(spec_fingerprint(p.temporal_identifier, p.ciphertext)) {
        ResponseStep::NextAttempt
    } else {
        match spec_prefixed_packet_wrapper(csk, p.ciphertext) {
            None => if spec_open_prefixed(csk, p.ciphertext) is None {
                ResponseStep::Fail(ProtocolError::Crypto(CryptoError::DecryptionFailed))
            } else {
                ResponseStep::Fail(ProtocolError::Deserialization(DecodeError))
            },
            Some(w) => if !spec_signed_by_paired(w, m) {
                ResponseStep::NextAttempt
            } else {
                match spec_classify(w, challenge, m) {
                    ResponseDecision::Granted => ResponseStep::Granted,
                    ResponseDecision::ExplicitDenial => ResponseStep::Denied,
                    ResponseDecision::Ignore => ResponseStep::SendAgain,
                }
            },
        }
    }
}

/// Judges an answer: a replay is dropped; the answer is opened under the
/// client key (failing the authentication when it cannot be); one no paired
/// server signed is dropped; then a grant of this challenge by a paired
/// server succeeds, a denial of it fails, and anything else is ignored.
/// The answer's fingerprint is remembered.
pub fn response_step(
    seen: &mut NonceCache,
    csk: &ClientSymmetricKey,
    packet: &EncryptedPacket,
    challenge: &[u8; 32],
    servers: &PairedServers,
) -> (r: ResponseStep)
    ensures
        r == spec_response_step(old(seen)@, csk@, packet@, challenge@, servers@),
        final(seen)@ == old(seen)@.insert(spec_fingerprint(packet.temporal_identifier@, packet.ciphertext@)),
{
    if !seen.insert(packet.temporal_identifier.as_slice(), packet.ciphertext.as_slice()) {
        return ResponseStep::NextAttempt;
    }
    let wrapper = match decrypt_encrypted_packet_with_csk_nonce(csk, packet) {
        Ok(w) => w,
        Err(e) => {
            return ResponseStep::Fail(e);
        },
    };
    if !verify_response_signature(&wrapper, servers) {
        return ResponseStep::NextAttempt;
    }
    match classify_response(&wrapper, challenge, servers) {
        ResponseDecision::Granted => ResponseStep::Granted,
        ResponseDecision::ExplicitDenial => ResponseStep::Denied,
        ResponseDecision::Ignore => ResponseStep::SendAgain,
    }
}

/// The authentications that can be cancelled: each request id with the
/// ticket under which the caller keeps the means of stopping it.
pub struct CancelRegistry {
    tickets: StringMap<u64>,
}

impl View for CancelRegistry {
    type V = Map<Seq<char>, u64>;

    closed spec fn view(&self) -> Map<Seq<char>, u64> {
        self.tickets@
    }
}

impl CancelRegistry {
    /// No authentication in progress.
    pub fn new() -> (r: Self)
        ensures
            r@ == Map::<Seq<char>, u64>::empty(),
    {
        CancelRegistry { tickets: StringMap::new() }
    }

    /// Records the authentication `request_id` under `ticket`, replacing an
    /// earlier one with that id.
    pub fn register(&mut self, request_id: String, ticket: u64)
        ensures
            final(self)@ == old(self)@.insert(request_id@, ticket),
    {
        self.tickets.insert(request_id, ticket);
    }

    /// Forgets the authentication `request_id` (it ended); its ticket, if
    /// it was recorded.
    pub fn remove(&mut self, request_id: &str) -> (r: Option<u64>)
        ensures
            final(self)@ == old(self)@.remove(request_id@),
            r == (if old(self)@.contains_key(request_id@) {
                Some(old(self)@[request_id@])
            } else {
                None::<u64>
            }),
    {
        self.tickets.remove(request_id)
    }

    /// A cancellation of `request_id`: the request is forgotten, and its
    /// ticket is returned for the caller to stop it; the answer says
    /// whether it was in progress.
    pub fn handle_pam_cancel(&mut self, request_id: &str) -> (r: (Option<u64>, PamAuthenticateResponse))
        ensures
            final(self)@ == old(self)@.remove(request_id@),
            r.0 == (if old(self)@.contains_key(request_id@) {
                Some(old(self)@[request_id@])
            } else {
                None::<u64>
            }),
            r.1.outcome == PAM_OUTCOME_IGNORE,
            r.1.challenge@.len() == 0,
            old(self)@.contains_key(request_id@) ==> r.1.detail@ == "Cancel forwarded"@,
            !old(self)@.contains_key(request_id@) ==> r.1.detail@ == "No matching request to cancel"@,
    {
        let ticket = self.remove(request_id);
        let found = ticket.is_some();
        (ticket, cancel_response(found))
    }
}

/// What the authentication loop does next.
#[derive(Debug, Clone)]
pub enum LoopStep {
    /// Send the request and wait this long for an answer.
    Send { wait_ms: u64 },
    /// The attempt is over.
    Done(AttemptResult),
}

/// What came of waiting for an answer.
#[derive(Debug, Clone, Copy, PartialEq, Eq)]
pub enum Heard {
    /// No answer in time.
    Nothing,
    /// An answer, judged by [`response_step`].
    Answer(ResponseStep),
}

/// Before each send of attempt `attempt`, `elapsed_ms` into a session of
/// `session_ms`: a session that has run its time fails with a timeout;
/// otherwise the request goes out and the wait is the retry interval of
/// the attempt.
pub fn before_send(attempt: u32, elapsed_ms: u64, session_ms: u64) -> (r: LoopStep)
    ensures
        elapsed_ms >= session_ms ==> r matches LoopStep::Done(AttemptResult::Failed(AuthHandlerError::Timeout)),
        elapsed_ms < session_ms ==> (r matches LoopStep::Send { wait_ms } && wait_ms == spec_client_retry_ms(attempt)),
{
    if elapsed_ms >= session_ms {
        LoopStep::Done(AttemptResult::Failed(AuthHandlerError::Timeout))
    } else {
        LoopStep::Send { wait_ms: get_client_retry_interval(attempt) }
    }
}

/// The next attempt number, counting up to the largest.
pub open spec fn spec_next_attempt(attempt: u32) -> u32 {
    if attempt < u32::MAX {
        (attempt + 1) as u32
    } else {
        attempt
    }
}

/// After waiting during attempt `attempt`: silence, a replay or an answer
/// no paired server signed moves on to the next attempt; a signed answer
/// that decides nothing sends again as the same attempt; a grant
/// authenticates; a denial fails as an explicit denial; an answer that
/// could not be opened fails the attempt. `Ok` is the next attempt's
/// number, `Err` the end of the attempt.
pub fn after_wait(attempt: u32, heard: Heard) -> (r: Result<u32, AttemptResult>)
    ensures
        (heard == Heard::Nothing || heard == Heard::Answer(ResponseStep::NextAttempt)) ==> r == Ok::<
            u32,
            AttemptResult,
        >(spec_next_attempt(attempt)),
        heard == Heard::Answer(ResponseStep::SendAgain) ==> r == Ok::<u32, AttemptResult>(attempt),
        heard == Heard::Answer(ResponseStep::Granted) ==> r matches Err(AttemptResult::Authenticated),
        heard == Heard::Answer(ResponseStep::Denied) ==> r matches Err(
            AttemptResult::Failed(AuthHandlerError::ExplicitDenial),
        ),
        heard matches Heard::Answer(ResponseStep::Fail(e)) ==> (r matches Err(
            AttemptResult::Failed(AuthHandlerError::Protocol(f)),
        ) && f == e),
{
    let next = if attempt < u32::MAX {
        attempt + 1
    } else {
        attempt
    };
    match heard {
        Heard::Nothing => Ok(next),
        Heard::Answer(ResponseStep::NextAttempt) => Ok(next),
        Heard::Answer(ResponseStep::SendAgain) => Ok(attempt),
        Heard::Answer(ResponseStep::Granted) => Err(AttemptResult::Authenticated),
        Heard::Answer(ResponseStep::Denied) => Err(AttemptResult::Failed(AuthHandlerError::ExplicitDenial)),
        Heard::Answer(ResponseStep::Fail(e)) => Err(AttemptResult::Failed(AuthHandlerError::Protocol(e))),
    }
}

} // verus!
