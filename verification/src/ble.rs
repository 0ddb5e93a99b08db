//! The Bluetooth LE transport's decisions: retrying the advertisement,
//! the grace period before the radio is released, what the GATT service
//! holds (the request the phones read, their queued answers, the
//! confirmation read back after a grant), which answer is taken, and the
//! confirmation itself. Driving the radio is the caller's part.
use crate::crypto::encryption::{encrypt_with_csk_and_random_nonce, spec_open_prefixed};
use crate::crypto::keys::ClientSymmetricKey;
use crate::crypto::primitives::aes_gcm_max_len;
use crate::crypto::CryptoError;
use crate::daemon::peer::{contains_text, parse_u64, spec_contains, spec_parse_u64};
use crate::pb::wrapper_message::{spec_encode_wrapper, Payload, PayloadView};
use crate::pb::{
    encrypted_packet_wf, lemma_encrypted_packet_roundtrip, spec_decode_encrypted_packet, EncryptedPacket,
    EncryptedPacketView, GrantConfirmationView,
};
use crate::protocol::messages::create_grant_confirmation;
use crate::protocol::packet::{
    decrypt_encrypted_packet_with_csk_nonce, spec_prefixed_packet_wrapper, spec_wrapped,
    wrap_grant_confirmation,
};
use crate::protocol::ProtocolError;
use vstd::prelude::*;

verus! {

/// How many times advertising is tried before giving up.
pub const ADVERTISE_ATTEMPTS: u32 = 5;

/// The pause after a "busy" adapter, in milliseconds.
pub const BUSY_RETRY_MS: u64 = 150;

/// The pause after any other advertising failure, in milliseconds.
pub const OTHER_RETRY_MS: u64 = 100;

/// How long the radio stays up after a cancellation, in milliseconds,
/// unless configured otherwise.
pub const DEFAULT_GRACE_MS: u64 = 300;

/// What to do after advertising attempt number `attempt` (counted from 1)
/// failed.
#[derive(Debug, Clone, Copy, PartialEq, Eq)]
pub enum AdvertiseStep {
    /// Wait this long, then try again.
    Retry { delay_ms: u64 },
    /// No attempts are left.
    GiveUp,
}

/// Whether an adapter error says the adapter is busy.
pub open spec fn spec_adapter_busy(error: Seq<char>) -> bool {
    spec_contains(error, "Busy"@) || spec_contains(error, "0x0a"@)
}

/// The step after a failed advertising attempt: retry while attempts are
/// left, sooner when the adapter was merely busy.
pub fn advertise_step(attempt: u32, error: &str) -> (r: AdvertiseStep)
    ensures
        attempt >= ADVERTISE_ATTEMPTS ==> r == AdvertiseStep::GiveUp,
        attempt < ADVERTISE_ATTEMPTS && spec_adapter_busy(error@) ==> r == (AdvertiseStep::Retry {
            delay_ms: BUSY_RETRY_MS,
        }),
        attempt < ADVERTISE_ATTEMPTS && !spec_adapter_busy(error@) ==> r == (AdvertiseStep::Retry {
            delay_ms: OTHER_RETRY_MS,
        }),
{
    if attempt >= ADVERTISE_ATTEMPTS {
        AdvertiseStep::GiveUp
    } else if contains_text(error, "Busy") || contains_text(error, "0x0a") {
        AdvertiseStep::Retry { delay_ms: BUSY_RETRY_MS }
    } else {
        AdvertiseStep::Retry { delay_ms: OTHER_RETRY_MS }
    }
}

/// The message when advertising could not be started.
pub fn advertise_failure_message(error: &str) -> (r: String)
    ensures
        r@ == "Failed to start BLE advertising after 5 attempts: "@ + error@,
{
    let mut m = "Failed to start BLE advertising after 5 attempts: ".to_owned();
    m.append(error);
    m
}

/// The grace period before the radio is released: the configured number
/// of milliseconds when it parses, else the default.
pub fn grace_ms(setting: Option<&str>) -> (r: u64)
    ensures
        r == match setting {
            Some(s) => match spec_parse_u64(s@) {
                Some(v) => v,
                None => DEFAULT_GRACE_MS,
            },
            None => DEFAULT_GRACE_MS,
        },
{
    match setting {
        Some(s) => match parse_u64(s) {
            Some(v) => v,
            None => DEFAULT_GRACE_MS,
        },
        None => DEFAULT_GRACE_MS,
    }
}

/// The confirmation of a grant that the phone reads back: the unsigned
/// wrapped confirmation of the challenge, encrypted under the client key
/// with a random nonce, tagged with the request's temporal identifier and
/// cipher.
pub fn ble_confirmation_packet(csk: &ClientSymmetricKey, challenge: &[u8; 32], request: &EncryptedPacket) -> (r: Result<EncryptedPacket, ProtocolError>)
    ensures
        r matches Err(e) ==> e == ProtocolError::Crypto(CryptoError::RandomGenerationFailed) || (e
            == ProtocolError::Crypto(CryptoError::EncryptionFailed) && spec_encode_wrapper(
            spec_wrapped(PayloadView::GrantConfirmation(GrantConfirmationView { challenge: challenge@ })),
        ).len() > aes_gcm_max_len()),
        r matches Ok(p) ==> p.temporal_identifier@ == request.temporal_identifier@
            && p.encryption_algorithm == request.encryption_algorithm && spec_open_prefixed(
            csk@,
            p.ciphertext@,
        ) == Some(
            spec_encode_wrapper(spec_wrapped(PayloadView::GrantConfirmation(GrantConfirmationView { challenge: challenge@ }))),
        ),
{
    let confirmation = match create_grant_confirmation(challenge.as_slice()) {
        Ok(c) => c,
        Err(e) => {
            return Err(e);
        },
    };
    let wrapper = wrap_grant_confirmation(confirmation);
    let plaintext = wrapper.encode_to_vec();
    let ciphertext = match encrypt_with_csk_and_random_nonce(csk, plaintext.as_slice()) {
        Ok(c) => c,
        Err(e) => {
            return Err(ProtocolError::Crypto(e));
        },
    };
    let temporal_identifier = crate::wire::copy_range(
        request.temporal_identifier.as_slice(),
        0,
        request.temporal_identifier.len(),
    );
    assert(temporal_identifier@ =~= request.temporal_identifier@);
    Ok(EncryptedPacket { temporal_identifier, encryption_algorithm: request.encryption_algorithm, ciphertext })
}

/// Whether bytes a phone wrote back are a grant for this client: they
/// decode as a packet whose nonce-prefixed ciphertext opens under the
/// client key to a wrapper carrying a grant.
pub open spec fn spec_ble_grant_response(csk: Seq<u8>, response: Seq<u8>) -> bool {
    match spec_decode_encrypted_packet(response) {
        Some(p) => match spec_prefixed_packet_wrapper(csk, p.ciphertext) {
            Some(w) => w.payload matches Some(PayloadView::AuthGrant(_)),
            None => false,
        },
        None => false,
    }
}

/// Looks at one response a phone wrote to the response characteristic:
/// the packet when it is a grant for this client (its signature is
/// checked later, with the other channels' answers); `None` when it should
/// be skipped in favour of other devices' answers.
pub fn ble_grant_response(csk: &ClientSymmetricKey, response: &[u8]) -> (r: Option<EncryptedPacket>)
    ensures
        r is Some <==> spec_ble_grant_response(csk@, response@),
        r matches Some(p) ==> spec_decode_encrypted_packet(response@) == Some(p@),
{
    let packet = match EncryptedPacket::decode(response) {
        Ok(p) => p,
        Err(_) => {
            return None;
        },
    };
    let wrapper = match decrypt_encrypted_packet_with_csk_nonce(csk, &packet) {
        Ok(w) => w,
        Err(_) => {
            return None;
        },
    };
    match wrapper.payload {
        Some(Payload::AuthGrant(_)) => Some(packet),
        _ => None,
    }
}

/// The byte views of a list of byte vectors.
pub open spec fn byte_seqs(v: Seq<Vec<u8>>) -> Seq<Seq<u8>> {
    v.map_values(|b: Vec<u8>| b@)
}

/// How many of `rs`, from the front, are not a grant for this client: the
/// position of the first grant, or the length when there is none.
pub open spec fn first_grant(csk: Seq<u8>, rs: Seq<Seq<u8>>) -> int
    decreases rs.len(),
{
    if rs.len() == 0 {
        0
    } else if spec_ble_grant_response(csk, rs[0]) {
        0
    } else {
        1 + first_grant(csk, rs.drop_first())
    }
}

/// Whether `c` is a confirmation of `challenge` for the request `request`:
/// an encrypted packet with the request's identifier and cipher whose
/// nonce-prefixed ciphertext opens under the client key to the wrapped,
/// unsigned confirmation.
pub open spec fn is_confirmation(csk: Seq<u8>, challenge: Seq<u8>, request: EncryptedPacketView, c: Seq<u8>) -> bool {
    spec_decode_encrypted_packet(c) matches Some(q) && q.temporal_identifier == request.temporal_identifier
        && q.encryption_algorithm == request.encryption_algorithm && spec_open_prefixed(csk, q.ciphertext) == Some(
        spec_encode_wrapper(spec_wrapped(PayloadView::GrantConfirmation(GrantConfirmationView { challenge }))),
    )
}

/// What the GATT service holds while an authentication waits on Bluetooth:
/// the request the phones read, the answers they wrote (oldest first), and
/// the confirmation a phone reads back once a grant was taken.
pub struct GattState {
    request: Vec<u8>,
    responses: Vec<Vec<u8>>,
    confirmation: Option<Vec<u8>>,
}

/// The value of a [`GattState`].
pub struct GattStateView {
    pub request: Seq<u8>,
    pub responses: Seq<Seq<u8>>,
    pub confirmation: Option<Seq<u8>>,
}

impl View for GattState {
    type V = GattStateView;

    closed spec fn view(&self) -> GattStateView {
        GattStateView {
            request: self.request@,
            responses: byte_seqs(self.responses@),
            confirmation: match &self.confirmation {
                Some(c) => Some(c@),
                None => None,
            },
        }
    }
}

impl GattState {
    /// The state for the encoded request `request`: no answer, no
    /// confirmation yet.
    pub fn new(request: Vec<u8>) -> (r: Self)
        ensures
            r@.request == request@,
            r@.responses.len() == 0,
            r@.confirmation is None,
    {
        let r = GattState { request, responses: Vec::new(), confirmation: None };
        assert(r@.responses =~= Seq::<Seq<u8>>::empty());
        r
    }

    /// What a phone reading the request characteristic gets.
    pub fn read_request(&self) -> (r: Vec<u8>)
        ensures
            r@ == self@.request,
    {
        let r = crate::wire::copy_range(self.request.as_slice(), 0, self.request.len());
        assert(r@ =~= self@.request);
        r
    }

    /// A phone wrote `value` to the response characteristic; it is queued.
    pub fn write_response(&mut self, value: Vec<u8>)
        ensures
            final(self)@.request == old(self)@.request,
            final(self)@.confirmation == old(self)@.confirmation,
            final(self)@.responses == old(self)@.responses.push(value@),
    {
        let ghost before = self.responses@;
        self.responses.push(value);
        assert(byte_seqs(self.responses@) =~= byte_seqs(before).push(self.responses@.last()@));
    }

    /// What a phone reading the confirmation characteristic gets: the
    /// confirmation, or nothing while there is none.
    pub fn read_confirmation(&self) -> (r: Vec<u8>)
        ensures
            r@ == match self@.confirmation {
                Some(c) => c,
                None => Seq::<u8>::empty(),
            },
    {
        match &self.confirmation {
            Some(c) => {
                let r = crate::wire::copy_range(c.as_slice(), 0, c.len());
                assert(r@ =~= c@);
                r
            },
            None => Vec::new(),
        }
    }

    /// Takes queued answers, oldest first, until one is a grant for this
    /// client; the others (from other devices, undecodable, or not grants)
    /// are dropped. When a grant is found, the confirmation of `challenge`
    /// for `request` is prepared for the phone to read (it stays as it was
    /// if encrypting it fails) and the grant's packet is returned; its
    /// signature is for the caller to check.
    pub fn take_grant(&mut self, csk: &ClientSymmetricKey, challenge: &[u8; 32], request: &EncryptedPacket) -> (r: Option<EncryptedPacket>)
        ensures
            final(self)@.request == old(self)@.request,
            ({
                let k = first_grant(csk@, old(self)@.responses);
                &&& 0 <= k <= old(self)@.responses.len()
                &&& k == old(self)@.responses.len() ==> r is None && final(self)@.responses.len() == 0
                    && final(self)@.confirmation == old(self)@.confirmation
                &&& k < old(self)@.responses.len() ==> (r matches Some(p) && spec_decode_encrypted_packet(
                    old(self)@.responses[k],
                ) == Some(p@))
                &&& k < old(self)@.responses.len() ==> final(self)@.responses == old(self)@.responses.skip(k + 1)
                &&& k < old(self)@.responses.len() ==> (final(self)@.confirmation == old(self)@.confirmation || (
                final(self)@.confirmation matches Some(c) && is_confirmation(csk@, challenge@, request@, c)))
            }),
    {
        let ghost start = self@.responses;
        let ghost mut n: int = 0;
        proof {
            assert(start.skip(0) =~= start);
            lemma_first_grant_bounds(csk@, start);
        }
        while self.responses.len() > 0
            invariant
                start == old(self)@.responses,
                0 <= n <= start.len(),
                self@.responses == start.skip(n),
                self@.request == old(self)@.request,
                self@.confirmation == old(self)@.confirmation,
                first_grant(csk@, start) == n + first_grant(csk@, start.skip(n)),
                0 <= first_grant(csk@, start) <= start.len(),
            decreases self.responses@.len(),
        {
            let ghost rest = self@.responses;
            let value = self.responses.remove(0);
            proof {
                assert(byte_seqs(self.responses@) =~= rest.drop_first());
                assert(rest[0] == value@);
                assert(start.skip(n).drop_first() =~= start.skip(n + 1));
            }
            match ble_grant_response(csk, value.as_slice()) {
                Some(packet) => {
                    proof {
                        assert(first_grant(csk@, rest) == 0);
                        assert(start.skip(n)[0] == start[n]);
                        assert(start[n] == value@);
                    }
                    match ble_confirmation_packet(csk, challenge, request) {
                        Ok(confirmation) => {
                            let _identifier_len = confirmation.temporal_identifier.len();
                            let _ciphertext_len = confirmation.ciphertext.len();
                            let bytes = confirmation.encode_to_vec();
                            proof {
                                lemma_encrypted_packet_roundtrip(confirmation@);
                                assert(is_confirmation(csk@, challenge@, request@, bytes@));
                            }
                            self.confirmation = Some(bytes);
                        },
                        Err(_) => {},
                    }
                    return Some(packet);
                },
                None => {},
            }
            proof {
                n = n + 1;
            }
        }
        proof {
            assert(start.skip(n).len() == 0);
        }
        None
    }
}

proof fn lemma_first_grant_bounds(csk: Seq<u8>, rs: Seq<Seq<u8>>)
    ensures
        0 <= first_grant(csk, rs) <= rs.len(),
        first_grant(csk, rs) < rs.len() ==> spec_ble_grant_response(csk, rs[first_grant(csk, rs)]),
    decreases rs.len(),
{
    if rs.len() > 0 && !spec_ble_grant_response(csk, rs[0]) {
        lemma_first_grant_bounds(csk, rs.drop_first());
    }
}

} // verus!
