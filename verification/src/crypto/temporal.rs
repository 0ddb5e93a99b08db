//! Rotating temporal identifiers: a truncated HMAC of the minute-long time
//! window under the client key, by which a server recognises its client
//! without the client's identity travelling in the clear.
use crate::crypto::keys::ClientSymmetricKey;
use crate::crypto::primitives::{hmac_sha256, hmac_sha256_tag, unix_time_secs};
use crate::crypto::CryptoError;
use crate::text::{bytes_eq, take10, take16, u64_be, u64_to_be_bytes};
use vstd::prelude::*;

verus! {

/// Length of a time window in seconds.
pub const TIME_WINDOW_SECONDS: u64 = 60;

/// The time window that a Unix time falls in.
pub open spec fn spec_time_window(unix_secs: u64) -> u64 {
    unix_secs / TIME_WINDOW_SECONDS
}

/// The 16-byte temporal identifier of a key and a window.
pub open spec fn spec_temporal_identifier(csk: Seq<u8>, window: u64) -> Seq<u8> {
    hmac_sha256(csk, u64_be(window)).take(16)
}

/// The 10-byte identifier used in BLE advertisements.
pub open spec fn spec_temporal_identifier_ble(csk: Seq<u8>, window: u64) -> Seq<u8> {
    hmac_sha256(csk, u64_be(window)).take(10)
}

/// Whether an identifier matches the window `current`, or else the one
/// before it; `None` where the identifier does not match `current` and no
/// window precedes it.
pub open spec fn spec_matches_window(
    id: Seq<u8>,
    csk: Seq<u8>,
    current: u64,
    previous_read: u64,
) -> Option<bool> {
    if id == spec_temporal_identifier(csk, current) {
        Some(true)
    } else if previous_read == 0 {
        None
    } else {
        Some(id == spec_temporal_identifier(csk, (previous_read - 1) as u64))
    }
}

/// Whether a BLE identifier matches the window `current`, or else the one
/// before `previous_read`; `None` where it does not match `current` and no
/// window precedes `previous_read`.
pub open spec fn spec_matches_window_ble(
    id: Seq<u8>,
    csk: Seq<u8>,
    current: u64,
    previous_read: u64,
) -> Option<bool> {
    if id == spec_temporal_identifier_ble(csk, current) {
        Some(true)
    } else if previous_read == 0 {
        None
    } else {
        Some(id == spec_temporal_identifier_ble(csk, (previous_read - 1) as u64))
    }
}

/// The time window a Unix time falls in.
pub fn time_window_of(unix_secs: u64) -> (r: u64)
    ensures
        r == spec_time_window(unix_secs),
{
    unix_secs / TIME_WINDOW_SECONDS
}

/// The current time window, from the system clock; `SystemTimeError` when
/// the clock reads a time before the Unix epoch.
pub fn current_time_window() -> (r: Result<u64, CryptoError>)
    ensures
        r matches Err(e) ==> e == CryptoError::SystemTimeError,
        r matches Ok(w) ==> exists|t: u64| w == spec_time_window(t),
{
    match unix_time_secs() {
        Some(t) => Ok(time_window_of(t)),
        None => Err(CryptoError::SystemTimeError),
    }
}

/// The 16-byte temporal identifier of a window (the first 16 bytes of the
/// 32-byte HMAC); always succeeds.
pub fn generate_temporal_identifier(csk: &ClientSymmetricKey, time_window: u64) -> (r: Result<[u8; 16], CryptoError>)
    ensures
        r matches Ok(id) && id@ == spec_temporal_identifier(csk@, time_window),
        hmac_sha256(csk@, u64_be(time_window)).len() == 32,
{
    let msg = u64_to_be_bytes(time_window);
    match hmac_sha256_tag(csk.as_bytes(), msg.as_slice()) {
        Some(tag) => Ok(take16(tag.as_slice())),
        None => Err(CryptoError::KeyDerivationFailed),
    }
}

/// The 10-byte BLE temporal identifier of a window, the first 10 bytes of
/// the 16-byte identifier; always succeeds.
pub fn generate_temporal_identifier_ble(csk: &ClientSymmetricKey, time_window: u64) -> (r: Result<[u8; 10], CryptoError>)
    ensures
        r matches Ok(id) && id@ == spec_temporal_identifier_ble(csk@, time_window),
        r matches Ok(id) ==> id@ == spec_temporal_identifier(csk@, time_window).take(10),
        hmac_sha256(csk@, u64_be(time_window)).len() == 32,
{
    let msg = u64_to_be_bytes(time_window);
    match hmac_sha256_tag(csk.as_bytes(), msg.as_slice()) {
        Some(tag) => Ok(take10(tag.as_slice())),
        None => Err(CryptoError::KeyDerivationFailed),
    }
}

/// The identifier of the current window.
pub fn generate_current_temporal_identifier(csk: &ClientSymmetricKey) -> (r: Result<[u8; 16], CryptoError>)
    ensures
        r matches Err(e) ==> e == CryptoError::SystemTimeError,
        r matches Ok(id) ==> exists|t: u64| id@ == spec_temporal_identifier(csk@, spec_time_window(t)),
{
    let w = match current_time_window() {
        Ok(w) => w,
        Err(e) => {
            return Err(e);
        },
    };
    generate_temporal_identifier(csk, w)
}

/// The BLE identifier of the current window.
pub fn generate_current_temporal_identifier_ble(csk: &ClientSymmetricKey) -> (r: Result<[u8; 10], CryptoError>)
    ensures
        r matches Err(e) ==> e == CryptoError::SystemTimeError,
        r matches Ok(id) ==> exists|t: u64| id@ == spec_temporal_identifier_ble(csk@, spec_time_window(t)),
{
    let w = match current_time_window() {
        Ok(w) => w,
        Err(e) => {
            return Err(e);
        },
    };
    generate_temporal_identifier_ble(csk, w)
}

/// The identifier of the window before `window`; `KeyDerivationFailed`
/// when `window` is the very first one.
pub fn previous_temporal_identifier_at(csk: &ClientSymmetricKey, window: u64) -> (r: Result<[u8; 16], CryptoError>)
    ensures
        window == 0 ==> r == Err::<[u8; 16], CryptoError>(CryptoError::KeyDerivationFailed),
        window > 0 ==> (r matches Ok(id) && id@ == spec_temporal_identifier(csk@, (window - 1) as u64)),
{
    if window == 0 {
        return Err(CryptoError::KeyDerivationFailed);
    }
    generate_temporal_identifier(csk, window - 1)
}

/// The BLE identifier of the window before `window`; `KeyDerivationFailed`
/// when `window` is the very first one.
pub fn previous_temporal_identifier_ble_at(csk: &ClientSymmetricKey, window: u64) -> (r: Result<[u8; 10], CryptoError>)
    ensures
        window == 0 ==> r == Err::<[u8; 10], CryptoError>(CryptoError::KeyDerivationFailed),
        window > 0 ==> (r matches Ok(id) && id@ == spec_temporal_identifier_ble(csk@, (window - 1) as u64)),
{
    if window == 0 {
        return Err(CryptoError::KeyDerivationFailed);
    }
    generate_temporal_identifier_ble(csk, window - 1)
}

/// The identifier of the window before the current one (read from the
/// clock, see [`previous_temporal_identifier_at`]).
pub fn generate_previous_temporal_identifier(csk: &ClientSymmetricKey) -> (r: Result<[u8; 16], CryptoError>)
    ensures
        r matches Err(e) ==> e == CryptoError::SystemTimeError || e == CryptoError::KeyDerivationFailed,
        r matches Ok(id) ==> exists|t: u64|
            spec_time_window(t) > 0 && id@ == spec_temporal_identifier(csk@, (spec_time_window(t) - 1) as u64),
{
    let w = match current_time_window() {
        Ok(w) => w,
        Err(e) => {
            return Err(e);
        },
    };
    previous_temporal_identifier_at(csk, w)
}

/// The BLE identifier of the window before the current one (read from the
/// clock, see [`previous_temporal_identifier_ble_at`]).
pub fn generate_previous_temporal_identifier_ble(csk: &ClientSymmetricKey) -> (r: Result<[u8; 10], CryptoError>)
    ensures
        r matches Err(e) ==> e == CryptoError::SystemTimeError || e == CryptoError::KeyDerivationFailed,
        r matches Ok(id) ==> exists|t: u64|
            spec_time_window(t) > 0 && id@ == spec_temporal_identifier_ble(csk@, (spec_time_window(t) - 1) as u64),
{
    let w = match current_time_window() {
        Ok(w) => w,
        Err(e) => {
            return Err(e);
        },
    };
    previous_temporal_identifier_ble_at(csk, w)
}

/// Whether an identifier is the one of the window `current`, or else the
/// one of the window before `previous_read`: `KeyDerivationFailed` when it
/// is not the current one and `previous_read` is the very first window.
pub fn verify_temporal_identifier_at(csk: &ClientSymmetricKey, identifier: &[u8; 16], current: u64, previous_read: u64) -> (r: Result<bool, CryptoError>)
    ensures
        r == match spec_matches_window(identifier@, csk@, current, previous_read) {
            Some(b) => Ok::<bool, CryptoError>(b),
            None => Err(CryptoError::KeyDerivationFailed),
        },
{
    let now_id = match generate_temporal_identifier(csk, current) {
        Ok(id) => id,
        Err(e) => {
            return Err(e);
        },
    };
    if bytes_eq(identifier.as_slice(), now_id.as_slice()) {
        return Ok(true);
    }
    match previous_temporal_identifier_at(csk, previous_read) {
        Ok(previous) => Ok(bytes_eq(identifier.as_slice(), previous.as_slice())),
        Err(e) => Err(e),
    }
}

/// Whether a BLE identifier is the one of the window `current`, or else
/// the one of the window before `previous_read`: `KeyDerivationFailed` when
/// it is not the current one and `previous_read` is the very first window.
pub fn verify_temporal_identifier_ble_at(csk: &ClientSymmetricKey, identifier: &[u8; 10], current: u64, previous_read: u64) -> (r: Result<bool, CryptoError>)
    ensures
        r == match spec_matches_window_ble(identifier@, csk@, current, previous_read) {
            Some(b) => Ok::<bool, CryptoError>(b),
            None => Err(CryptoError::KeyDerivationFailed),
        },
{
    let now_id = match generate_temporal_identifier_ble(csk, current) {
        Ok(id) => id,
        Err(e) => {
            return Err(e);
        },
    };
    if bytes_eq(identifier.as_slice(), now_id.as_slice()) {
        return Ok(true);
    }
    match previous_temporal_identifier_ble_at(csk, previous_read) {
        Ok(previous) => Ok(bytes_eq(identifier.as_slice(), previous.as_slice())),
        Err(e) => Err(e),
    }
}

/// Whether an identifier is the one of the current window or of the window
/// before (the clock is read once for each; see
/// [`verify_temporal_identifier_at`]).
pub fn verify_temporal_identifier(csk: &ClientSymmetricKey, identifier: &[u8; 16]) -> (r: Result<bool, CryptoError>)
    ensures
        r matches Err(e) ==> e == CryptoError::SystemTimeError || e == CryptoError::KeyDerivationFailed,
        r matches Ok(b) ==> exists|t1: u64, t2: u64|
            spec_matches_window(identifier@, csk@, spec_time_window(t1), spec_time_window(t2)) == Some(b),
{
    let w1 = match current_time_window() {
        Ok(w) => w,
        Err(e) => {
            return Err(e);
        },
    };
    let current = match generate_temporal_identifier(csk, w1) {
        Ok(id) => id,
        Err(e) => {
            return Err(e);
        },
    };
    if bytes_eq(identifier.as_slice(), current.as_slice()) {
        let ghost t1 = choose|t: u64| w1 == spec_time_window(t);
        assert(spec_matches_window(identifier@, csk@, spec_time_window(t1), spec_time_window(t1)) == Some(true));
        return Ok(true);
    }
    let w2 = match current_time_window() {
        Ok(w) => w,
        Err(e) => {
            return Err(e);
        },
    };
    let r = verify_temporal_identifier_at(csk, identifier, w1, w2);
    proof {
        let t1 = choose|t: u64| w1 == spec_time_window(t);
        let t2 = choose|t: u64| w2 == spec_time_window(t);
        assert(w1 == spec_time_window(t1) && w2 == spec_time_window(t2));
    }
    r
}

/// Whether a BLE identifier is the one of the current window or of the
/// window before (the clock is read once for each; see
/// [`verify_temporal_identifier_ble_at`]).
pub fn verify_temporal_identifier_ble(csk: &ClientSymmetricKey, identifier: &[u8; 10]) -> (r: Result<bool, CryptoError>)
    ensures
        r matches Err(e) ==> e == CryptoError::SystemTimeError || e == CryptoError::KeyDerivationFailed,
        r matches Ok(b) ==> exists|t1: u64, t2: u64|
            spec_matches_window_ble(identifier@, csk@, spec_time_window(t1), spec_time_window(t2)) == Some(b),
{
    let w1 = match current_time_window() {
        Ok(w) => w,
        Err(e) => {
            return Err(e);
        },
    };
    let current = match generate_temporal_identifier_ble(csk, w1) {
        Ok(id) => id,
        Err(e) => {
            return Err(e);
        },
    };
    if bytes_eq(identifier.as_slice(), current.as_slice()) {
        let ghost t1 = choose|t: u64| w1 == spec_time_window(t);
        assert(spec_matches_window_ble(identifier@, csk@, spec_time_window(t1), spec_time_window(t1)) == Some(true));
        return Ok(true);
    }
    let w2 = match current_time_window() {
        Ok(w) => w,
        Err(e) => {
            return Err(e);
        },
    };
    let r = verify_temporal_identifier_ble_at(csk, identifier, w1, w2);
    proof {
        let t1 = choose|t: u64| w1 == spec_time_window(t);
        let t2 = choose|t: u64| w2 == spec_time_window(t);
        assert(w1 == spec_time_window(t1) && w2 == spec_time_window(t2));
    }
    r
}

} // verus!
