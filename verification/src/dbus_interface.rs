//! The D-Bus interface of the BLE helper service: its names, the result
//! codes of an authentication, and the request it takes.
use vstd::prelude::*;

verus! {

/// Well-known bus name of the BLE service.
pub const DBUS_SERVICE_NAME: &'static str = "dev.rourunisen.tapauth.BLE";

/// Object path of the BLE service.
pub const DBUS_OBJECT_PATH: &'static str = "/dev/rourunisen/tapauth/BLE";

/// Outcome of an authentication over the bus.
#[derive(Debug, Clone, Copy, PartialEq, Eq)]
pub enum AuthResult {
    Granted,
    Denied,
    Timeout,
    Error,
}

/// The wire code of each result.
pub open spec fn spec_auth_result_code(r: AuthResult) -> u32 {
    match r {
        AuthResult::Granted => 0,
        AuthResult::Denied => 1,
        AuthResult::Timeout => 2,
        AuthResult::Error => 3,
    }
}

/// The result a wire code denotes: 0 to 2 as named, anything else `Error`.
pub open spec fn spec_auth_result_of(value: u32) -> AuthResult {
    if value == 0 {
        AuthResult::Granted
    } else if value == 1 {
        AuthResult::Denied
    } else if value == 2 {
        AuthResult::Timeout
    } else {
        AuthResult::Error
    }
}

impl AuthResult {
    /// The result a wire code denotes; unknown codes are `Error`.
    pub fn from_u32(value: u32) -> (r: Self)
        ensures
            r == spec_auth_result_of(value),
    {
        match value {
            0 => AuthResult::Granted,
            1 => AuthResult::Denied,
            2 => AuthResult::Timeout,
            _ => AuthResult::Error,
        }
    }

    /// The wire code of the result.
    pub fn to_u32(self) -> (r: u32)
        ensures
            r == spec_auth_result_code(self),
    {
        match self {
            AuthResult::Granted => 0,
            AuthResult::Denied => 1,
            AuthResult::Timeout => 2,
            AuthResult::Error => 3,
        }
    }
}

/// Encoding a result and decoding the code gives the result back; decoding
/// a code and encoding the result gives the code back for codes 0 to 3.
pub proof fn lemma_auth_result_roundtrip(r: AuthResult, code: u32)
    ensures
        spec_auth_result_of(spec_auth_result_code(r)) == r,
        code <= 3 ==> spec_auth_result_code(spec_auth_result_of(code)) == code,
{
}

/// An authentication request to the BLE service.
#[derive(Debug, Clone)]
pub struct AuthRequest {
    pub encrypted_packet: Vec<u8>,
    pub temporal_id: Vec<u8>,
    pub timeout_secs: u64,
}

impl AuthRequest {
    /// A request with the given fields.
    pub fn new(encrypted_packet: Vec<u8>, temporal_id: Vec<u8>, timeout_secs: u64) -> (r: Self)
        ensures
            r.encrypted_packet@ == encrypted_packet@,
            r.temporal_id@ == temporal_id@,
            r.timeout_secs == timeout_secs,
    {
        AuthRequest { encrypted_packet, temporal_id, timeout_secs }
    }
}

} // verus!
