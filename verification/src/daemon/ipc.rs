//! The messages between the PAM module, the configuration tool and the
//! daemon, their length-prefixed framing, and the daemon's answers that do
//! not depend on an authentication.
use crate::text::{u32_be, u32_to_be_bytes, u32_from_be, u32_from_be_bytes};
use crate::wire::append_bytes;
use vstd::prelude::*;

verus! {

/// Outcome codes of a PAM authentication.
pub const PAM_OUTCOME_SUCCESS: i32 = 0;
pub const PAM_OUTCOME_DENIED: i32 = 1;
pub const PAM_OUTCOME_TIMEOUT: i32 = 2;
pub const PAM_OUTCOME_ERROR: i32 = 3;
pub const PAM_OUTCOME_IGNORE: i32 = 4;

/// Status codes of an administration request.
pub const ADMIN_SUCCESS: i32 = 0;
pub const ADMIN_ERROR: i32 = 1;
pub const ADMIN_UNAUTHORIZED: i32 = 2;

/// Outcome of a PAM authentication.
#[derive(Debug, Clone, Copy, PartialEq, Eq)]
pub enum PamOutcome {
    Success,
    Denied,
    Timeout,
    Error,
    Ignore,
}

/// The code of each outcome.
pub open spec fn spec_outcome_code(o: PamOutcome) -> i32 {
    match o {
        PamOutcome::Success => PAM_OUTCOME_SUCCESS,
        PamOutcome::Denied => PAM_OUTCOME_DENIED,
        PamOutcome::Timeout => PAM_OUTCOME_TIMEOUT,
        PamOutcome::Error => PAM_OUTCOME_ERROR,
        PamOutcome::Ignore => PAM_OUTCOME_IGNORE,
    }
}

/// The outcome a code denotes, if any.
pub open spec fn spec_outcome_of(code: i32) -> Option<PamOutcome> {
    if code == PAM_OUTCOME_SUCCESS {
        Some(PamOutcome::Success)
    } else if code == PAM_OUTCOME_DENIED {
        Some(PamOutcome::Denied)
    } else if code == PAM_OUTCOME_TIMEOUT {
        Some(PamOutcome::Timeout)
    } else if code == PAM_OUTCOME_ERROR {
        Some(PamOutcome::Error)
    } else if code == PAM_OUTCOME_IGNORE {
        Some(PamOutcome::Ignore)
    } else {
        None
    }
}

impl PamOutcome {
    /// The outcome's code.
    pub fn as_i32(self) -> (r: i32)
        ensures
            r == spec_outcome_code(self),
    {
        match self {
            PamOutcome::Success => PAM_OUTCOME_SUCCESS,
            PamOutcome::Denied => PAM_OUTCOME_DENIED,
            PamOutcome::Timeout => PAM_OUTCOME_TIMEOUT,
            PamOutcome::Error => PAM_OUTCOME_ERROR,
            PamOutcome::Ignore => PAM_OUTCOME_IGNORE,
        }
    }

    /// The outcome a code denotes; unknown codes have none.
    pub fn try_from_i32(code: i32) -> (r: Option<Self>)
        ensures
            r == spec_outcome_of(code),
    {
        if code == PAM_OUTCOME_SUCCESS {
            Some(PamOutcome::Success)
        } else if code == PAM_OUTCOME_DENIED {
            Some(PamOutcome::Denied)
        } else if code == PAM_OUTCOME_TIMEOUT {
            Some(PamOutcome::Timeout)
        } else if code == PAM_OUTCOME_ERROR {
            Some(PamOutcome::Error)
        } else if code == PAM_OUTCOME_IGNORE {
            Some(PamOutcome::Ignore)
        } else {
            None
        }
    }
}

/// A request to authenticate a user.
#[derive(Debug, Clone)]
pub struct PamAuthenticateRequest {
    pub request_id: String,
    pub username: String,
    /// Whether the PAM conversation has a terminal.
    pub tty_present: bool,
    pub timeout_seconds: u32,
}

/// The answer to an authentication request.
#[derive(Debug, Clone)]
pub struct PamAuthenticateResponse {
    pub outcome: i32,
    pub detail: String,
    pub challenge: Vec<u8>,
}

/// A request to cancel an authentication in progress.
#[derive(Debug, Clone)]
pub struct PamCancelRequest {
    pub request_id: String,
    /// Why the PAM module gave up.
    pub reason: String,
}

/// A paired server as the configuration tool sees it.
#[derive(Debug, Clone)]
pub struct PairedServerInfo {
    pub name: String,
    pub public_key: String,
    pub allowed_users: Vec<String>,
    pub paired_at: String,
}

/// Requests of the configuration tool.
#[derive(Debug, Clone)]
pub enum AdminRequestPayload {
    GetServers,
    StartPairing,
    WaitForPairing { port: u32 },
    CompletePairing,
    RemoveDevice { public_key: String },
    RotateCsk,
    SaveConfig { hostname: String, udp_port: u32 },
    GetConfig,
    RecoverTpm,
}

/// A request of the configuration tool.
#[derive(Debug, Clone)]
pub struct AdminRequest {
    pub payload: Option<AdminRequestPayload>,
}

/// Results of the configuration tool's requests.
#[derive(Debug, Clone)]
pub enum AdminResponsePayload {
    GetServers { servers: Vec<PairedServerInfo> },
    StartPairing { url: String, port: u32 },
    WaitForPairing { sas_code: String, port: u32 },
    CompletePairing { server_hex: String },
    GetConfig { hostname: String, udp_port: u32 },
}

/// The answer to a request of the configuration tool.
#[derive(Debug, Clone)]
pub struct AdminResponse {
    pub status: i32,
    pub error_message: String,
    pub payload: Option<AdminResponsePayload>,
}

/// The messages an envelope carries.
#[derive(Debug, Clone)]
pub enum IpcMessage {
    PamAuthenticate(PamAuthenticateRequest),
    PamCancel(PamCancelRequest),
    AdminRequest(AdminRequest),
    PamResponse(PamAuthenticateResponse),
    AdminResponse(AdminResponse),
}

/// Every IPC message travels in an envelope.
#[derive(Debug, Clone)]
pub struct IpcEnvelope {
    pub msg: Option<IpcMessage>,
}

/// Largest accepted frame, in bytes (10 MiB).
pub const MAX_FRAME_LEN: usize = 10485760;

/// A frame header announcing more than [`MAX_FRAME_LEN`] bytes.
#[derive(Debug, Clone, Copy, PartialEq, Eq)]
pub struct FrameTooLarge;

/// The length a frame header announces, when within the limit.
pub fn frame_length(header: &[u8; 4]) -> (r: Result<usize, FrameTooLarge>)
    ensures
        r is Ok <==> u32_from_be(header@) <= MAX_FRAME_LEN,
        r matches Ok(n) ==> n == u32_from_be(header@),
{
    let len = u32_from_be_bytes(header);
    if len > 10485760 {
        Err(FrameTooLarge)
    } else {
        Ok(len as usize)
    }
}

/// A frame: the message's length as a big-endian `u32`, then the message.
pub fn encode_frame(msg: &[u8]) -> (r: Vec<u8>)
    requires
        msg@.len() <= u32::MAX,
    ensures
        r@ == u32_be(msg@.len() as u32) + msg@,
{
    let header = u32_to_be_bytes(msg.len() as u32);
    let mut out: Vec<u8> = Vec::new();
    append_bytes(&mut out, header.as_slice());
    append_bytes(&mut out, msg);
    out
}

/// Reading the header of a frame gives back the length of the message it
/// carries.
pub proof fn lemma_frame_roundtrip(msg: Seq<u8>)
    requires
        msg.len() <= MAX_FRAME_LEN,
    ensures
        u32_from_be((u32_be(msg.len() as u32) + msg).take(4)) == msg.len(),
{
    let n = msg.len() as u32;
    assert((u32_be(n) + msg).take(4) =~= u32_be(n));
    crate::text::lemma_u32_be_roundtrip(n);
}

/// A response carrying `outcome` and `detail`, without a challenge.
pub fn pam_response(outcome: PamOutcome, detail: String) -> (r: PamAuthenticateResponse)
    ensures
        r.outcome == spec_outcome_code(outcome),
        r.detail@ == detail@,
        r.challenge@.len() == 0,
{
    PamAuthenticateResponse { outcome: outcome.as_i32(), detail, challenge: Vec::new() }
}

/// Wraps a PAM response in an envelope.
pub fn envelope_pam_response(response: PamAuthenticateResponse) -> (r: IpcEnvelope)
    ensures
        r.msg matches Some(IpcMessage::PamResponse(p)) && p == response,
{
    IpcEnvelope { msg: Some(IpcMessage::PamResponse(response)) }
}

/// Wraps an administration response in an envelope.
pub fn envelope_admin_response(response: AdminResponse) -> (r: IpcEnvelope)
    ensures
        r.msg matches Some(IpcMessage::AdminResponse(a)) && a == response,
{
    IpcEnvelope { msg: Some(IpcMessage::AdminResponse(response)) }
}

/// What the daemon does with a received frame.
#[derive(Debug, Clone)]
pub enum ConnAction {
    /// An empty frame is a health check: close without answering.
    HealthCheck,
    Authenticate(PamAuthenticateRequest),
    Cancel(PamCancelRequest),
    Admin(AdminRequest),
    /// Anything else is answered with an error.
    Reject,
}

/// Dispatches a frame: empty frames are health checks; envelopes carrying
/// an authentication, a cancellation or an administration request go to
/// their handlers; anything else (undecodable, empty envelope, a response)
/// is rejected.
pub fn dispatch_frame(frame_len: usize, envelope: Option<IpcEnvelope>) -> (r: ConnAction)
    ensures
        frame_len == 0 ==> r is HealthCheck,
        frame_len != 0 ==> match envelope {
            Some(IpcEnvelope { msg: Some(IpcMessage::PamAuthenticate(a)) }) => r == ConnAction::Authenticate(a),
            Some(IpcEnvelope { msg: Some(IpcMessage::PamCancel(c)) }) => r == ConnAction::Cancel(c),
            Some(IpcEnvelope { msg: Some(IpcMessage::AdminRequest(a)) }) => r == ConnAction::Admin(a),
            _ => r is Reject,
        },
{
    if frame_len == 0 {
        return ConnAction::HealthCheck;
    }
    match envelope {
        Some(IpcEnvelope { msg: Some(IpcMessage::PamAuthenticate(a)) }) => ConnAction::Authenticate(a),
        Some(IpcEnvelope { msg: Some(IpcMessage::PamCancel(c)) }) => ConnAction::Cancel(c),
        Some(IpcEnvelope { msg: Some(IpcMessage::AdminRequest(a)) }) => ConnAction::Admin(a),
        _ => ConnAction::Reject,
    }
}

/// The answer to an unrecognized frame.
pub fn unknown_message_response() -> (r: PamAuthenticateResponse)
    ensures
        r.outcome == PAM_OUTCOME_ERROR,
        r.detail@ == "Unknown IPC message"@,
        r.challenge@.len() == 0,
{
    pam_response(PamOutcome::Error, "Unknown IPC message".to_owned())
}

/// The answer to a cancellation: `found` tells whether a request with that
/// id was in progress (and has been told to stop).
pub fn cancel_response(found: bool) -> (r: PamAuthenticateResponse)
    ensures
        r.outcome == PAM_OUTCOME_IGNORE,
        found ==> r.detail@ == "Cancel forwarded"@,
        !found ==> r.detail@ == "No matching request to cancel"@,
        r.challenge@.len() == 0,
{
    if found {
        pam_response(PamOutcome::Ignore, "Cancel forwarded".to_owned())
    } else {
        pam_response(PamOutcome::Ignore, "No matching request to cancel".to_owned())
    }
}

/// The answer to a request that duplicates an authentication in flight.
pub fn duplicate_request_response() -> (r: PamAuthenticateResponse)
    ensures
        r.outcome == PAM_OUTCOME_IGNORE,
        r.detail@ == "Duplicate request - another authentication is in progress"@,
        r.challenge@.len() == 0,
{
    pam_response(
        PamOutcome::Ignore,
        "Duplicate request - another authentication is in progress".to_owned(),
    )
}

/// An administration failure with the given status and message.
pub fn err_resp(status: i32, msg: String) -> (r: AdminResponse)
    ensures
        r.status == status,
        r.error_message@ == msg@,
        r.payload is None,
{
    AdminResponse { status, error_message: msg, payload: None }
}

/// A success without a payload.
pub fn empty_success() -> (r: AdminResponse)
    ensures
        r.status == ADMIN_SUCCESS,
        r.error_message@.len() == 0,
        r.payload is None,
{
    AdminResponse { status: ADMIN_SUCCESS, error_message: String::new(), payload: None }
}

/// A success listing servers.
pub fn get_servers_success(servers: Vec<PairedServerInfo>) -> (r: AdminResponse)
    ensures
        r.status == ADMIN_SUCCESS,
        r.error_message@.len() == 0,
        r.payload matches Some(AdminResponsePayload::GetServers { servers: s }) && s == servers,
{
    AdminResponse {
        status: ADMIN_SUCCESS,
        error_message: String::new(),
        payload: Some(AdminResponsePayload::GetServers { servers }),
    }
}

/// A success announcing a pairing URL and port.
pub fn start_pairing_success(url: String, port: u32) -> (r: AdminResponse)
    ensures
        r.status == ADMIN_SUCCESS,
        r.error_message@.len() == 0,
        r.payload matches Some(AdminResponsePayload::StartPairing { url: u, port: p }) && u == url
            && p == port,
{
    AdminResponse {
        status: ADMIN_SUCCESS,
        error_message: String::new(),
        payload: Some(AdminResponsePayload::StartPairing { url, port }),
    }
}

/// A success carrying the SAS to compare.
pub fn wait_pairing_success(sas_code: String, port: u32) -> (r: AdminResponse)
    ensures
        r.status == ADMIN_SUCCESS,
        r.error_message@.len() == 0,
        r.payload matches Some(AdminResponsePayload::WaitForPairing { sas_code: s, port: p }) && s
            == sas_code && p == port,
{
    AdminResponse {
        status: ADMIN_SUCCESS,
        error_message: String::new(),
        payload: Some(AdminResponsePayload::WaitForPairing { sas_code, port }),
    }
}

/// A success naming the newly paired server.
pub fn complete_pairing_success(server_hex: String) -> (r: AdminResponse)
    ensures
        r.status == ADMIN_SUCCESS,
        r.error_message@.len() == 0,
        r.payload matches Some(AdminResponsePayload::CompletePairing { server_hex: s }) && s
            == server_hex,
{
    AdminResponse {
        status: ADMIN_SUCCESS,
        error_message: String::new(),
        payload: Some(AdminResponsePayload::CompletePairing { server_hex }),
    }
}

} // verus!
