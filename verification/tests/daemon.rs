use tapauth::config::{PairedServer, PairedServers, UtcTimestamp};
use tapauth::daemon::admin::{
    complete_pairing_check, validate_udp_port, wait_for_pairing_check, PairingPhase,
};
use tapauth::daemon::auth::{
    attempt_response, auth_precheck, decode_server_key, reload_init_error, AttemptResult,
    AuthHandlerError, NonceCache,
};
use tapauth::daemon::error::{AdminError, DaemonError};
use tapauth::daemon::flights::{AuthFlights, FlightChannel};
use tapauth::daemon::fprintd::{
    list_enrolled_fingers, verify_status, VirtualFprintDevice, ERROR_ALREADY_IN_USE, ERROR_INTERNAL,
    ERROR_NO_ENROLLED_PRINTS,
};
use tapauth::daemon::ipc::{
    dispatch_frame, encode_frame, frame_length, ConnAction, FrameTooLarge, IpcEnvelope, IpcMessage,
    PamAuthenticateRequest, PamOutcome, PAM_OUTCOME_ERROR, PAM_OUTCOME_IGNORE, PAM_OUTCOME_SUCCESS,
};
use tapauth::daemon::peer::{check_authorization, parse_process_start_time, resolve_peer, StatError};
use tapauth::daemon::peer_identity::{self as typed, PeerIdentityError};
use tapauth::config::ConfigError;
use tapauth::string_map::StringMap;

// The flight registry, with times in milliseconds.

#[test]
fn pam_pam_duplicate_within_window() {
    let mut flights = AuthFlights::new();
    flights.auth_flight_start("user", FlightChannel::Pam, 10_000);
    assert!(flights.auth_flight_is_duplicate("user", FlightChannel::Pam, 10_500));
}

#[test]
fn pam_pam_allowed_after_window() {
    let mut flights = AuthFlights::new();
    flights.auth_flight_start("user", FlightChannel::Pam, 10_000);
    assert!(!flights.auth_flight_is_duplicate("user", FlightChannel::Pam, 12_000));
}

#[test]
fn pam_defers_to_fprintd_regardless_of_age() {
    let mut flights = AuthFlights::new();
    flights.auth_flight_start("user", FlightChannel::Fprintd, 10_000);
    assert!(flights.auth_flight_is_duplicate("user", FlightChannel::Pam, 70_000));
}

#[test]
fn fprintd_defers_to_any_flight_regardless_of_age() {
    let mut flights = AuthFlights::new();
    flights.auth_flight_start("user", FlightChannel::Pam, 10_000);
    assert!(flights.auth_flight_is_duplicate("user", FlightChannel::Fprintd, 10_000));
    assert!(flights.auth_flight_is_duplicate("user", FlightChannel::Fprintd, 70_000));
    flights.auth_flight_start("user", FlightChannel::Fprintd, 70_000);
    assert!(flights.auth_flight_is_duplicate("user", FlightChannel::Fprintd, 70_000));
}

#[test]
fn stale_in_flight_purged() {
    let mut flights = AuthFlights::new();
    flights.auth_flight_start("user", FlightChannel::Pam, 10_000);
    assert!(!flights.auth_flight_is_duplicate("user", FlightChannel::Pam, 410_000));
}

#[test]
fn different_users_independent() {
    let mut flights = AuthFlights::new();
    flights.auth_flight_start("u1", FlightChannel::Pam, 0);
    assert!(!flights.auth_flight_is_duplicate("u2", FlightChannel::Pam, 0));
    assert!(!flights.auth_flight_is_duplicate("u2", FlightChannel::Fprintd, 0));
}

#[test]
fn finish_frees_the_flight_slot() {
    let mut flights = AuthFlights::new();
    flights.auth_flight_start("user", FlightChannel::Pam, 0);
    assert!(flights.auth_flight_is_duplicate("user", FlightChannel::Pam, 0));
    flights.auth_flight_finish("user");
    assert!(!flights.auth_flight_is_duplicate("user", FlightChannel::Pam, 0));
    assert!(!flights.auth_flight_is_duplicate("user", FlightChannel::Fprintd, 0));
}

#[test]
fn flight_age_limits_are_exclusive() {
    let mut flights = AuthFlights::new();
    flights.auth_flight_start("user", FlightChannel::Pam, 0);
    // One millisecond short of the window is still a duplicate; at the
    // window it is not.
    assert!(flights.auth_flight_is_duplicate("user", FlightChannel::Pam, 999));
    assert!(!flights.auth_flight_is_duplicate("user", FlightChannel::Pam, 1000));
    // A flight is purged once it is five minutes old.
    assert!(flights.auth_flight_is_duplicate("user", FlightChannel::Fprintd, 299_999));
    assert!(!flights.auth_flight_is_duplicate("user", FlightChannel::Fprintd, 300_000));
}

// IPC framing and dispatch.

#[test]
fn frames_carry_their_length_big_endian() {
    let frame = encode_frame(b"hello");
    assert_eq!(frame, vec![0, 0, 0, 5, b'h', b'e', b'l', b'l', b'o']);
    let header = [frame[0], frame[1], frame[2], frame[3]];
    assert_eq!(frame_length(&header), Ok(5));
    assert_eq!(encode_frame(&[]), vec![0, 0, 0, 0]);
}

#[test]
fn test_oversized_message_rejection() {
    assert_eq!(frame_length(&[0, 0xA0, 0, 0]), Ok(10 * 1024 * 1024));
    assert_eq!(frame_length(&[0, 0xA0, 0, 1]), Err(FrameTooLarge));
    assert_eq!(frame_length(&[0xFF, 0xFF, 0xFF, 0xFF]), Err(FrameTooLarge));
}

#[test]
fn test_empty_frame() {
    assert!(matches!(dispatch_frame(0, None), ConnAction::HealthCheck));
}

#[test]
fn test_malformed_message() {
    assert!(matches!(dispatch_frame(3, None), ConnAction::Reject));
    assert!(matches!(dispatch_frame(3, Some(IpcEnvelope { msg: None })), ConnAction::Reject));
}

#[test]
fn authentication_frames_go_to_the_handler() {
    let request = PamAuthenticateRequest {
        request_id: "r1".to_string(),
        username: "alice".to_string(),
        tty_present: false,
        timeout_seconds: 30,
    };
    let envelope = IpcEnvelope { msg: Some(IpcMessage::PamAuthenticate(request)) };
    match dispatch_frame(10, Some(envelope)) {
        ConnAction::Authenticate(r) => assert_eq!(r.username, "alice"),
        other => panic!("unexpected {:?}", other),
    }
}

#[test]
fn pam_outcome_codes() {
    for o in [PamOutcome::Success, PamOutcome::Denied, PamOutcome::Timeout, PamOutcome::Error, PamOutcome::Ignore] {
        assert_eq!(PamOutcome::try_from_i32(o.as_i32()), Some(o));
    }
    assert_eq!(PamOutcome::try_from_i32(5), None);
    assert_eq!(PamOutcome::Ignore.as_i32(), 4);
}

// Authentication decisions.

fn servers_with(users: &[&str]) -> PairedServers {
    let mut servers: PairedServers = StringMap::new();
    servers.insert(
        "srv".to_string(),
        PairedServer {
            name: "phone".to_string(),
            public_key: "00".repeat(32),
            allowed_users: users.iter().map(|u| u.to_string()).collect(),
            paired_at: UtcTimestamp { seconds: 0, nanoseconds: 0 },
        },
    );
    servers
}

#[test]
fn precheck_answers_when_there_is_nothing_to_broadcast() {
    let challenge = [7u8; 32];
    let empty: PairedServers = StringMap::new();
    let r = auth_precheck(true, None, &empty, "alice", &challenge).unwrap();
    assert_eq!(r.outcome, PAM_OUTCOME_IGNORE);
    assert_eq!(r.detail, "No paired devices configured");
    assert_eq!(r.challenge, challenge.to_vec());
    let r = auth_precheck(false, Some("broken"), &empty, "alice", &challenge).unwrap();
    assert_eq!(r.outcome, PAM_OUTCOME_ERROR);
    assert_eq!(r.detail, "broken");
    let servers = servers_with(&["bob"]);
    let r = auth_precheck(true, None, &servers, "alice", &challenge).unwrap();
    assert_eq!(r.outcome, PAM_OUTCOME_IGNORE);
    assert!(auth_precheck(true, None, &servers, "bob", &challenge).is_none());
}

#[test]
fn server_keys_must_be_32_bytes_of_hex() {
    assert_eq!(decode_server_key(&"ab".repeat(32)), Some([0xab; 32]));
    assert_eq!(decode_server_key(&"AB".repeat(32)), Some([0xab; 32]));
    assert_eq!(decode_server_key(&"ab".repeat(31)), None);
    assert_eq!(decode_server_key("zz"), None);
}

#[test]
fn test_duplicate_request_id_handling() {
    let mut cache = NonceCache::new();
    assert!(cache.insert(&[1; 16], b"ciphertext"));
    assert!(!cache.insert(&[1; 16], b"ciphertext"));
    assert!(cache.insert(&[2; 16], b"ciphertext"));
}

#[test]
fn attempt_outcomes() {
    let challenge = [1u8; 32];
    let r = attempt_response(&AttemptResult::Authenticated, "alice", &challenge);
    assert_eq!(r.outcome, PAM_OUTCOME_SUCCESS);
    assert_eq!(r.detail, "Authenticated user alice successfully");
    let r = attempt_response(&AttemptResult::Failed(AuthHandlerError::ExplicitDenial), "alice", &challenge);
    assert_eq!(r.detail, "Authentication explicitly denied by user");
    let r = attempt_response(&AttemptResult::TimedOut, "alice", &challenge);
    assert_eq!(r.detail, "Authentication timeout");
    // No device answering in time is a denial.
    assert_eq!(r.outcome, PamOutcome::Denied.as_i32());
}

#[test]
fn reload_messages() {
    assert_eq!(reload_init_error(true, true), None);
    assert_eq!(
        reload_init_error(false, false).unwrap(),
        "Keypair and CSK unavailable after reload. Use tapauth-config to regenerate keys."
    );
}

// Administration.

#[test]
fn pairing_phases() {
    assert_eq!(wait_for_pairing_check(PairingPhase::Idle, 0).unwrap_err(), "No pending pairing session");
    assert!(wait_for_pairing_check(PairingPhase::Pending { port: 5000 }, 0).is_ok());
    assert!(wait_for_pairing_check(PairingPhase::Pending { port: 5000 }, 5000).is_ok());
    assert_eq!(
        wait_for_pairing_check(PairingPhase::Pending { port: 5000 }, 5001).unwrap_err(),
        "Port mismatch: expected 5000, got 5001"
    );
    assert!(complete_pairing_check(PairingPhase::Active).is_ok());
    assert_eq!(complete_pairing_check(PairingPhase::Idle).unwrap_err(), "No active pairing session");
}

#[test]
fn udp_port_validation() {
    assert_eq!(validate_udp_port(36692), Ok(36692));
    assert_eq!(validate_udp_port(65536 + 80), Ok(80));
    assert_eq!(validate_udp_port(0).unwrap_err(), "Invalid UDP port: must be 1-65535");
    assert!(validate_udp_port(65536).is_err());
}

#[test]
fn error_messages() {
    assert_eq!(DaemonError::Io("broken pipe".into()).message(), "io: broken pipe");
    assert_eq!(AdminError::Other("x".into()).message(), "x");
    assert_eq!(AdminError::Config(ConfigError::InvalidConfig).message(), "Config error: Invalid configuration");
    assert_eq!(AdminError::Io("denied".into()).message(), "IO error: denied");
}

// The virtual fingerprint device.

#[test]
fn fprintd_device_claims_and_verifies_once() {
    let mut device = VirtualFprintDevice::new();
    assert!(device.claim("alice".to_string()).is_ok());
    assert_eq!(device.claim("bob".to_string()), Err(ERROR_ALREADY_IN_USE));
    assert_eq!(device.verify_start(false), Err(ERROR_INTERNAL));
    assert!(device.verify_start(true).is_ok());
    assert!(device.finger_needed());
    assert_eq!(device.verify_start(true), Err(ERROR_ALREADY_IN_USE));
    device.verify_stop();
    assert!(!device.finger_needed());
    device.release();
    assert!(device.claim("bob".to_string()).is_ok());
}

#[test]
fn fprintd_fingers_and_statuses() {
    let empty: PairedServers = StringMap::new();
    assert_eq!(list_enrolled_fingers(&empty), Err(ERROR_NO_ENROLLED_PRINTS));
    assert_eq!(list_enrolled_fingers(&servers_with(&["a"])).unwrap(), vec!["right-index-finger".to_string()]);
    assert_eq!(verify_status(Some(0)), ("verify-match", true));
    assert_eq!(verify_status(Some(1)), ("verify-no-match", true));
    assert_eq!(verify_status(Some(2)), ("verify-unknown-error", true));
    assert_eq!(verify_status(None), ("verify-unknown-error", true));
}

// Peers.

const STAT: &str = "1234 (my (odd) cmd) S 1 1234 1234 0 -1 4194560 100 0 0 0 1 2 0 0 20 0 1 0 987654 123 4 5";

#[test]
fn process_start_time_is_field_twenty_after_the_name() {
    assert_eq!(parse_process_start_time(STAT), Ok(987654));
    assert_eq!(parse_process_start_time("1234 no paren"), Err(StatError::NoClosingParenthesis));
    assert_eq!(parse_process_start_time("1 (x) S 1 2 3"), Err(StatError::TooFewFields(4)));
    let bad = STAT.replace("987654", "98x654");
    assert_eq!(parse_process_start_time(&bad), Err(StatError::BadStartTime(false)));
    let huge = STAT.replace("987654", "99999999999999999999");
    assert_eq!(parse_process_start_time(&huge), Err(StatError::BadStartTime(true)));
}

#[test]
fn resolving_a_peer() {
    let peer = resolve_peer(1234, 1000, Ok(Some("alice".into())), Ok(STAT.into())).unwrap();
    assert_eq!(peer.username, "alice");
    assert_eq!(peer.start_time, 987654);
    assert_eq!(
        resolve_peer(1234, 1000, Ok(None), Ok(STAT.into())).unwrap_err(),
        "No user found for UID 1000"
    );
    assert_eq!(
        resolve_peer(1234, 1000, Err("EIO".into()), Ok(STAT.into())).unwrap_err(),
        "Failed to resolve UID 1000: EIO"
    );
    assert_eq!(
        resolve_peer(-7, 0, Ok(Some("root".into())), Err("gone".into())).unwrap_err(),
        "Failed to read /proc/-7/stat: gone"
    );
    assert_eq!(
        resolve_peer(42, 0, Ok(Some("root".into())), Ok("x".into())).unwrap_err(),
        "Malformed /proc/42/stat: no closing parenthesis"
    );
}

#[test]
fn polkit_decisions() {
    assert!(check_authorization(Ok(true), 1000).is_ok());
    assert_eq!(check_authorization(Ok(false), 0).unwrap_err(), "Authorization denied by PolKit");
    let unreachable = "Failed to connect to system D-Bus: No such file".to_string();
    assert!(check_authorization(Err(unreachable.clone()), 0).is_ok());
    assert_eq!(
        check_authorization(Err(unreachable.clone()), 1000).unwrap_err(),
        format!("Unauthorized: not root and PolKit unavailable ({})", unreachable)
    );
    assert_eq!(check_authorization(Err("Access denied".into()), 0).unwrap_err(), "Access denied");
}

#[test]
fn typed_peer_identity() {
    assert_eq!(
        typed::resolve_peer(0, 1, Some("a".into()), Ok(STAT.into())).unwrap_err(),
        PeerIdentityError::InvalidPid(0)
    );
    assert_eq!(
        typed::resolve_peer(5, 1, None, Ok(STAT.into())).unwrap_err(),
        PeerIdentityError::ResolveFailed
    );
    let id = typed::resolve_peer(5, 1, Some("a".into()), Ok(STAT.into())).unwrap();
    assert_eq!(id.start_time, 987654);
    assert_eq!(
        typed::resolve_peer(5, 1, Some("a".into()), Ok("1 (x) S".into())).unwrap_err().message(),
        "malformed /proc/5/stat: only 1 fields after comm"
    );
    assert_eq!(PeerIdentityError::InvalidPid(-3).message(), "invalid peer PID -3");
    let down = PeerIdentityError::DBusUnavailable("no bus".into());
    assert!(typed::check_authorization(Err(down.clone()), 0).is_ok());
    match typed::check_authorization(Err(down), 1000) {
        Err(PeerIdentityError::PolKitUnavailable { reason }) => assert_eq!(
            reason,
            "D-Bus unavailable (D-Bus connection failed: no bus) and caller is not root. Install PolicyKit or run as root."
        ),
        other => panic!("unexpected {:?}", other),
    }
    assert_eq!(
        typed::check_authorization(Ok(false), 0).unwrap_err(),
        PeerIdentityError::AuthorizationDenied
    );
}

use tapauth::daemon::service::{adopt_listen_fd, parse_i32};

#[test]
fn signed_numbers_parse_as_i32_from_str() {
    assert_eq!(parse_i32("42"), Some(42));
    assert_eq!(parse_i32("+42"), Some(42));
    assert_eq!(parse_i32("-42"), Some(-42));
    assert_eq!(parse_i32("-2147483648"), Some(i32::MIN));
    assert_eq!(parse_i32("2147483648"), None);
    assert_eq!(parse_i32("-+1"), None);
    assert_eq!(parse_i32("-"), None);
    assert_eq!(parse_i32(""), None);
}

#[test]
fn systemd_socket_is_adopted_only_for_this_process() {
    assert!(adopt_listen_fd(Some("1"), Some("4242"), 4242));
    assert!(!adopt_listen_fd(Some("1"), Some("4243"), 4242));
    assert!(!adopt_listen_fd(Some("0"), Some("4242"), 4242));
    assert!(!adopt_listen_fd(None, Some("4242"), 4242));
    assert!(!adopt_listen_fd(Some("1"), None, 4242));
    assert!(!adopt_listen_fd(Some("x"), Some("4242"), 4242));
}

#[test]
fn recorded_server_key_is_recognized() {
    let key = [0x5au8; 32];
    let (id, server) = tapauth::daemon::admin::paired_server_record(
        "phone".to_string(),
        &key,
        "alice",
        UtcTimestamp { seconds: 1, nanoseconds: 0 },
    );
    assert_eq!(id, "5a".repeat(32));
    assert_eq!(decode_server_key(&server.public_key), Some(key));
    assert_eq!(server.allowed_users, vec!["alice".to_string()]);
}

use tapauth::crypto::keys::{ClientSymmetricKey, Ed25519KeyPair};
use tapauth::crypto::CryptoError;
use tapauth::daemon::auth::{response_step, ResponseStep};
use tapauth::protocol::messages::{create_auth_denial, create_auth_grant, create_auth_cancel, sign_wrapper_message};
use tapauth::protocol::packet::{
    create_encrypted_packet_with_csk_nonce, wrap_auth_cancel, wrap_auth_denial, wrap_auth_grant,
};
use tapauth::protocol::ProtocolError;
use tapauth::text::hex_encode;

#[test]
fn answers_are_judged_in_order_replay_open_signature_content() {
    let csk = ClientSymmetricKey::from_bytes([2u8; 32]);
    let server = Ed25519KeyPair::generate().unwrap();
    let stranger = Ed25519KeyPair::generate().unwrap();
    let mut servers: PairedServers = StringMap::new();
    let id = hex_encode(&server.verifying_key_bytes());
    servers.insert(
        id.clone(),
        PairedServer {
            name: "phone".to_string(),
            public_key: id,
            allowed_users: vec!["alice".to_string()],
            paired_at: UtcTimestamp { seconds: 0, nanoseconds: 0 },
        },
    );
    let challenge = [4u8; 32];
    let packet_of = |mut w: tapauth::pb::wrapper_message::WrapperMessage, key: &Ed25519KeyPair| {
        sign_wrapper_message(&mut w, key).unwrap();
        create_encrypted_packet_with_csk_nonce(&csk, &w).unwrap()
    };
    let mut seen = NonceCache::new();

    let grant = packet_of(wrap_auth_grant(create_auth_grant(&server, &challenge).unwrap()), &server);
    assert_eq!(response_step(&mut seen, &csk, &grant, &challenge, &servers), ResponseStep::Granted);
    // The same bytes again are a replay.
    assert_eq!(response_step(&mut seen, &csk, &grant, &challenge, &servers), ResponseStep::NextAttempt);
    // Signed by a key that is not paired.
    let foreign = packet_of(wrap_auth_grant(create_auth_grant(&stranger, &challenge).unwrap()), &stranger);
    assert_eq!(response_step(&mut seen, &csk, &foreign, &challenge, &servers), ResponseStep::NextAttempt);
    // A denial of this challenge, and one of another.
    let denial = packet_of(wrap_auth_denial(create_auth_denial(&challenge).unwrap()), &server);
    assert_eq!(response_step(&mut seen, &csk, &denial, &challenge, &servers), ResponseStep::Denied);
    let other = packet_of(wrap_auth_denial(create_auth_denial(&[5u8; 32]).unwrap()), &server);
    assert_eq!(response_step(&mut seen, &csk, &other, &challenge, &servers), ResponseStep::SendAgain);
    // A signed message that decides nothing.
    let cancel = packet_of(wrap_auth_cancel(create_auth_cancel(&challenge).unwrap()), &server);
    assert_eq!(response_step(&mut seen, &csk, &cancel, &challenge, &servers), ResponseStep::SendAgain);
    // Sealed under another client's key: the attempt fails.
    let other_csk = ClientSymmetricKey::from_bytes([3u8; 32]);
    let mut w = wrap_auth_grant(create_auth_grant(&server, &challenge).unwrap());
    sign_wrapper_message(&mut w, &server).unwrap();
    let sealed_elsewhere = create_encrypted_packet_with_csk_nonce(&other_csk, &w).unwrap();
    assert_eq!(
        response_step(&mut seen, &csk, &sealed_elsewhere, &challenge, &servers),
        ResponseStep::Fail(ProtocolError::Crypto(CryptoError::DecryptionFailed))
    );
}

use tapauth::daemon::auth::{after_wait, before_send, CancelRegistry, Heard, LoopStep};

#[test]
fn cancelling_forgets_the_request_and_says_whether_it_was_known() {
    let mut reg = CancelRegistry::new();
    reg.register("req-1".to_string(), 11);
    reg.register("req-2".to_string(), 12);
    let (ticket, resp) = reg.handle_pam_cancel("req-1");
    assert_eq!(ticket, Some(11));
    assert_eq!(resp.outcome, PAM_OUTCOME_IGNORE);
    assert_eq!(resp.detail, "Cancel forwarded");
    assert!(resp.challenge.is_empty());
    // A second cancel of the same id finds nothing.
    let (ticket, resp) = reg.handle_pam_cancel("req-1");
    assert_eq!(ticket, None);
    assert_eq!(resp.outcome, PAM_OUTCOME_IGNORE);
    assert_eq!(resp.detail, "No matching request to cancel");
    // The other request is still there.
    assert_eq!(reg.remove("req-2"), Some(12));
    assert_eq!(reg.remove("req-2"), None);
}

#[test]
fn the_loop_sends_until_the_session_runs_out() {
    assert!(matches!(before_send(0, 0, 2000), LoopStep::Send { wait_ms: 200 }));
    assert!(matches!(before_send(3, 100, 2000), LoopStep::Send { wait_ms: 1600 }));
    assert!(matches!(before_send(9, 100, 2000), LoopStep::Send { wait_ms: 6400 }));
    assert!(matches!(
        before_send(1, 2000, 2000),
        LoopStep::Done(AttemptResult::Failed(AuthHandlerError::Timeout))
    ));
    assert!(matches!(
        before_send(0, 0, 0),
        LoopStep::Done(AttemptResult::Failed(AuthHandlerError::Timeout))
    ));
}

#[test]
fn what_was_heard_decides_the_next_attempt() {
    assert!(matches!(after_wait(2, Heard::Nothing), Ok(3)));
    assert!(matches!(after_wait(2, Heard::Answer(ResponseStep::NextAttempt)), Ok(3)));
    assert!(matches!(after_wait(2, Heard::Answer(ResponseStep::SendAgain)), Ok(2)));
    assert!(matches!(after_wait(u32::MAX, Heard::Nothing), Ok(u32::MAX)));
    assert!(matches!(
        after_wait(2, Heard::Answer(ResponseStep::Granted)),
        Err(AttemptResult::Authenticated)
    ));
    assert!(matches!(
        after_wait(2, Heard::Answer(ResponseStep::Denied)),
        Err(AttemptResult::Failed(AuthHandlerError::ExplicitDenial))
    ));
    assert!(matches!(
        after_wait(2, Heard::Answer(ResponseStep::Fail(ProtocolError::Crypto(CryptoError::DecryptionFailed)))),
        Err(AttemptResult::Failed(AuthHandlerError::Protocol(ProtocolError::Crypto(CryptoError::DecryptionFailed))))
    ));
}

use tapauth::daemon::ipc::{
    AdminRequest, AdminRequestPayload, AdminResponse, AdminResponsePayload, PairedServerInfo,
    PamAuthenticateResponse, PamCancelRequest,
};
use tapauth::daemon::ipc_codec::{decode_ipc_envelope, dispatch_body, encode_ipc_envelope};

fn roundtrip(e: IpcEnvelope) {
    let bytes = encode_ipc_envelope(&e);
    let back = decode_ipc_envelope(&bytes).expect("decodes");
    assert_eq!(format!("{:?}", back), format!("{:?}", e));
}

#[test]
fn authentication_request_has_its_protobuf_bytes() {
    let e = IpcEnvelope {
        msg: Some(IpcMessage::PamAuthenticate(PamAuthenticateRequest {
            request_id: "r1".to_string(),
            username: "bob".to_string(),
            tty_present: true,
            timeout_seconds: 30,
        })),
    };
    let bytes = encode_ipc_envelope(&e);
    assert_eq!(
        bytes,
        vec![0x0a, 0x0d, 0x0a, 0x02, b'r', b'1', 0x12, 0x03, b'b', b'o', b'b', 0x18, 0x01, 0x20, 0x1e]
    );
    roundtrip(e);
}

#[test]
fn every_ipc_message_reads_back() {
    roundtrip(IpcEnvelope { msg: None });
    roundtrip(IpcEnvelope {
        msg: Some(IpcMessage::PamCancel(PamCancelRequest { request_id: "x".to_string(), reason: "gone".to_string() })),
    });
    roundtrip(IpcEnvelope {
        msg: Some(IpcMessage::PamResponse(PamAuthenticateResponse {
            outcome: -1,
            detail: "é ok".to_string(),
            challenge: vec![0, 1, 2, 255],
        })),
    });
    let commands = vec![
        AdminRequestPayload::GetServers,
        AdminRequestPayload::StartPairing,
        AdminRequestPayload::WaitForPairing { port: 40000 },
        AdminRequestPayload::CompletePairing,
        AdminRequestPayload::RemoveDevice { public_key: "abcd".to_string() },
        AdminRequestPayload::RotateCsk,
        AdminRequestPayload::SaveConfig { hostname: "box".to_string(), udp_port: 36692 },
        AdminRequestPayload::GetConfig,
        AdminRequestPayload::RecoverTpm,
    ];
    for c in commands {
        roundtrip(IpcEnvelope { msg: Some(IpcMessage::AdminRequest(AdminRequest { payload: Some(c) })) });
    }
    roundtrip(IpcEnvelope { msg: Some(IpcMessage::AdminRequest(AdminRequest { payload: None })) });
    let server = PairedServerInfo {
        name: "phone".to_string(),
        public_key: "00ff".to_string(),
        allowed_users: vec!["alice".to_string(), String::new(), "bob".to_string()],
        paired_at: "2024-01-01T00:00:00+00:00".to_string(),
    };
    let results = vec![
        AdminResponsePayload::GetServers { servers: vec![server.clone(), server] },
        AdminResponsePayload::GetServers { servers: vec![] },
        AdminResponsePayload::StartPairing { url: "tapauth://pair?v=1".to_string(), port: 1 },
        AdminResponsePayload::WaitForPairing { sas_code: "123 456".to_string(), port: 2 },
        AdminResponsePayload::CompletePairing { server_hex: "aa".to_string() },
        AdminResponsePayload::GetConfig { hostname: "h".to_string(), udp_port: 0 },
    ];
    for p in results {
        roundtrip(IpcEnvelope {
            msg: Some(IpcMessage::AdminResponse(AdminResponse {
                status: 1,
                error_message: "bad".to_string(),
                payload: Some(p),
            })),
        });
    }
}

#[test]
fn frame_bodies_are_dispatched_by_what_they_decode_to() {
    assert!(matches!(dispatch_body(&[]), ConnAction::HealthCheck));
    let auth = [0x0a, 0x0d, 0x0a, 0x02, b'r', b'1', 0x12, 0x03, b'b', b'o', b'b', 0x18, 0x01, 0x20, 0x1e];
    match dispatch_body(&auth) {
        ConnAction::Authenticate(r) => {
            assert_eq!(r.request_id, "r1");
            assert_eq!(r.username, "bob");
            assert!(r.tty_present);
            assert_eq!(r.timeout_seconds, 30);
        }
        other => panic!("unexpected {:?}", other),
    }
    // An administration request for the server list.
    assert!(matches!(
        dispatch_body(&[0x1a, 0x02, 0x0a, 0x00]),
        ConnAction::Admin(AdminRequest { payload: Some(AdminRequestPayload::GetServers) })
    ));
    // A response, an envelope holding only an unknown field, a truncated
    // message and a string that is not UTF-8 are all rejected.
    assert!(matches!(dispatch_body(&[0x22, 0x02, 0x08, 0x01]), ConnAction::Reject));
    assert!(matches!(dispatch_body(&[0x30, 0x01]), ConnAction::Reject));
    assert!(matches!(dispatch_body(&[0x0a, 0x05, 0x0a]), ConnAction::Reject));
    assert!(matches!(dispatch_body(&[0x12, 0x03, 0x0a, 0x01, 0xff]), ConnAction::Reject));
    // A member written as a varint is malformed.
    assert!(matches!(dispatch_body(&[0x08, 0x01, 0x10, 0x01]), ConnAction::Reject));
}
