use std::time::Duration;
use tapauth::dbus_interface::{AuthRequest, AuthResult};
use tapauth::network::discovery::{
    get_client_retry_interval, get_server_retry_interval, get_session_timeout,
    next_retransmit_step, RetransmitStep,
};

fn client_retry(attempt: u32) -> Duration {
    Duration::from_millis(get_client_retry_interval(attempt))
}

#[test]
fn test_retry_intervals() {
    assert_eq!(client_retry(0), Duration::from_millis(200));
    assert_eq!(client_retry(1), Duration::from_millis(400));
    assert_eq!(client_retry(2), Duration::from_millis(800));
}

#[test]
fn test_server_retry() {
    assert_eq!(Duration::from_millis(get_server_retry_interval()), Duration::from_millis(500));
}

#[test]
fn test_session_timeout() {
    assert_eq!(Duration::from_secs(get_session_timeout()), Duration::from_secs(120));
}

#[test]
fn test_retry_interval_max_backoff() {
    assert_eq!(client_retry(5), Duration::from_millis(6400));
    assert_eq!(client_retry(6), Duration::from_millis(6400));
    assert_eq!(client_retry(10), Duration::from_millis(6400));
    assert_eq!(client_retry(100), Duration::from_millis(6400));
}

#[test]
fn test_retry_interval_exponential_growth() {
    assert_eq!(client_retry(0), Duration::from_millis(200));
    assert_eq!(client_retry(1), Duration::from_millis(400));
    assert_eq!(client_retry(2), Duration::from_millis(800));
    assert_eq!(client_retry(3), Duration::from_millis(1600));
    assert_eq!(client_retry(4), Duration::from_millis(3200));
}

#[test]
fn retry_interval_at_the_largest_attempt() {
    assert_eq!(get_client_retry_interval(u32::MAX), 6400);
}

#[test]
fn retransmission_waits_then_gives_up_at_the_deadline() {
    assert_eq!(
        next_retransmit_step(0, 0, 5000),
        RetransmitStep::Retry { sleep_ms: 200, next_attempt: 1 }
    );
    assert_eq!(
        next_retransmit_step(7, 4999, 5000),
        RetransmitStep::Retry { sleep_ms: 6400, next_attempt: 8 }
    );
    assert_eq!(next_retransmit_step(3, 5000, 5000), RetransmitStep::GiveUp);
    assert_eq!(next_retransmit_step(0, 10, 0), RetransmitStep::GiveUp);
}

#[test]
fn auth_result_codes_round_trip() {
    for result in [AuthResult::Granted, AuthResult::Denied, AuthResult::Timeout, AuthResult::Error] {
        assert_eq!(AuthResult::from_u32(result.to_u32()), result);
    }
    assert_eq!(AuthResult::Granted.to_u32(), 0);
    assert_eq!(AuthResult::Error.to_u32(), 3);
    assert_eq!(AuthResult::from_u32(2), AuthResult::Timeout);
    assert_eq!(AuthResult::from_u32(99), AuthResult::Error);
}

#[test]
fn auth_request_holds_its_fields() {
    let request = AuthRequest::new(vec![1, 2, 3], vec![4; 10], 30);
    assert_eq!(request.encrypted_packet, vec![1, 2, 3]);
    assert_eq!(request.temporal_id, vec![4; 10]);
    assert_eq!(request.timeout_secs, 30);
}

use tapauth::l10n::detect_locale;
use tapauth::network::interfaces::{is_link_local_v4, select_ipv4, select_ipv6};

fn v4(a: u8, b: u8, c: u8, d: u8) -> u32 {
    u32::from_be_bytes([a, b, c, d])
}

#[test]
fn test_select_ipv4_prefers_routable_over_apipa() {
    let apipa = v4(169, 254, 1, 2);
    let routable = v4(192, 168, 1, 10);
    assert_eq!(select_ipv4(&[apipa, routable]), Some(routable));
    assert_eq!(select_ipv4(&[routable, apipa]), Some(routable));
    assert_eq!(select_ipv4(&[apipa]), Some(apipa));
    assert_eq!(select_ipv4(&[]), None);
}

#[test]
fn smallest_address_wins_whatever_the_order() {
    let a = v4(10, 0, 0, 2);
    let b = v4(10, 0, 0, 1);
    let c = v4(169, 254, 0, 1);
    assert_eq!(select_ipv4(&[a, c, b]), Some(b));
    assert_eq!(select_ipv4(&[c, v4(169, 254, 0, 0)]), Some(v4(169, 254, 0, 0)));
    assert!(is_link_local_v4(v4(169, 254, 255, 255)));
    assert!(!is_link_local_v4(v4(169, 253, 0, 1)));
    assert_eq!(select_ipv6(&[5, 3, 9]), Some(3));
    assert_eq!(select_ipv6(&[]), None);
}

fn env(values: &[Option<&str>]) -> Vec<Option<String>> {
    values.iter().map(|v| v.map(|s| s.to_string())).collect()
}

#[test]
fn locale_detection() {
    let available = ["en", "en-us", "de", "pt_BR"];
    assert_eq!(detect_locale(&env(&[None, None, Some("de_DE.UTF-8")]), &available), "de");
    assert_eq!(detect_locale(&env(&[None, None, Some("en_US.UTF-8")]), &available), "en-us");
    assert_eq!(detect_locale(&env(&[None, None, Some("EN-US")]), &available), "en-us");
    assert_eq!(detect_locale(&env(&[None, None, Some("pt-br")]), &available), "pt_BR");
    // LC_ALL wins over LANG; a value that selects nothing passes the turn.
    assert_eq!(detect_locale(&env(&[Some("de"), None, Some("en")]), &available), "de");
    assert_eq!(detect_locale(&env(&[Some("fr_FR"), None, Some("de")]), &available), "de");
    // "english" does not refine "en": the next character must be - . or @.
    assert_eq!(detect_locale(&env(&[None, None, Some("english")]), &available), "en");
    assert_eq!(detect_locale(&env(&[None, None, Some("fr")]), &available), "en");
    assert_eq!(detect_locale(&env(&[None, None, None]), &available), "en");
}

use tapauth::ble::{advertise_failure_message, advertise_step, ble_confirmation_packet, grace_ms, AdvertiseStep};
use tapauth::crypto::encryption::decrypt_with_csk_and_prepended_nonce;
use tapauth::crypto::keys::ClientSymmetricKey;
use tapauth::pb::wrapper_message::{Payload, WrapperMessage};
use tapauth::pb::EncryptedPacket;

#[test]
fn advertising_retries() {
    assert_eq!(advertise_step(1, "org.bluez.Error.Failed: Busy"), AdvertiseStep::Retry { delay_ms: 150 });
    assert_eq!(advertise_step(2, "status 0x0a"), AdvertiseStep::Retry { delay_ms: 150 });
    assert_eq!(advertise_step(4, "Not ready"), AdvertiseStep::Retry { delay_ms: 100 });
    assert_eq!(advertise_step(5, "Busy"), AdvertiseStep::GiveUp);
    assert_eq!(advertise_failure_message("x"), "Failed to start BLE advertising after 5 attempts: x");
}

#[test]
fn grace_period_setting() {
    assert_eq!(grace_ms(None), 300);
    assert_eq!(grace_ms(Some("1500")), 1500);
    assert_eq!(grace_ms(Some("soon")), 300);
}

#[test]
fn ble_confirmation_reuses_the_request_identifier() {
    let csk = ClientSymmetricKey::from_bytes([3u8; 32]);
    let request = EncryptedPacket { temporal_identifier: vec![9; 16], encryption_algorithm: 1, ciphertext: vec![1, 2] };
    let packet = ble_confirmation_packet(&csk, &[4u8; 32], &request).unwrap();
    assert_eq!(packet.temporal_identifier, vec![9; 16]);
    assert_eq!(packet.encryption_algorithm, 1);
    let plain = decrypt_with_csk_and_prepended_nonce(&csk, &packet.ciphertext).unwrap();
    let wrapper = WrapperMessage::decode(&plain).unwrap();
    match wrapper.payload {
        Some(Payload::GrantConfirmation(c)) => assert_eq!(c.challenge, vec![4u8; 32]),
        other => panic!("unexpected {:?}", other),
    }
    assert!(wrapper.signature.is_empty());
}

use tapauth::ble::ble_grant_response;
use tapauth::crypto::keys::Ed25519KeyPair;
use tapauth::protocol::messages::{create_auth_denial, create_auth_grant};
use tapauth::protocol::packet::{create_encrypted_packet_with_csk_nonce, wrap_auth_denial, wrap_auth_grant};

#[test]
fn ble_response_is_taken_only_when_it_is_a_grant_for_this_client() {
    let csk = ClientSymmetricKey::from_bytes([5u8; 32]);
    let keypair = Ed25519KeyPair::generate().unwrap();
    let grant = wrap_auth_grant(create_auth_grant(&keypair, &[6u8; 32]).unwrap());
    let packet = create_encrypted_packet_with_csk_nonce(&csk, &grant).unwrap();
    let bytes = packet.encode_to_vec();
    let taken = ble_grant_response(&csk, &bytes).unwrap();
    assert_eq!(taken.ciphertext, packet.ciphertext);
    assert_eq!(taken.temporal_identifier, packet.temporal_identifier);

    // Another client's key, a denial, and bytes that are no packet are skipped.
    let other = ClientSymmetricKey::from_bytes([7u8; 32]);
    assert!(ble_grant_response(&other, &bytes).is_none());
    let denial = wrap_auth_denial(create_auth_denial(&[6u8; 32]).unwrap());
    let denied = create_encrypted_packet_with_csk_nonce(&csk, &denial).unwrap().encode_to_vec();
    assert!(ble_grant_response(&csk, &denied).is_none());
    assert!(ble_grant_response(&csk, &[0xff, 0xff, 0xff]).is_none());
}

use tapauth::network::udp::{
    is_loopback, normalize_source, receive_verdict, DatagramVerdict, IpAddress, LocalAddressCache,
    MAX_UDP_MESSAGE_SIZE,
};

#[test]
fn sources_carrying_ipv4_are_compared_as_ipv4() {
    // ::ffff:192.168.0.1 is IPv4-mapped.
    assert_eq!(normalize_source(IpAddress::V6(0xffff_c0a8_0001)), IpAddress::V4(0xc0a8_0001));
    // ::192.168.0.1 is IPv4-compatible.
    assert_eq!(normalize_source(IpAddress::V6(0xc0a8_0001)), IpAddress::V4(0xc0a8_0001));
    // fe80::1 carries none.
    let link_local = 0xfe80_0000_0000_0000_0000_0000_0000_0001u128;
    assert_eq!(normalize_source(IpAddress::V6(link_local)), IpAddress::V6(link_local));
    assert_eq!(normalize_source(IpAddress::V4(7)), IpAddress::V4(7));
}

#[test]
fn loopback_addresses() {
    assert!(is_loopback(IpAddress::V4(0x7f00_0001)));
    assert!(is_loopback(IpAddress::V4(0x7fff_fffe)));
    assert!(is_loopback(IpAddress::V6(1)));
    assert!(!is_loopback(IpAddress::V4(0xc0a8_0001)));
    assert!(!is_loopback(IpAddress::V6(2)));
}

#[test]
fn local_address_cache_is_listed_again_after_a_second() {
    let mut cache = LocalAddressCache::new();
    assert!(cache.needs_refresh(0));
    let listed = [IpAddress::V4(0xc0a8_0002), IpAddress::V4(0xc0a8_0002), IpAddress::V6(5)];
    cache.refresh(Some(&listed), 100);
    assert!(!cache.needs_refresh(500));
    assert!(cache.needs_refresh(1100));
    assert!(cache.is_local_ip(IpAddress::V4(0xc0a8_0002)));
    assert!(cache.is_local_ip(IpAddress::V6(5)));
    assert!(cache.is_local_ip(IpAddress::V4(0x7f00_0001)));
    assert!(!cache.is_local_ip(IpAddress::V4(0xc0a8_0003)));
    // A failed listing keeps the addresses and restarts the wait.
    cache.refresh(None, 2000);
    assert!(cache.is_local_ip(IpAddress::V6(5)));
    assert!(!cache.needs_refresh(2500));
    // An empty listing is listed again at once.
    cache.refresh(Some(&[]), 3000);
    assert!(cache.needs_refresh(3000));
}

#[test]
fn datagrams_from_this_host_and_oversized_ones_are_dropped() {
    let mut cache = LocalAddressCache::new();
    cache.refresh(Some(&[IpAddress::V4(0xc0a8_0002)]), 0);
    let packet = EncryptedPacket { temporal_identifier: vec![1; 16], encryption_algorithm: 1, ciphertext: vec![2; 40] };
    let bytes = packet.encode_to_vec();
    let peer = IpAddress::V4(0xc0a8_0009);
    let me = IpAddress::V6(0xffff_c0a8_0002);

    assert_eq!(receive_verdict(&cache, peer, 36692, Some(36692), false, &bytes), DatagramVerdict::Packet(packet.clone()));
    assert_eq!(receive_verdict(&cache, me, 36692, Some(36692), true, &bytes), DatagramVerdict::SelfEcho);
    assert_eq!(receive_verdict(&cache, me, 5000, Some(36692), false, &bytes), DatagramVerdict::SelfSent);
    assert_eq!(receive_verdict(&cache, me, 5000, Some(36692), true, &bytes), DatagramVerdict::Packet(packet));
    let big = vec![0u8; MAX_UDP_MESSAGE_SIZE + 1];
    assert_eq!(receive_verdict(&cache, peer, 1, None, false, &big), DatagramVerdict::TooLarge);
    assert_eq!(receive_verdict(&cache, peer, 1, None, false, &[0xff, 0xff]), DatagramVerdict::Malformed);
}

use tapauth::network::interfaces::{group_interfaces, InterfaceAddress};

fn entry(name: &str, loopback: bool, addr: IpAddress) -> InterfaceAddress {
    InterfaceAddress { name: name.to_string(), loopback, addr }
}

#[test]
fn interfaces_are_grouped_by_name_in_name_order() {
    let list = vec![
        entry("wlan0", false, IpAddress::V4(0xa9fe_0102)),
        entry("lo", true, IpAddress::V4(0x7f00_0001)),
        entry("eth0", false, IpAddress::V6(0xfe80_0000_0000_0000_0000_0000_0000_0002)),
        entry("wlan0", false, IpAddress::V4(0xc0a8_0105)),
        entry("eth0", false, IpAddress::V6(0xfe80_0000_0000_0000_0000_0000_0000_0001)),
        entry("wlan0", false, IpAddress::V4(0xc0a8_0104)),
        entry("docker0", false, IpAddress::V4(0xa9fe_0909)),
    ];
    let groups = group_interfaces(&list);
    let names: Vec<&str> = groups.iter().map(|g| g.name.as_str()).collect();
    assert_eq!(names, vec!["docker0", "eth0", "wlan0"]);
    // Only link-local IPv4: the smallest of those.
    assert_eq!(groups[0].ipv4, Some(0xa9fe_0909));
    assert_eq!(groups[0].ipv6, None);
    // No IPv4; the smallest IPv6.
    assert_eq!(groups[1].ipv4, None);
    assert_eq!(groups[1].ipv6, Some(0xfe80_0000_0000_0000_0000_0000_0000_0001));
    // A routable IPv4 wins over a link-local one; the smallest routable.
    assert_eq!(groups[2].ipv4, Some(0xc0a8_0104));
    assert!(group_interfaces(&[entry("lo", true, IpAddress::V6(1))]).is_empty());
}

use tapauth::network::NetworkError;
use tapauth::protocol::ProtocolError;
use tapauth::text::text_lt;

#[test]
fn names_are_ordered_as_strings_are() {
    assert!(text_lt("eth0", "wlan0"));
    assert!(text_lt("eth", "eth0"));
    assert!(!text_lt("eth0", "eth"));
    assert!(!text_lt("lo", "lo"));
    assert!(text_lt("Z", "a"));
    assert!(text_lt("", "a"));
}

#[test]
fn network_error_messages() {
    assert_eq!(NetworkError::Io("refused".to_string()).message(), "IO error: refused");
    assert_eq!(NetworkError::Protocol(ProtocolError::InvalidSignature).message(), "Protocol error: Invalid signature");
    assert_eq!(NetworkError::Decode.message(), "Decode error: failed to decode Protobuf message");
    assert_eq!(NetworkError::NoResponse.message(), "No response received");
    assert_eq!(NetworkError::Timeout.message(), "Timeout");
}

use tapauth::ble::GattState;

#[test]
fn gatt_answers_are_taken_oldest_first_until_a_grant() {
    let csk = ClientSymmetricKey::from_bytes([5u8; 32]);
    let keypair = Ed25519KeyPair::generate().unwrap();
    let request = EncryptedPacket { temporal_identifier: vec![3; 10], encryption_algorithm: 1, ciphertext: vec![7; 20] };
    let mut gatt = GattState::new(request.encode_to_vec());
    assert_eq!(gatt.read_request(), request.encode_to_vec());
    assert!(gatt.read_confirmation().is_empty());
    assert!(gatt.take_grant(&csk, &[6u8; 32], &request).is_none());

    let denial = wrap_auth_denial(create_auth_denial(&[6u8; 32]).unwrap());
    let grant = wrap_auth_grant(create_auth_grant(&keypair, &[6u8; 32]).unwrap());
    let grant_packet = create_encrypted_packet_with_csk_nonce(&csk, &grant).unwrap();
    gatt.write_response(vec![0xff, 0xff]);
    gatt.write_response(create_encrypted_packet_with_csk_nonce(&csk, &denial).unwrap().encode_to_vec());
    gatt.write_response(grant_packet.encode_to_vec());
    gatt.write_response(grant_packet.encode_to_vec());

    let taken = gatt.take_grant(&csk, &[6u8; 32], &request).unwrap();
    assert_eq!(taken.ciphertext, grant_packet.ciphertext);
    let confirmation = EncryptedPacket::decode(&gatt.read_confirmation()).unwrap();
    assert_eq!(confirmation.temporal_identifier, vec![3; 10]);
    let plain = decrypt_with_csk_and_prepended_nonce(&csk, &confirmation.ciphertext).unwrap();
    match WrapperMessage::decode(&plain).unwrap().payload {
        Some(Payload::GrantConfirmation(c)) => assert_eq!(c.challenge, vec![6u8; 32]),
        other => panic!("unexpected {:?}", other),
    }
    // The later answer is still queued.
    assert!(gatt.take_grant(&csk, &[6u8; 32], &request).is_some());
    assert!(gatt.take_grant(&csk, &[6u8; 32], &request).is_none());
}

use tapauth::network::interfaces::{multicast_interfaces, InterfaceChoice, MulticastInterface};

#[test]
fn interfaces_without_an_index_are_left_out() {
    let choice = |name: &str, v4: Option<u32>, v6: Option<u128>| InterfaceChoice {
        name: name.to_string(),
        ipv4: v4,
        ipv6: v6,
    };
    let choices = vec![
        choice("eth0", Some(0xC0A8_0001), None),
        choice("tun0", Some(0x0A00_0001), None),
        choice("wlan0", None, Some(0xfe80 << 112 | 1)),
        choice("zz0", Some(0x0A00_0002), None),
    ];
    let indices = vec![Some(2), None, Some(7), Some(0)];
    let out = multicast_interfaces(choices, indices);
    assert_eq!(
        out,
        vec![
            MulticastInterface { name: "eth0".to_string(), index: 2, ipv4: Some(0xC0A8_0001), ipv6: None },
            MulticastInterface { name: "wlan0".to_string(), index: 7, ipv4: None, ipv6: Some(0xfe80 << 112 | 1) },
        ]
    );
    assert!(multicast_interfaces(vec![], vec![]).is_empty());
}
