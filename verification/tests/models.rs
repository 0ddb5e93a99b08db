use tapauth::models::{
    generate_pairing_url, PairingInfo, BLE_CLIENT_COMMAND_CHAR_UUID, BLE_SERVER_RESPONSE_CHAR_UUID,
    BLE_SERVICE_UUID, PAIRING_URL_PREFIX,
};

#[test]
fn test_pairing_url_generation() {
    let url = generate_pairing_url("aabbccdd", 12345, Some("192.168.1.100"), Some("fe80::1"));
    assert!(url.starts_with("tapauth://pair?"));
    assert!(url.contains("pk=aabbccdd"));
    assert!(url.contains("p=12345"));
    assert!(url.contains("ip4=192.168.1.100"));
}

#[test]
fn pairing_url_has_its_exact_shape() {
    assert_eq!(
        generate_pairing_url("ab", 7, None, None),
        "tapauth://pair?v=1&pk=ab&p=7"
    );
    assert_eq!(
        generate_pairing_url("ab", 65535, Some("10.0.0.1"), Some("fe80::1")),
        "tapauth://pair?v=1&pk=ab&p=65535&ip4=10.0.0.1&ip6=fe80::1"
    );
}

#[test]
fn test_pairing_url_parsing() {
    let url = "tapauth://pair?v=1&pk=aabbccdd&p=12345&ip4=192.168.1.100";
    let info = PairingInfo::parse(url).unwrap();
    assert_eq!(info.version, 1);
    assert_eq!(info.public_key_hex, "aabbccdd");
    assert_eq!(info.port, 12345);
    assert!(info.ipv4.is_some());
    assert_eq!(info.ipv6, None);
}

#[test]
fn generated_url_parses_back() {
    let url = generate_pairing_url("00ff", 36692, Some("192.168.0.2"), Some("fe80::2"));
    let info = PairingInfo::parse(&url).unwrap();
    assert_eq!(
        info,
        PairingInfo {
            version: 1,
            public_key_hex: "00ff".to_string(),
            port: 36692,
            ipv4: Some("192.168.0.2".to_string()),
            ipv6: Some("fe80::2".to_string()),
        }
    );
}

#[test]
fn pairing_url_errors() {
    assert_eq!(PairingInfo::parse("https://pair?v=1").unwrap_err(), "Invalid URL scheme");
    assert_eq!(PairingInfo::parse("tapauth://pair").unwrap_err(), "Invalid URL scheme");
    assert_eq!(PairingInfo::parse("tapauth://pair?v=1&pk").unwrap_err(), "Invalid query");
    assert_eq!(PairingInfo::parse("tapauth://pair?").unwrap_err(), "Invalid query");
    assert_eq!(PairingInfo::parse("tapauth://pair?v=x&pk=a&p=1").unwrap_err(), "Invalid version");
    assert_eq!(PairingInfo::parse("tapauth://pair?v=4294967296&pk=a&p=1").unwrap_err(), "Invalid version");
    assert_eq!(PairingInfo::parse("tapauth://pair?v=1&pk=a&p=65536").unwrap_err(), "Invalid port");
    assert_eq!(PairingInfo::parse("tapauth://pair?pk=a&p=1").unwrap_err(), "Missing version");
    assert_eq!(PairingInfo::parse("tapauth://pair?v=1&p=1").unwrap_err(), "Missing public key");
    assert_eq!(PairingInfo::parse("tapauth://pair?v=1&pk=a").unwrap_err(), "Missing port");
}

#[test]
fn pairing_url_later_values_win_and_unknown_keys_are_skipped() {
    let info = PairingInfo::parse("tapauth://pair?v=1&pk=a&x=y&pk=b&p=+2&p=3").unwrap();
    assert_eq!(info.public_key_hex, "b");
    assert_eq!(info.port, 3);
    // Only the text up to the second `=` counts as the value.
    let info = PairingInfo::parse("tapauth://pair?v=1&pk=a=b&p=1").unwrap();
    assert_eq!(info.public_key_hex, "a");
}

#[test]
fn ble_identifiers() {
    assert_eq!(BLE_SERVICE_UUID, "b4ad84c0-2adb-4876-8315-b39d983b2bde");
    assert_eq!(BLE_CLIENT_COMMAND_CHAR_UUID, "caf54438-9d78-4697-8886-0a4cfa87ba8d");
    assert_eq!(BLE_SERVER_RESPONSE_CHAR_UUID, "ca6238be-c194-49b7-855b-58f41d3da626");
    assert_eq!(PAIRING_URL_PREFIX, "tapauth://pair?");
}

use tapauth::address_text::{is_ipv4_text, is_ipv6_text};

#[test]
fn dotted_quads_are_read_as_ipv4_addresses() {
    for ok in ["0.0.0.0", "192.168.1.100", "255.255.255.255", "10.0.0.1", "1.22.103.9"] {
        assert!(is_ipv4_text(ok), "{ok}");
    }
    for bad in [
        "", "1.2.3", "1.2.3.4.5", "256.1.1.1", "01.2.3.4", "1.2.3.00", "1..2.3", "1.2.3.4 ", "+1.2.3.4",
        "1.2.3.1000", "a.b.c.d", "1.2.3.-4",
    ] {
        assert!(!is_ipv4_text(bad), "{bad}");
    }
}

#[test]
fn colon_groups_are_read_as_ipv6_addresses() {
    for ok in [
        "::", "::1", "fe80::1", "1::", "1:2:3:4:5:6:7:8", "FE80:0:0:0:0:0:0:1", "0000:ffff::abcd",
        "1:2:3:4:5:6:7::", "::2:3:4:5:6:7:8", "::ffff:192.168.1.1", "1:2:3:4:5:6:1.2.3.4",
        "1::5:6:7:8", "64:ff9b::10.0.0.1",
    ] {
        assert!(is_ipv6_text(ok), "{ok}");
    }
    for bad in [
        "", ":", ":::", "1:2:3:4:5:6:7", "1:2:3:4:5:6:7:8:9", "1:2:3:4:5:6:7:8::", "::1:2:3:4:5:6:7:8",
        "12345::", "1::2::3", "1:::2", ":1:2:3:4:5:6:7", "1:2:3:4:5:6:7:", "g::", "1.2.3.4::",
        "::1.2.3.4:5", "1:2:3:4:5:6:7:1.2.3.4", "1:2:3:4:5:6::1.2.3.4", "fe80::1%eth0", "::256.1.1.1",
    ] {
        assert!(!is_ipv6_text(bad), "{bad}");
    }
}

#[test]
fn pairing_urls_with_bad_addresses_are_refused() {
    assert_eq!(
        PairingInfo::parse("tapauth://pair?v=1&pk=ab&p=1&ip4=300.1.1.1").unwrap_err(),
        "Invalid IPv4"
    );
    assert_eq!(
        PairingInfo::parse("tapauth://pair?v=1&pk=ab&p=1&ip4=fe80::1").unwrap_err(),
        "Invalid IPv4"
    );
    assert_eq!(
        PairingInfo::parse("tapauth://pair?v=1&pk=ab&p=1&ip6=fe80:::1").unwrap_err(),
        "Invalid IPv6"
    );
    assert_eq!(
        PairingInfo::parse("tapauth://pair?v=1&pk=ab&p=1&ip6=10.0.0.1").unwrap_err(),
        "Invalid IPv6"
    );
    let info = PairingInfo::parse("tapauth://pair?v=1&pk=ab&p=1&ip4=10.0.0.1&ip6=::ffff:10.0.0.1").unwrap();
    assert_eq!(info.ipv4.as_deref(), Some("10.0.0.1"));
    assert_eq!(info.ipv6.as_deref(), Some("::ffff:10.0.0.1"));
}
