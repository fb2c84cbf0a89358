use iso_usb_hub::net_config::format_network_toast_lines;
use iso_usb_hub::net_config::{
    build_net_config_dhcp, build_net_config_from_env, derive_device_names, format_ipv4,
    format_mac_lower, parse_ipv4, parse_u8, sanitize_hostname,
};
use iso_usb_hub::network::Ipv4Plan;
use iso_usb_hub::provisioning::{StaticIpv4Config, WifiCredentials};

#[test]
fn dotted_quad_and_mac_text() {
    assert_eq!(format_ipv4([192, 168, 1, 42]).as_str(), "192.168.1.42");
    assert_eq!(format_ipv4([255, 255, 255, 255]).as_str(), "255.255.255.255");
    assert_eq!(format_ipv4([0, 0, 0, 0]).as_str(), "0.0.0.0");
    assert_eq!(format_mac_lower([0x02, 0xAA, 0xBB, 0xCC, 0xDD, 0xEE]).as_str(), "02:aa:bb:cc:dd:ee");
}

#[test]
fn hostname_keeps_letters_digits_and_dashes() {
    assert_eq!(sanitize_hostname("My Hub_01-Lab!").as_str(), "myhub01-lab");
    assert_eq!(sanitize_hostname("Ünïcode").as_str(), "ncode");
    let long = "a".repeat(40);
    assert_eq!(sanitize_hostname(&long).as_str(), "a".repeat(32));
    assert_eq!(sanitize_hostname("!!!").as_str(), "");
}

#[test]
fn byte_parsing_follows_rust_rules() {
    assert_eq!(parse_u8("0"), Some(0));
    assert_eq!(parse_u8("255"), Some(255));
    assert_eq!(parse_u8("+7"), Some(7));
    assert_eq!(parse_u8("007"), Some(7));
    assert_eq!(parse_u8("256"), None);
    assert_eq!(parse_u8("99999999999"), None);
    assert_eq!(parse_u8(""), None);
    assert_eq!(parse_u8("+"), None);
    assert_eq!(parse_u8("-1"), None);
    assert_eq!(parse_u8("1a"), None);
}

#[test]
fn ipv4_parsing_needs_four_bytes() {
    assert_eq!(parse_ipv4("10.0.0.1"), Some([10, 0, 0, 1]));
    assert_eq!(parse_ipv4("10.0.0"), None);
    assert_eq!(parse_ipv4("10.0.0.1.5"), None);
    assert_eq!(parse_ipv4("10.0.0.256"), None);
    assert_eq!(parse_ipv4("10..0.1"), None);
    assert_eq!(parse_ipv4(""), None);
}

#[test]
fn stored_static_config_wins_over_build_settings() {
    let creds = WifiCredentials::new("Lab", "password1").unwrap().with_static_ipv4(StaticIpv4Config {
        address: [10, 0, 0, 5],
        netmask: [255, 255, 255, 0],
        gateway: [10, 0, 0, 1],
        dns: None,
    });
    let (plan, is_static) =
        build_net_config_from_env(Some(&creds), Some("192.168.1.9"), Some("255.255.0.0"), Some("192.168.1.1"), None);
    assert!(is_static);
    assert_eq!(plan, Ipv4Plan::Static { address: [10, 0, 0, 5], prefix: 24, gateway: [10, 0, 0, 1], dns: None });
}

#[test]
fn build_settings_apply_when_nothing_is_stored() {
    let (plan, is_static) = build_net_config_from_env(
        None,
        Some("192.168.1.9"),
        Some("255.255.0.0"),
        Some("192.168.1.1"),
        Some("1.1.1.1"),
    );
    assert!(is_static);
    assert_eq!(
        plan,
        Ipv4Plan::Static { address: [192, 168, 1, 9], prefix: 16, gateway: [192, 168, 1, 1], dns: Some([1, 1, 1, 1]) }
    );
    let (plan, is_static) =
        build_net_config_from_env(None, Some("192.168.1.9"), Some("255.0.255.0"), Some("192.168.1.1"), None);
    assert!(!is_static);
    assert_eq!(plan, Ipv4Plan::Dhcp);
    assert_eq!(build_net_config_from_env(None, None, None, None, None), build_net_config_dhcp());
}

#[test]
fn device_names_use_configured_hostname_when_usable() {
    let mac = [0x02, 0xaa, 0xbb, 0xcc, 0xdd, 0xee];
    let n = derive_device_names(mac, Some("Bench-Hub"));
    assert_eq!(n.hostname.as_str(), "bench-hub");
    assert_eq!(n.hostname_fqdn.as_str(), "bench-hub.local");
    let n = derive_device_names(mac, Some("***"));
    assert_eq!(n.hostname.as_str(), "isohub-ccddee");
    assert_eq!(n.short_id.as_str(), "ccddee");
}

fn line(text: &str) -> [u8; 20] {
    let mut l = [b' '; 20];
    l[..text.len()].copy_from_slice(text.as_bytes());
    l
}

#[test]
fn toast_lines_show_id_and_address() {
    let lines = format_network_toast_lines(Some("  a1b2-c3 \n"), Some([192, 168, 100, 200]));
    assert_eq!(lines[0], line("ID A1B2C3"));
    assert_eq!(lines[1], line("IP 192.168.100.200"));
    assert_eq!(lines[2], [b' '; 20]);
    let lines = format_network_toast_lines(Some("   "), None);
    assert_eq!(lines[0], line("NO WIFI"));
    assert_eq!(lines[1], line("NO IP"));
    let lines = format_network_toast_lines(Some("0123456789abcdef0123456789"), None);
    assert_eq!(lines[0], line("ID 0123456789ABCDEF0"));
}

#[test]
fn formatted_address_parses_back() {
    for ip in [[0, 0, 0, 0], [255, 255, 255, 255], [10, 20, 30, 40], [1, 100, 9, 99]] {
        assert_eq!(parse_ipv4(format_ipv4(ip).as_str()), Some(ip));
    }
}
