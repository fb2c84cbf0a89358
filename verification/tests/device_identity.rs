use iso_usb_hub::device_identity::{
    fqdn_from_hostname, hostname_from_short_id, mac_to_string, short_id_from_mac,
};

#[test]
fn short_id_from_mac_basic_cases() {
    assert_eq!(short_id_from_mac([0x00, 0x11, 0x22, 0xAA, 0xBB, 0xCC]).as_str(), "aabbcc");
    assert_eq!(short_id_from_mac([0, 0, 0, 0, 0, 0]).as_str(), "000000");
    assert_eq!(short_id_from_mac([0xFF; 6]).as_str(), "ffffff");
}

#[test]
fn device_identity_hostname_and_fqdn_are_built_correctly() {
    let h = hostname_from_short_id("aabbcc");
    assert_eq!(h.as_str(), "isohub-aabbcc");
    let fqdn = fqdn_from_hostname(h.as_str());
    assert_eq!(fqdn.as_str(), "isohub-aabbcc.local");
}

#[test]
fn mac_to_string_formats_lower_hex_pairs() {
    assert_eq!(mac_to_string([0x02, 0xAA, 0xBB, 0xCC, 0xDD, 0xEE]).as_str(), "02:aa:bb:cc:dd:ee");
}

#[test]
fn hostname_drops_non_alphanumerics_and_lowercases() {
    assert_eq!(hostname_from_short_id("A-b_C").as_str(), "isohub-abc");
}

#[test]
fn long_hostname_is_cut_at_32_and_fqdn_keeps_the_suffix_when_it_fits() {
    let h = hostname_from_short_id("0123456789abcdef0123456789abcdef");
    assert_eq!(h.as_str().len(), 32);
    assert_eq!(h.as_str(), "isohub-0123456789abcdef012345678");
    let fqdn = fqdn_from_hostname(h.as_str());
    assert_eq!(fqdn.as_str(), "isohub-0123456789abcdef012345678.local");
}
