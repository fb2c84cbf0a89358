use iso_usb_hub::boot_diag::{
    fault_label, outcome_label, state_label, BootFaultCode, BootOutcome, BootSelfCheckSnapshot,
    GateDecision, SelfCheckItemState, SysCheck,
};
use iso_usb_hub::provisioning::{
    checksum, decode_wifi_record, eeprom_chunk_len, encode_wifi_record, ProvisioningError,
    StaticIpv4Config, WifiCredentials,
};
use iso_usb_hub::text::{decimal, hex_fixed, signed_decimal, TextBuf};

#[test]
fn fnv1a_known_values() {
    assert_eq!(checksum(b""), 0x811c_9dc5);
    assert_eq!(checksum(b"a"), 0xe40c_292c);
    assert_eq!(checksum(b"foobar"), 0xbf9c_f968);
}

#[test]
fn credentials_validation() {
    assert_eq!(WifiCredentials::new("", "password1").err(), Some(ProvisioningError::InvalidInput));
    assert_eq!(WifiCredentials::new("Lab", "short").err(), Some(ProvisioningError::InvalidInput));
    let open = WifiCredentials::new("Lab", "").unwrap();
    assert!(!open.psk_configured());
    let c = WifiCredentials::new("Lab", "password1").unwrap();
    assert_eq!(c.ssid(), "Lab");
    assert_eq!(c.psk(), "password1");
    assert!(c.psk_configured());
    assert_eq!(c.static_ipv4(), None);
}

#[test]
fn record_round_trip_with_static_address() {
    let c = WifiCredentials::new("Bench Net", "password1").unwrap().with_static_ipv4(StaticIpv4Config {
        address: [192, 168, 4, 2],
        netmask: [255, 255, 255, 0],
        gateway: [192, 168, 4, 1],
        dns: Some([9, 9, 9, 9]),
    });
    let record = encode_wifi_record(&c);
    assert_eq!(&record[0..8], b"IPWIFI1\0");
    let back = decode_wifi_record::<()>(&record).unwrap().unwrap();
    assert_eq!(back, c);
}

#[test]
fn erased_and_corrupted_records() {
    assert_eq!(decode_wifi_record::<()>(&[0xff; 160]), Ok(None));
    assert_eq!(decode_wifi_record::<()>(&[0; 160]), Ok(None));
    let mut record = encode_wifi_record(&WifiCredentials::new("Lab", "password1").unwrap());
    record[20] ^= 0x01;
    assert_eq!(decode_wifi_record::<()>(&record), Err(ProvisioningError::InvalidRecord));
}

#[test]
fn eeprom_writes_never_cross_a_page() {
    assert_eq!(eeprom_chunk_len(0, 160), 16);
    assert_eq!(eeprom_chunk_len(10, 160), 6);
    assert_eq!(eeprom_chunk_len(32, 3), 3);
}

#[test]
fn first_fault_is_sticky_and_outcome_follows_slots() {
    let mut boot = BootSelfCheckSnapshot::new();
    boot.latch_fault(BootFaultCode::PowerInPgBad);
    boot.latch_fault(BootFaultCode::FanUnavailable);
    assert_eq!(boot.first_fault, BootFaultCode::PowerInPgBad);
    boot.set_sys(SysCheck::Mux, SelfCheckItemState::Fatal, BootFaultCode::InaUnavailable);
    boot.finalize(GateDecision::new());
    assert_eq!(boot.outcome, BootOutcome::Fatal);
    assert_eq!(outcome_label(boot.outcome), "FATAL");
    assert_eq!(fault_label(BootFaultCode::PortTempOffline(2)), "TMP OFF");
    assert_eq!(state_label(SelfCheckItemState::Skipped), "SKIP");
    let mut clean = BootSelfCheckSnapshot::new();
    clean.finalize(GateDecision::new());
    assert_eq!(clean.outcome, BootOutcome::Pass);
}

#[test]
fn text_buffer_appends_whole_pieces_only() {
    let mut t = TextBuf::with_capacity(5);
    assert!(t.push_str("abc"));
    assert!(!t.push_str("def"));
    assert!(t.push('é'));
    assert!(!t.push('x'));
    assert_eq!(t.as_str(), "abcé");
    assert_eq!(t.len(), 5);
    t.clear();
    assert!(t.is_empty());
}

#[test]
fn number_text() {
    assert_eq!(decimal(0), "0");
    assert_eq!(decimal(18446744073709551615), "18446744073709551615");
    assert_eq!(signed_decimal(i64::MIN), "-9223372036854775808");
    assert_eq!(hex_fixed(0xBEEF, 6, true), "00BEEF");
    assert_eq!(hex_fixed(0xBEEF, 2, false), "ef");
}
