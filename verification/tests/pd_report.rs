use iso_usb_hub::pd_report::{
    write_fixed_voltage_json, write_json_bool_or_null, write_json_string, write_json_u32_or_null,
    write_pd_diagnostics_json, write_sw2303_readback_json, ApiPdSnapshot, Sw2303CapabilityReadback,
};
use iso_usb_hub::text::TextBuf;

fn readback() -> Sw2303CapabilityReadback {
    Sw2303CapabilityReadback {
        available: true,
        power_watts: Some(65),
        pd_enabled: Some(true),
        qc20_enabled: Some(false),
        qc30_enabled: None,
        fcp_enabled: None,
        afc_enabled: None,
        scp_enabled: None,
        pe20_enabled: None,
        bc12_enabled: Some(true),
        sfcp_enabled: None,
        pps_enabled: Some(false),
        fixed_9v: Some(true),
        fixed_12v: None,
        fixed_15v: Some(true),
        fixed_20v: Some(false),
    }
}

#[test]
fn optional_values_and_strings() {
    let mut b = TextBuf::with_capacity(64);
    write_json_bool_or_null(&mut b, None);
    write_json_bool_or_null(&mut b, Some(true));
    write_json_u32_or_null(&mut b, Some(4200));
    write_json_u32_or_null(&mut b, None);
    write_json_string(&mut b, "a\"b\n\u{1}");
    assert_eq!(b.as_str(), "nulltrue4200null\"a\\\"b\\n\\u0001\"");
}

#[test]
fn fixed_voltages_are_comma_separated() {
    let mut b = TextBuf::with_capacity(64);
    b.push_str("[");
    write_fixed_voltage_json(&mut b, true, 9000);
    write_fixed_voltage_json(&mut b, false, 12000);
    write_fixed_voltage_json(&mut b, true, 15000);
    b.push_str("]");
    assert_eq!(b.as_str(), "[9000,15000]");
}

#[test]
fn readback_object() {
    let mut b = TextBuf::with_capacity(1024);
    write_sw2303_readback_json(&mut b, readback(), false);
    assert_eq!(
        b.as_str(),
        "{\"available\":true,\"matches_config\":false,\"power_watts\":65,\"protocols\":{\"pd\":true,\"qc20\":false,\"qc30\":null,\"fcp\":null,\"afc\":null,\"scp\":null,\"pe20\":null,\"bc12\":true,\"sfcp\":null},\"pd\":{\"pps\":false,\"fixed_voltages_mv\":[9000,15000]}}"
    );
}

#[test]
fn diagnostics_object() {
    let pd = ApiPdSnapshot {
        usb_c_power_enabled: true,
        sw2303_i2c_allowed: true,
        sw2303_profile_applied: false,
        sw2303_stable_reads: 3,
        sw2303_error_latched: false,
        tps_error_latched: false,
        sw2303_readback_config: readback(),
        sw2303_readback_matches_config: true,
        sw2303_request_mv: Some(9000),
        sw2303_request_ma: Some(2000),
        sw2303_last_valid_mv: None,
        sw2303_last_valid_ma: None,
        tps_setpoint_output_enabled: Some(true),
        tps_setpoint_mv: Some(5000),
        tps_setpoint_ilim_ma: None,
        runtime_recovery_count: 1,
        sample_uptime_ms: 99,
    };
    let mut b = TextBuf::with_capacity(2048);
    write_pd_diagnostics_json(&mut b, &pd);
    let s = b.as_str();
    assert!(s.starts_with("{\"usb_c_power_enabled\":true,\"sw2303_i2c_allowed\":true,\"sw2303_profile_applied\":false,\"sw2303_stable_reads\":3,\"sw2303_error_latched\":false,\"tps_error_latched\":false,\"sw2303_readback_config\":{\"available\":true,\"matches_config\":true,"));
    assert!(s.ends_with(",\"sw2303_request\":{\"mv\":9000,\"ma\":2000},\"sw2303_last_valid_request\":{\"mv\":null,\"ma\":null},\"tps_setpoint\":{\"output_enabled\":true,\"mv\":5000,\"ilim_ma\":null},\"runtime_recovery_count\":1,\"sample_uptime_ms\":99}"));
}

#[test]
fn a_write_that_does_not_fit_is_dropped_whole() {
    let mut b = TextBuf::with_capacity(6);
    write_json_u32_or_null(&mut b, Some(12345));
    write_json_bool_or_null(&mut b, Some(false));
    assert_eq!(b.as_str(), "12345");
}
