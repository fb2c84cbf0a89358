use iso_usb_hub::device_contract::{
    port_index_from_id, render_info_result, render_port_result, render_ports_result,
    render_wifi_result, HubSnapshot, PortSnapshot, PortTelemetryStatus, RuntimeSnapshot,
    WifiSnapshot, WifiState,
};

fn sample_snapshot() -> RuntimeSnapshot {
    RuntimeSnapshot {
        mac: [0x02, 0xaa, 0xbb, 0xcc, 0xdd, 0xee],
        uptime_ms: 1234,
        wifi: WifiSnapshot {
            configured: true,
            psk_configured: true,
            state: WifiState::Connected,
            ipv4: Some([192, 168, 1, 42]),
            is_static: false,
            ssid: {
                let mut ssid = [0u8; 32];
                ssid[0] = b'B';
                ssid[1] = b'e';
                ssid[2] = b'n';
                ssid[3] = b'c';
                ssid[4] = b'h';
                ssid
            },
            ssid_len: 5,
        },
        hub: HubSnapshot {
            upstream_connected: true,
            isolated_usb_fault: false,
            isolated_downstream_connected: true,
            isolated_usb_ready: true,
        },
        ports: [
            PortSnapshot {
                label: "Port 1",
                status: PortTelemetryStatus::Nominal,
                voltage_mv: 5000,
                current_ma: 100,
                power_enabled: true,
                data_connected: true,
                replugging: false,
                busy: false,
                overcurrent: false,
            },
            PortSnapshot {
                label: "Port 2",
                status: PortTelemetryStatus::NotInserted,
                voltage_mv: 0,
                current_ma: 0,
                power_enabled: false,
                data_connected: false,
                replugging: false,
                busy: false,
                overcurrent: false,
            },
            PortSnapshot {
                label: "Port 3",
                status: PortTelemetryStatus::Fault,
                voltage_mv: 0,
                current_ma: 0,
                power_enabled: false,
                data_connected: false,
                replugging: false,
                busy: false,
                overcurrent: false,
            },
            PortSnapshot {
                label: "Port 4",
                status: PortTelemetryStatus::Overcurrent,
                voltage_mv: 5100,
                current_ma: 120,
                power_enabled: false,
                data_connected: true,
                replugging: true,
                busy: true,
                overcurrent: true,
            },
        ],
    }
}

#[test]
fn info_result_uses_canonical_identity() {
    let body = render_info_result(sample_snapshot(), "0.1.0");
    assert!(body.as_str().contains("\"hostname\":\"isohub-ccddee\""));
    assert!(body.as_str().contains("\"firmware\":{\"name\":\"iso-usb-hub\""));
    assert!(body.as_str().contains("\"variant\":\"v3\""));
}

#[test]
fn ports_result_uses_four_port_ids() {
    let body = render_ports_result(sample_snapshot());
    assert!(body.as_str().contains("\"portId\":\"port1\""));
    assert!(body.as_str().contains("\"portId\":\"port4\""));
    assert!(body.as_str().contains("\"overcurrent\":true"));
    assert!(!body.as_str().contains("port_a"));
    assert!(!body.as_str().contains("port_c"));
}

#[test]
fn wifi_result_reports_eeprom_storage() {
    let body = render_wifi_result(sample_snapshot().wifi);
    assert!(body.as_str().contains("\"storage\":\"eeprom\""));
    assert!(body.as_str().contains("\"address\":\"0x50\""));
    assert!(body.as_str().contains("\"ssid\":\"Bench\""));
    assert!(body.as_str().contains("\"state\":\"connected\""));
}

#[test]
fn port_result_uses_single_canonical_port_shape() {
    let body = render_port_result(sample_snapshot(), 3).expect("port4 result");
    assert!(body.as_str().contains("\"portId\":\"port4\""));
    assert!(body.as_str().contains("\"label\":\"Port 4\""));
    assert!(body.as_str().contains("\"overcurrent\":true"));
}

#[test]
fn canonical_port_id_parser_rejects_legacy_ids() {
    assert_eq!(port_index_from_id("port1"), Some(0));
    assert_eq!(port_index_from_id("port4"), Some(3));
    assert_eq!(port_index_from_id("port_a"), None);
    assert_eq!(port_index_from_id("USB-C"), None);
}

#[test]
fn port_result_out_of_range_is_none() {
    assert!(render_port_result(sample_snapshot(), 4).is_none());
}

#[test]
fn port_result_exact_text() {
    let body = render_port_result(sample_snapshot(), 0).expect("port1 result");
    assert_eq!(
        body.as_str(),
        "{\"portId\":\"port1\",\"label\":\"Port 1\",\"telemetry\":{\"status\":\"ok\",\"voltage_mv\":5000,\"current_ma\":100,\"power_mw\":500,\"sample_uptime_ms\":1234},\"state\":{\"power_enabled\":true,\"data_connected\":true,\"replugging\":false,\"busy\":false,\"overcurrent\":false},\"capabilities\":{\"data_replug\":true,\"power_set\":true}}"
    );
}

#[test]
fn wifi_with_invalid_utf8_ssid_reports_null() {
    let mut wifi = sample_snapshot().wifi;
    wifi.ssid[0] = 0xff;
    assert_eq!(wifi.ssid(), None);
    let body = render_wifi_result(wifi);
    assert!(body.as_str().contains("\"ssid\":null"));
}
