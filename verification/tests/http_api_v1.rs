use iso_usb_hub::device_contract::{
    HubSnapshot, PortSnapshot, PortTelemetryStatus, RuntimeSnapshot, WifiSnapshot, WifiState,
};
use iso_usb_hub::http_api_v1::{
    handle_request, parse_request, render_error_json, render_health_json, render_info_json,
    render_port_json, render_port_power_json, render_port_replug_json, render_ports_json,
    render_wifi_json, ApiErrorKind, ApiErrorSpec, ApiOutcome, ApiPendingAction, ApiRequest,
};

fn sample_snapshot() -> RuntimeSnapshot {
    RuntimeSnapshot {
        mac: [0x02, 0xaa, 0xbb, 0xcc, 0xdd, 0xee],
        uptime_ms: 42,
        wifi: WifiSnapshot {
            configured: true,
            psk_configured: true,
            state: WifiState::Connected,
            ipv4: Some([192, 168, 1, 20]),
            is_static: false,
            ssid: {
                let mut ssid = [0u8; 32];
                ssid[0] = b'L';
                ssid[1] = b'a';
                ssid[2] = b'b';
                ssid
            },
            ssid_len: 3,
        },
        hub: HubSnapshot {
            upstream_connected: true,
            isolated_usb_fault: false,
            isolated_downstream_connected: true,
            isolated_usb_ready: true,
        },
        ports: [
            PortSnapshot {
                label: "Port 1",
                status: PortTelemetryStatus::Nominal,
                voltage_mv: 5000,
                current_ma: 100,
                power_enabled: true,
                data_connected: true,
                replugging: false,
                busy: false,
                overcurrent: false,
            },
            PortSnapshot {
                label: "Port 2",
                status: PortTelemetryStatus::Off,
                voltage_mv: 0,
                current_ma: 0,
                power_enabled: false,
                data_connected: false,
                replugging: false,
                busy: false,
                overcurrent: false,
            },
            PortSnapshot {
                label: "Port 3",
                status: PortTelemetryStatus::NotInserted,
                voltage_mv: 0,
                current_ma: 0,
                power_enabled: true,
                data_connected: false,
                replugging: false,
                busy: false,
                overcurrent: false,
            },
            PortSnapshot {
                label: "Port 4",
                status: PortTelemetryStatus::Overcurrent,
                voltage_mv: 5100,
                current_ma: 4200,
                power_enabled: false,
                data_connected: true,
                replugging: true,
                busy: true,
                overcurrent: true,
            },
        ],
    }
}

#[test]
fn parses_canonical_four_port_routes() {
    assert_eq!(parse_request("GET", "/api/v1/health"), Ok(ApiRequest::Health));
    assert_eq!(parse_request("GET", "/api/v1/info"), Ok(ApiRequest::Info));
    assert_eq!(parse_request("GET", "/api/v1/ports"), Ok(ApiRequest::Ports));
    assert_eq!(parse_request("GET", "/api/v1/ports/port4"), Ok(ApiRequest::Port { index: 3 }));
    assert_eq!(
        parse_request("POST", "/api/v1/ports/port1/power?enabled=1"),
        Ok(ApiRequest::PortPower { index: 0, enabled: true })
    );
    assert_eq!(
        parse_request("POST", "/api/v1/ports/port3/actions/replug"),
        Ok(ApiRequest::PortReplug { index: 2 })
    );
}

#[test]
fn rejects_legacy_or_invalid_routes() {
    assert_eq!(
        parse_request("GET", "/api/v1/ports/port_a"),
        Err(ApiErrorSpec::of(ApiErrorKind::InvalidPort))
    );
    assert_eq!(
        parse_request("POST", "/api/v1/ports/port1/power"),
        Err(ApiErrorSpec::of(ApiErrorKind::BadEnabled))
    );
    assert_eq!(
        parse_request("POST", "/api/v1/wifi/set"),
        Err(ApiErrorSpec::of(ApiErrorKind::UnsafeWifiWrite))
    );
    assert_eq!(parse_request("POST", "/api/v1/reboot"), Err(ApiErrorSpec::of(ApiErrorKind::UnsafeReboot)));
}

#[test]
fn renders_canonical_payloads() {
    let snapshot = sample_snapshot();
    let port4 = render_port_json(snapshot, 3).expect("port4");
    let wifi = render_wifi_json(snapshot.wifi);
    assert!(render_info_json(snapshot, "0.1.0")
        .as_str()
        .contains("\"firmware\":{\"name\":\"iso-usb-hub\""));
    assert!(render_ports_json(snapshot).as_str().contains("\"portId\":\"port4\""));
    assert!(port4.as_str().contains("\"overcurrent\":true"));
    assert!(wifi.as_str().contains("\"address\":\"0x50\""));
    assert!(wifi.as_str().contains("\"ssid\":\"Lab\""));
    assert_eq!(render_health_json(), "{\"ok\":true}");
    assert_eq!(render_port_replug_json(), "{\"accepted\":true,\"mode\":\"power_cycle\"}");
    assert_eq!(
        render_port_power_json(false).as_str(),
        "{\"accepted\":true,\"power_enabled\":false}"
    );
}

#[test]
fn handle_request_returns_read_only_payloads() {
    let snapshot = sample_snapshot();
    let response = match handle_request("GET", "/api/v1/info", snapshot, "0.1.0") {
        ApiOutcome::Response(response) => response,
        other => panic!("unexpected outcome: {:?}", other),
    };
    assert_eq!(response.status, "200 OK");
    assert!(response.body.as_str().contains("\"hostname\":\"isohub-ccddee\""));

    let port = match handle_request("GET", "/api/v1/ports/port4", snapshot, "0.1.0") {
        ApiOutcome::Response(response) => response,
        other => panic!("unexpected outcome: {:?}", other),
    };
    assert_eq!(port.status, "200 OK");
    assert!(port.body.as_str().contains("\"portId\":\"port4\""));
}

#[test]
fn handle_request_returns_action_plans_for_mutations() {
    let snapshot = sample_snapshot();
    let power = handle_request("POST", "/api/v1/ports/port2/power?enabled=0", snapshot, "0.1.0");
    match power {
        ApiOutcome::ResponseAndAction { response, action } => {
            assert_eq!(response.status, "200 OK");
            assert!(response.body.as_str().contains("\"accepted\":true"));
            assert_eq!(action, ApiPendingAction::PortPower { index: 1, enabled: false });
        }
        other => panic!("unexpected outcome: {:?}", other),
    }

    let replug = handle_request("POST", "/api/v1/ports/port3/actions/replug", snapshot, "0.1.0");
    match replug {
        ApiOutcome::ResponseAndAction { response, action } => {
            assert_eq!(response.status, "202 Accepted");
            assert_eq!(action, ApiPendingAction::PortReplug { index: 2 });
        }
        other => panic!("unexpected outcome: {:?}", other),
    }
}

#[test]
fn handle_request_returns_forbidden_write_errors() {
    let snapshot = sample_snapshot();
    let response = match handle_request("POST", "/api/v1/wifi/set", snapshot, "0.1.0") {
        ApiOutcome::Response(response) => response,
        other => panic!("unexpected outcome: {:?}", other),
    };
    assert_eq!(response.status, "403 Forbidden");
    assert!(response.body.as_str().contains("\"unsafe_transport\""));
}

#[test]
fn unknown_endpoint_and_bad_enabled_values_are_refused() {
    assert_eq!(
        parse_request("GET", "/api/v2/info"),
        Err(ApiErrorSpec::of(ApiErrorKind::UnknownEndpoint))
    );
    assert_eq!(
        parse_request("POST", "/api/v1/ports/port1/power?enabled=yes"),
        Err(ApiErrorSpec::of(ApiErrorKind::BadEnabled))
    );
    assert_eq!(
        parse_request("POST", "/api/v1/ports/port9/actions/replug"),
        Err(ApiErrorSpec::of(ApiErrorKind::InvalidPort))
    );
}

#[test]
fn error_body_has_code_message_and_retryable() {
    let body = render_error_json(ApiErrorSpec::of(ApiErrorKind::InvalidPort));
    assert_eq!(
        body.as_str(),
        "{\"error\":{\"code\":\"invalid_port\",\"message\":\"invalid port\",\"retryable\":false}}"
    );
}
