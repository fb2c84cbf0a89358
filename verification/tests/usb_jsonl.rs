use iso_usb_hub::device_contract::{
    HubSnapshot, PortSnapshot, PortTelemetryStatus, RuntimeSnapshot, WifiSnapshot,
};
use iso_usb_hub::usb_jsonl::{
    handle_parsed_request, render_protocol_error, resolve_request, LogLevel, NumericIdRequest,
    ProtocolError, Request, RequestId, RequestParams, UsbAction, UsbJsonlState,
};

fn no_params() -> RequestParams<'static> {
    RequestParams { port: None, enabled: None, ssid: None, psk: None }
}

fn sample_snapshot() -> RuntimeSnapshot {
    RuntimeSnapshot {
        mac: [0x02, 0xaa, 0xbb, 0xcc, 0xdd, 0xee],
        uptime_ms: 1,
        wifi: WifiSnapshot::disconnected(),
        hub: HubSnapshot {
            upstream_connected: true,
            isolated_usb_fault: false,
            isolated_downstream_connected: true,
            isolated_usb_ready: true,
        },
        ports: [PortSnapshot {
            label: "Port",
            status: PortTelemetryStatus::Nominal,
            voltage_mv: 5000,
            current_ma: 100,
            power_enabled: true,
            data_connected: false,
            replugging: false,
            busy: false,
            overcurrent: false,
        }; 4],
    }
}

// The request `{"id":7,"method":"info","params":{}}` decodes only with an
// integer id; `{"id":"devd-7",...}` with a string id.
#[test]
fn accepts_numeric_and_string_request_ids() {
    let numeric_request = resolve_request(
        None,
        Some(NumericIdRequest { id: Some(7), method: Some("info"), params: no_params() }),
    )
    .expect("numeric id should parse");
    let numeric = handle_parsed_request(numeric_request, sample_snapshot(), "0.1.0", None)
        .expect("numeric id should parse");
    assert!(numeric.response.as_str().contains("\"id\":7"));

    let string_request = resolve_request(
        Some(Request { id: Some("devd-7"), method: Some("info"), params: no_params() }),
        None,
    )
    .expect("string id should parse");
    let string = handle_parsed_request(string_request, sample_snapshot(), "0.1.0", None)
        .expect("string id should parse");
    assert!(string.response.as_str().contains("\"id\":\"devd-7\""));
}

#[test]
fn returns_cached_hardware_snapshot() {
    let request = resolve_request(
        Some(Request { id: Some("diag-1"), method: Some("hardware.snapshot"), params: no_params() }),
        None,
    )
    .expect("hardware snapshot should be served");
    let response = handle_parsed_request(
        request,
        sample_snapshot(),
        "0.1.0",
        Some("{\"schema\":\"isolarail.hardware.snapshot.v1\",\"ports\":[]}"),
    )
    .expect("hardware snapshot should be served");
    assert!(response.response.as_str().contains("\"id\":\"diag-1\""));
    assert!(response.response.as_str().contains("\"schema\":\"isolarail.hardware.snapshot.v1\""));
}

#[test]
fn snapshot_request_without_snapshot_is_refused() {
    let request = resolve_request(
        Some(Request { id: Some("d"), method: Some("hardware.snapshot"), params: no_params() }),
        None,
    )
    .unwrap();
    assert_eq!(
        handle_parsed_request(request, sample_snapshot(), "0.1.0", None).err(),
        Some(ProtocolError::SnapshotUnavailable)
    );
}

#[test]
fn undecodable_or_incomplete_requests_are_refused() {
    assert_eq!(resolve_request(None, None).err(), Some(ProtocolError::InvalidJson));
    assert_eq!(
        resolve_request(Some(Request { id: None, method: Some("info"), params: no_params() }), None)
            .err(),
        Some(ProtocolError::MissingField)
    );
    let unknown = resolve_request(
        Some(Request { id: Some("x"), method: Some("format.disk"), params: no_params() }),
        None,
    )
    .unwrap();
    assert_eq!(
        handle_parsed_request(unknown, sample_snapshot(), "0.1.0", None).err(),
        Some(ProtocolError::UnsupportedMethod)
    );
}

#[test]
fn port_power_request_returns_the_action() {
    let params = RequestParams { port: Some("port2"), enabled: Some(false), ssid: None, psk: None };
    let request = resolve_request(
        Some(Request { id: Some("p"), method: Some("port.power_set"), params }),
        None,
    )
    .unwrap();
    let response = handle_parsed_request(request, sample_snapshot(), "0.1.0", None).unwrap();
    assert!(matches!(response.action, UsbAction::PortPowerSet { index: 1, enabled: false }));

    let bad = RequestParams { port: Some("port_a"), enabled: Some(true), ssid: None, psk: None };
    let request = resolve_request(
        Some(Request { id: Some("p"), method: Some("port.power_set"), params: bad }),
        None,
    )
    .unwrap();
    assert_eq!(
        handle_parsed_request(request, sample_snapshot(), "0.1.0", None).err(),
        Some(ProtocolError::InvalidPort)
    );
}

#[test]
fn wifi_set_with_empty_ssid_is_invalid() {
    let params = RequestParams { port: None, enabled: None, ssid: Some(""), psk: Some("secret12") };
    let request = resolve_request(
        Some(Request { id: Some("w"), method: Some("wifi.set"), params }),
        None,
    )
    .unwrap();
    assert_eq!(
        handle_parsed_request(request, sample_snapshot(), "0.1.0", None).err(),
        Some(ProtocolError::InvalidWifiInput)
    );
}

#[test]
fn framing_yields_one_line_per_frame() {
    let mut state = UsbJsonlState::<64>::new();
    let mut lines = Vec::new();
    for b in b"noise{\"id\":1}\r\n\n" {
        if let Some(line) = state.push_byte(*b).unwrap() {
            lines.push(line.as_str().to_string());
        }
    }
    assert_eq!(lines, vec!["{\"id\":1}".to_string()]);
}

#[test]
fn overlong_frame_is_refused() {
    let mut state = UsbJsonlState::<4>::new();
    for b in b"{abc" {
        assert!(state.push_byte(*b).unwrap().is_none());
    }
    assert_eq!(state.push_byte(b'd').err(), Some(ProtocolError::FrameTooLarge));
}

#[test]
fn invalid_utf8_frame_is_invalid_json() {
    let mut state = UsbJsonlState::<16>::new();
    assert!(state.push_byte(b'{').unwrap().is_none());
    assert!(state.push_byte(0xff).unwrap().is_none());
    assert_eq!(state.push_byte(b'\n').err(), Some(ProtocolError::InvalidJson));
}

#[test]
fn protocol_error_rendering() {
    let r = render_protocol_error(Some("req-1"), ProtocolError::InvalidPort);
    assert_eq!(
        r.as_str(),
        "{\"ok\":false,\"error\":{\"code\":\"invalid_port\",\"message\":\"requested port is outside the supported port1..port4 range\"},\"id\":\"req-1\"}"
    );
    let r = render_protocol_error(None, ProtocolError::InvalidJson);
    assert_eq!(
        r.as_str(),
        "{\"ok\":false,\"error\":{\"code\":\"invalid_json\",\"message\":\"request frame is not valid JSON\"}}"
    );
    assert_eq!(ProtocolError::FrameTooLarge.code(), "frame_too_large");
    assert_eq!(LogLevel::Info.as_str(), "info");
}

#[test]
fn negative_numeric_id_is_echoed() {
    let request = resolve_request(
        None,
        Some(NumericIdRequest { id: Some(-12), method: Some("ports.get"), params: no_params() }),
    )
    .unwrap();
    assert_eq!(request.id, RequestId::Number(-12));
    let response = handle_parsed_request(request, sample_snapshot(), "0.1.0", None).unwrap();
    assert!(response.response.as_str().starts_with("{\"id\":-12,\"ok\":true,\"result\":"));
}
