use iso_usb_hub::device_contract::{WifiSnapshot, WifiState};
use iso_usb_hub::http_api_v1::ApiPendingAction;
use iso_usb_hub::runtime_control::{
    apply_port_action, apply_wifi_clear_snapshot, apply_wifi_set_snapshot, tick_replug_countdowns,
    PortControlAction,
};

fn sample_wifi() -> WifiSnapshot {
    WifiSnapshot::disconnected()
}

#[test]
fn api_pending_action_maps_to_runtime_port_action() {
    let action = PortControlAction::from(ApiPendingAction::PortPower { index: 2, enabled: true });
    assert_eq!(action, PortControlAction::PowerSet { index: 2, enabled: true });

    let action = PortControlAction::from(ApiPendingAction::PortReplug { index: 1 });
    assert_eq!(action, PortControlAction::Replug { index: 1 });
}

#[test]
fn power_disable_clears_fault_state_and_drives_port() {
    let mut manual_enabled = [true; 4];
    let mut ocp_latched = [false; 4];
    let mut ocp_safe_samples = [0u8; 4];
    let mut ocp_retry_wait = [0u8; 4];
    let mut replug_countdown = [0u8; 4];
    let mut outputs = [true; 4];
    ocp_latched[1] = true;
    ocp_safe_samples[1] = 3;
    ocp_retry_wait[1] = 2;

    let applied = apply_port_action(
        PortControlAction::PowerSet { index: 1, enabled: false },
        &mut manual_enabled,
        &mut ocp_latched,
        &mut ocp_safe_samples,
        &mut ocp_retry_wait,
        &mut replug_countdown,
        2,
        &mut outputs,
    );

    assert!(applied);
    assert!(!manual_enabled[1]);
    assert!(!ocp_latched[1]);
    assert_eq!(ocp_safe_samples[1], 0);
    assert_eq!(ocp_retry_wait[1], 0);
    assert!(!outputs[1]);
}

#[test]
fn replug_disables_port_and_starts_holdoff() {
    let mut manual_enabled = [true; 4];
    let mut ocp_latched = [false; 4];
    let mut ocp_safe_samples = [0u8; 4];
    let mut ocp_retry_wait = [0u8; 4];
    let mut replug_countdown = [0u8; 4];
    let mut outputs = [true; 4];

    let applied = apply_port_action(
        PortControlAction::Replug { index: 3 },
        &mut manual_enabled,
        &mut ocp_latched,
        &mut ocp_safe_samples,
        &mut ocp_retry_wait,
        &mut replug_countdown,
        2,
        &mut outputs,
    );

    assert!(applied);
    assert!(!manual_enabled[3]);
    assert_eq!(replug_countdown[3], 2);
    assert!(!outputs[3]);
}

#[test]
fn tick_replug_countdowns_restores_manual_enable_after_holdoff() {
    let mut manual_enabled = [true, false, true, true];
    let mut replug_countdown = [0, 1, 0, 0];

    tick_replug_countdowns(&mut manual_enabled, &mut replug_countdown);

    assert!(manual_enabled[1]);
    assert_eq!(replug_countdown[1], 0);
}

#[test]
fn wifi_set_updates_runtime_snapshot() {
    let mut wifi = sample_wifi();

    let applied = apply_wifi_set_snapshot(&mut wifi, "Lab", true);

    assert!(applied);
    assert!(wifi.configured);
    assert!(wifi.psk_configured);
    assert_eq!(wifi.state, WifiState::Idle);
    assert_eq!(wifi.ssid(), Some("Lab"));
}

#[test]
fn wifi_clear_resets_runtime_snapshot() {
    let mut wifi = sample_wifi();
    let _ = apply_wifi_set_snapshot(&mut wifi, "Lab", true);

    apply_wifi_clear_snapshot(&mut wifi);

    assert_eq!(wifi, WifiSnapshot::disconnected());
}

#[test]
fn invalid_port_index_is_rejected_without_mutation() {
    let mut manual_enabled = [true; 4];
    let mut ocp_latched = [false; 4];
    let mut ocp_safe_samples = [0u8; 4];
    let mut ocp_retry_wait = [0u8; 4];
    let mut replug_countdown = [0u8; 4];
    let mut outputs = [true; 4];

    let applied = apply_port_action(
        PortControlAction::PowerSet { index: 8, enabled: false },
        &mut manual_enabled,
        &mut ocp_latched,
        &mut ocp_safe_samples,
        &mut ocp_retry_wait,
        &mut replug_countdown,
        2,
        &mut outputs,
    );

    assert!(!applied);
    assert_eq!(manual_enabled, [true; 4]);
    assert_eq!(outputs, [true; 4]);
}

#[test]
fn replug_holdoff_restores_enable_after_exactly_holdoff_ticks() {
    let mut manual_enabled = [true; 4];
    let mut ocp_latched = [false; 4];
    let mut ocp_safe_samples = [0u8; 4];
    let mut ocp_retry_wait = [0u8; 4];
    let mut replug_countdown = [0u8; 4];
    let mut outputs = [true; 4];
    assert!(apply_port_action(
        PortControlAction::Replug { index: 0 },
        &mut manual_enabled,
        &mut ocp_latched,
        &mut ocp_safe_samples,
        &mut ocp_retry_wait,
        &mut replug_countdown,
        3,
        &mut outputs,
    ));
    tick_replug_countdowns(&mut manual_enabled, &mut replug_countdown);
    tick_replug_countdowns(&mut manual_enabled, &mut replug_countdown);
    assert!(!manual_enabled[0]);
    tick_replug_countdowns(&mut manual_enabled, &mut replug_countdown);
    assert!(manual_enabled[0]);
    assert_eq!(replug_countdown[0], 0);
}

#[test]
fn wifi_set_refuses_empty_or_long_ssid() {
    let mut wifi = sample_wifi();
    assert!(!apply_wifi_set_snapshot(&mut wifi, "", true));
    assert_eq!(wifi, WifiSnapshot::disconnected());
    assert!(!apply_wifi_set_snapshot(&mut wifi, "0123456789012345678901234567890123", true));
    assert_eq!(wifi, WifiSnapshot::disconnected());
}
