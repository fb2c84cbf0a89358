use iso_usb_hub::app_loop::{
    app_apply_done, app_button, app_center_release, app_step, app_usb_switched, usb_data_switch,
    current_limit_pins, AppLoopState, AppReadings, ButtonAction, ChargePin, CurrentLimitMode, DataConnPin,
    PinError, APPLY_PERIOD_MS,
};
use iso_usb_hub::joystick::Button;

fn readings(connected: [bool; 3], overcurrent: [bool; 3]) -> AppReadings {
    AppReadings { connected, overcurrent }
}

#[test]
fn new_fault_alarms_once() {
    let mut s = AppLoopState::new();
    let r = readings([false; 3], [false, true, false]);
    let a = app_step(&mut s, r, 100);
    assert_eq!(a.alarms, [false, true, false]);
    let a = app_step(&mut s, r, 200);
    assert_eq!(a.alarms, [false; 3]);
    // Cleared, then raised again: a new alarm.
    app_step(&mut s, readings([false; 3], [false; 3]), 300);
    let a = app_step(&mut s, r, 400);
    assert_eq!(a.alarms, [false, true, false]);
}

#[test]
fn connection_change_beeps_and_applies() {
    let mut s = AppLoopState::new();
    let a = app_step(&mut s, readings([true, false, true], [false; 3]), 5);
    assert_eq!(a.change_beeps, [true, false, true]);
    assert!(a.apply_allocation);
    app_apply_done(&mut s, true, 5);
    let a = app_step(&mut s, readings([true, false, true], [false; 3]), 6);
    assert_eq!(a.change_beeps, [false; 3]);
    assert!(!a.apply_allocation);
    let a = app_step(&mut s, readings([false, false, true], [false; 3]), 7);
    assert_eq!(a.change_beeps, [true, false, false]);
    assert!(a.apply_allocation);
}

#[test]
fn allocation_is_reapplied_after_the_period() {
    let mut s = AppLoopState::new();
    app_apply_done(&mut s, true, 1_000);
    assert_eq!(s.last_apply_ms, 1_000);
    let steady = readings([false; 3], [false; 3]);
    assert!(!app_step(&mut s, steady, 1_000 + APPLY_PERIOD_MS).apply_allocation);
    assert!(app_step(&mut s, steady, 1_001 + APPLY_PERIOD_MS).apply_allocation);
    // A failed apply keeps the old time, so the next pass tries again.
    app_apply_done(&mut s, false, 1_001 + APPLY_PERIOD_MS);
    assert_eq!(s.last_apply_ms, 1_000);
    assert!(app_step(&mut s, steady, 1_002 + APPLY_PERIOD_MS).apply_allocation);
}

#[test]
fn left_and_right_stay_on_the_three_ports() {
    let mut s = AppLoopState::new();
    assert_eq!(s.selected_port, 1);
    assert_eq!(app_button(&mut s, Button::Left), ButtonAction::Beep(100));
    assert_eq!(s.selected_port, 0);
    assert_eq!(app_button(&mut s, Button::Left), ButtonAction::Nothing);
    assert_eq!(s.selected_port, 0);
    app_button(&mut s, Button::Right);
    assert_eq!(app_button(&mut s, Button::Right), ButtonAction::Beep(100));
    assert_eq!(s.selected_port, 2);
    assert_eq!(app_button(&mut s, Button::Right), ButtonAction::Nothing);
    assert_eq!(s.selected_port, 2);
    assert_eq!(app_button(&mut s, Button::Up), ButtonAction::Nothing);
}

#[test]
fn down_flips_the_page() {
    let mut s = AppLoopState::new();
    assert_eq!(app_button(&mut s, Button::Down), ButtonAction::Beep(100));
    assert!(s.show_allocation);
    app_button(&mut s, Button::Down);
    assert!(!s.show_allocation);
}

#[test]
fn center_cuts_and_release_restores_data_lines() {
    let mut s = AppLoopState::new();
    assert_eq!(app_button(&mut s, Button::Center), ButtonAction::SwitchUsb { port: 2, enable: false });
    assert_eq!(app_usb_switched(&mut s, false, true), Some(200));
    assert!(s.usb_comm_disabled);
    assert_eq!(s.usb_comm, [true, false, true]);
    assert_eq!(app_center_release(&s, true), None);
    assert_eq!(app_center_release(&s, false), Some(2));
    assert_eq!(app_usb_switched(&mut s, true, true), Some(100));
    assert!(!s.usb_comm_disabled);
    assert_eq!(s.usb_comm, [true, true, true]);
    assert_eq!(app_center_release(&s, false), None);
}

#[test]
fn failed_switch_changes_nothing() {
    let mut s = AppLoopState::new();
    assert_eq!(app_usb_switched(&mut s, false, false), None);
    assert!(!s.usb_comm_disabled);
    assert_eq!(s.usb_comm, [true, true, true]);
}

#[test]
fn data_switch_pins() {
    assert_eq!(usb_data_switch(1, true), Ok((DataConnPin::P10, true)));
    assert_eq!(usb_data_switch(2, false), Ok((DataConnPin::P11, false)));
    assert_eq!(usb_data_switch(3, true), Ok((DataConnPin::P12, true)));
    assert_eq!(usb_data_switch(0, true), Err(PinError::InvalidPort));
    assert_eq!(usb_data_switch(4, false), Err(PinError::InvalidPort));
}

#[test]
fn current_limit_pins_by_port_and_mode() {
    assert_eq!(
        current_limit_pins(2, CurrentLimitMode::ThreeAmps),
        Ok(((ChargePin::P04, true), (ChargePin::P03, true)))
    );
    assert_eq!(
        current_limit_pins(3, CurrentLimitMode::OnePointFiveAmps),
        Ok(((ChargePin::P22, true), (ChargePin::P23, false)))
    );
    assert_eq!(
        current_limit_pins(2, CurrentLimitMode::Default),
        Ok(((ChargePin::P04, false), (ChargePin::P03, false)))
    );
    assert_eq!(current_limit_pins(1, CurrentLimitMode::ThreeAmps), Err(PinError::InvalidPort));
}
