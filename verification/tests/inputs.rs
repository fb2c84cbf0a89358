use iso_usb_hub::front_panel::{dir_name, key_event, pressed_from_inputs, scan_keys, KeyEvent};
use iso_usb_hub::hub_sideband::{ovcur_bit, pwren_bit, Controller, Snapshot};
use iso_usb_hub::joystick::{
    current_direction, Button, JoystickDirection, JoystickHandler, JoystickReading, MenuNavigator,
    TestDebouncer,
};

fn reading(up: bool, center: bool) -> JoystickReading {
    JoystickReading { up, down: false, left: false, right: false, center }
}

#[test]
fn direction_priority_prefers_up() {
    assert_eq!(current_direction(reading(true, true)), JoystickDirection::Up);
    assert_eq!(current_direction(reading(false, true)), JoystickDirection::Center);
    assert_eq!(current_direction(reading(false, false)), JoystickDirection::Idle);
}

#[test]
fn handler_reports_after_four_equal_polls() {
    let mut h = JoystickHandler::new();
    for _ in 0..4 {
        assert_eq!(h.read_direction(reading(true, false)), None);
    }
    assert_eq!(h.read_direction(reading(true, false)), Some(JoystickDirection::Up));
    assert_eq!(h.read_direction(reading(false, false)), None);
}

static ITEMS: [&str; 3] = ["a", "b", "c"];

#[test]
fn menu_wraps_both_ways_and_selects_on_center() {
    let mut m = MenuNavigator::new(&ITEMS);
    assert!(!m.handle_joystick(JoystickDirection::Up));
    assert_eq!(m.get_current_item(), (2, "c"));
    assert!(!m.handle_joystick(JoystickDirection::Down));
    assert_eq!(m.get_current_item(), (0, "a"));
    assert!(m.handle_joystick(JoystickDirection::Center));
}

#[test]
fn debouncer_reports_a_press_once_after_the_threshold() {
    let mut d = TestDebouncer::new(3, 200);
    let pressed = reading(true, false);
    let mut reported = Vec::new();
    for t in 0..6u64 {
        reported.extend(d.update(pressed, 1000 + t * 10));
    }
    assert_eq!(reported, vec![Button::Up]);
    assert!(d.get_button_state(Button::Up));
    assert!(!d.get_button_state(Button::Center));
}

#[test]
fn front_panel_keys_read_low_and_raise_once() {
    assert_eq!(key_event(0), Some(KeyEvent::Center));
    assert_eq!(key_event(2), None);
    assert_eq!(dir_name(4), "up");
    assert_eq!(pressed_from_inputs(0b1111_0110), [true, false, false, true, false]);
    let mut held = [false; 5];
    assert_eq!(scan_keys(0b1111_1110, &mut held), vec![KeyEvent::Center]);
    assert_eq!(scan_keys(0b1111_1110, &mut held), vec![]);
    assert_eq!(scan_keys(0b1111_1111, &mut held), vec![]);
    assert_eq!(held, [false; 5]);
}

#[test]
fn sideband_bits_and_snapshot() {
    assert_eq!(pwren_bit(0), 1);
    assert_eq!(ovcur_bit(0), 2);
    assert_eq!(pwren_bit(3), 0x40);
    let s = Snapshot::from_registers(0b1111_1110, 0b1111_1101, 0, 0b0101_0101);
    assert!(s.pwren_enabled[0]);
    assert!(!s.pwren_enabled[1]);
    assert!(s.ovcur_asserted[0]);
    assert!(!s.ovcur_asserted[1]);
}

#[test]
fn asserting_overcurrent_drives_the_pin_low_as_output() {
    let c = Controller::new();
    let (output, config) = c.overcurrent_targets(1, true);
    assert_eq!(output & ovcur_bit(1), 0);
    assert_eq!(config & ovcur_bit(1), 0);
    let (output, config) = c.overcurrent_targets(1, false);
    assert_ne!(output & ovcur_bit(1), 0);
    assert_ne!(config & ovcur_bit(1), 0);
}

#[test]
fn debouncer_debug_info_shows_counter() {
    let mut d = TestDebouncer::new(3, 0);
    let _ = d.update(reading(true, false), 0);
    let _ = d.update(reading(true, false), 1);
    assert_eq!(d.get_debug_info(Button::Up), (true, false, 1));
    assert_eq!(d.get_debug_info(Button::Down), (false, false, 2));
}
