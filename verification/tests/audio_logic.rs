use iso_usb_hub::audio_logic::{center_button_tone, choose_alarm, AlarmTone, PortAudioTracker, Tone};

#[test]
fn alarm_priority_is_stable() {
    assert_eq!(choose_alarm(true, true, true, true), Some(AlarmTone::ChannelShort));
    assert_eq!(choose_alarm(false, true, true, true), Some(AlarmTone::OverTemp));
    assert_eq!(choose_alarm(false, false, true, true), Some(AlarmTone::InputOverPower));
    assert_eq!(choose_alarm(false, false, false, true), Some(AlarmTone::ChannelOver5A));
    assert_eq!(choose_alarm(false, false, false, false), None);
}

#[test]
fn port_tracker_reports_insert_remove_and_current_crossings_once() {
    let mut tracker = PortAudioTracker::default();

    assert_eq!(tracker.update(3299, 0, false), None);
    assert_eq!(tracker.update(3300, 0, false), Some(Tone::HintInsert));
    assert_eq!(tracker.update(5000, 3000, false), Some(Tone::HintCurrent3A));
    assert_eq!(tracker.update(5000, 3200, false), None);
    assert_eq!(tracker.update(5000, 5000, false), Some(Tone::HintCurrent5A));
    assert_eq!(tracker.update(5000, 4900, false), None);
    assert_eq!(tracker.update(5000, 4799, false), None);
    assert_eq!(tracker.update(5000, 5000, false), Some(Tone::HintCurrent5A));
    assert_eq!(tracker.update(2999, 0, false), Some(Tone::HintRemove));
}

#[test]
fn protection_tick_suppresses_normal_hints() {
    let mut tracker = PortAudioTracker::default();

    assert_eq!(tracker.update(5000, 5200, true), None);
    assert_eq!(tracker.update(5000, 5200, false), None);
    assert_eq!(tracker.update(2999, 0, true), None);
    assert_eq!(tracker.update(2999, 0, false), None);
}

#[test]
fn center_button_tone_reflects_acceptance_and_power_direction() {
    assert_eq!(center_button_tone(false, true), Tone::OperationDenied);
    assert_eq!(center_button_tone(true, true), Tone::ChannelPowerOn);
    assert_eq!(center_button_tone(true, false), Tone::ChannelPowerOff);
}

#[test]
fn steady_reading_settles_after_one_cue() {
    let mut tracker = PortAudioTracker::default();
    assert_eq!(tracker.update(5000, 0, false), Some(Tone::HintInsert));
    for _ in 0..5 {
        assert_eq!(tracker.update(5000, 0, false), None);
    }
}

#[test]
fn tone_and_alarm_labels() {
    assert_eq!(Tone::HintInsert.label(), "hint_insert");
    assert_eq!(AlarmTone::ChannelShort.label(), "channel_short");
}
