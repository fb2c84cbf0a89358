use iso_usb_hub::fan::{fan_control_tick, pi_step, FanDrive, PiState};
use iso_usb_hub::audio_logic::{AlarmTone, Tone};
use iso_usb_hub::buzzer::{
    alarm_gap, alarm_label, events_for_alarm, events_for_tone, half_period_us, rest, tone,
};
use iso_usb_hub::fan::{median_in_place, rpm_from_pulses, slew, speed_to_hw_duty};

#[test]
fn speed_maps_to_inverted_duty() {
    assert_eq!(speed_to_hw_duty(0), 100);
    assert_eq!(speed_to_hw_duty(30), 70);
    assert_eq!(speed_to_hw_duty(100), 0);
    assert_eq!(speed_to_hw_duty(250), 0);
}

#[test]
fn slew_moves_by_at_most_the_step() {
    assert_eq!(slew(10, 50, 6), 16);
    assert_eq!(slew(10, 12, 6), 12);
    assert_eq!(slew(50, 10, 6), 44);
    assert_eq!(slew(250, 0, 255), 0);
    let mut v = 0u8;
    for _ in 0..20 {
        v = slew(v, 100, 6);
    }
    assert_eq!(v, 100);
}

#[test]
fn median_of_unsorted_samples() {
    let mut v = [900u32, 100, 500, 300, 700];
    assert_eq!(median_in_place(&mut v), 500);
    assert_eq!(v, [100, 300, 500, 700, 900]);
    let mut w = [4u32, 1, 3, 2];
    assert_eq!(median_in_place(&mut w), 3);
}

#[test]
fn rpm_from_pulses_counts_two_pulses_per_turn_and_caps() {
    assert_eq!(rpm_from_pulses(100, 1000), 3000);
    assert_eq!(rpm_from_pulses(10, 0), 12_000);
    assert_eq!(rpm_from_pulses(0, 500), 0);
    assert_eq!(rpm_from_pulses(1_000_000, 1000), 12_000);
}

#[test]
fn cue_and_alarm_notes() {
    assert_eq!(
        events_for_tone(Tone::HintInsert),
        vec![tone(784, 45), rest(25), tone(1047, 70)]
    );
    assert_eq!(events_for_alarm(AlarmTone::ChannelOver5A).len(), 3);
    assert_eq!(alarm_gap(AlarmTone::ChannelOver5A), 1800);
    assert_eq!(alarm_label(None), "none");
    assert_eq!(alarm_label(Some(AlarmTone::OverTemp)), "over_temp");
    assert_eq!(half_period_us(1000), 500);
}

#[test]
fn zero_target_switches_the_fan_off_and_clears_the_loop() {
    let mut s = PiState { max_rpm_seen: 5000, integral: 1200, duty_pi: 40, applied_duty: 38 };
    let d = fan_control_tick(&mut s, 0, true, 6000, 3000);
    assert_eq!(d, FanDrive { enabled: false, speed_pct: 0 });
    assert_eq!(s, PiState { max_rpm_seen: 5000, integral: 0, duty_pi: 0, applied_duty: 0 });
}

#[test]
fn untrusted_tachometer_forces_full_speed() {
    let mut s = PiState { max_rpm_seen: 0, integral: 10, duty_pi: 20, applied_duty: 20 };
    let d = fan_control_tick(&mut s, 30, false, 6000, 0);
    assert_eq!(d, FanDrive { enabled: true, speed_pct: 100 });
    assert_eq!(s, PiState { max_rpm_seen: 0, integral: 10, duty_pi: 20, applied_duty: 100 });
    let mut s2 = PiState { max_rpm_seen: 0, integral: 0, duty_pi: 0, applied_duty: 0 };
    assert_eq!(fan_control_tick(&mut s2, 30, true, 0, 0), FanDrive { enabled: true, speed_pct: 100 });
}

#[test]
fn trusted_tachometer_runs_the_closed_loop() {
    let start = PiState { max_rpm_seen: 0, integral: 0, duty_pi: 0, applied_duty: 0 };
    let expected = pi_step(start, 6000, 0, 50);
    let mut s = start;
    let d = fan_control_tick(&mut s, 50, true, 6000, 0);
    assert_eq!(s, expected);
    assert_eq!(d, FanDrive { enabled: true, speed_pct: expected.applied_duty });
    // 3000 rpm short of target: error 3000, integral 3000, steps 25 and 3, slewed to 6.
    assert_eq!(s, PiState { max_rpm_seen: 0, integral: 3000, duty_pi: 28, applied_duty: 6 });
}
