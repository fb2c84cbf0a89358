//! Buzzer sequencing: the note sequences of each cue and alarm, and how a
//! command changes what plays.
use vstd::prelude::*;
use crate::audio_logic::{AlarmTone, Tone};

verus! {

/// One step of a sequence: a square wave of `freq_hz` for `ms`
/// milliseconds, or silence when `freq_hz` is 0.
#[derive(Copy, Clone, Debug, PartialEq, Eq, Structural)]
pub struct Event {
    pub freq_hz: u16,
    pub ms: u16,
}

#[derive(Copy, Clone, Debug, PartialEq, Eq, Structural)]
pub enum Command {
    Play(Tone),
    SetAlarm(Option<AlarmTone>),
}

pub open spec fn note(freq_hz: u16, ms: u16) -> Event {
    Event { freq_hz, ms }
}

pub open spec fn pause(ms: u16) -> Event {
    Event { freq_hz: 0, ms }
}

pub fn tone(freq_hz: u16, ms: u16) -> (e: Event)
    ensures
        e == note(freq_hz, ms),
{
    Event { freq_hz, ms }
}

pub fn rest(ms: u16) -> (e: Event)
    ensures
        e == pause(ms),
{
    Event { freq_hz: 0, ms }
}

/// The notes of each cue.
pub open spec fn tone_events(t: Tone) -> Seq<Event> {
    match t {
        Tone::Boot => seq![note(660, 70), pause(35), note(880, 85), pause(35), note(1320, 120)],
        Tone::OperationOk => seq![note(1047, 45), pause(25), note(1319, 60)],
        Tone::OperationDenied => seq![note(440, 80), pause(35), note(330, 110)],
        Tone::ChannelPowerOn => seq![note(784, 60), pause(30), note(1175, 90)],
        Tone::ChannelPowerOff => seq![note(1175, 55), pause(35), note(784, 95)],
        Tone::HintCurrent3A => seq![note(880, 55), pause(40), note(988, 55)],
        Tone::HintCurrent5A => seq![note(988, 60), pause(45), note(784, 80)],
        Tone::HintInsert => seq![note(784, 45), pause(25), note(1047, 70)],
        Tone::HintRemove => seq![note(1047, 45), pause(30), note(698, 80)],
    }
}

/// The notes of one round of each alarm.
pub open spec fn alarm_events(a: AlarmTone) -> Seq<Event> {
    match a {
        AlarmTone::ChannelShort => seq![
            note(220, 70),
            pause(45),
            note(220, 70),
            pause(45),
            note(330, 70),
        ],
        AlarmTone::OverTemp => seq![
            note(1320, 70),
            pause(50),
            note(1320, 70),
            pause(50),
            note(988, 120),
        ],
        AlarmTone::InputOverPower => seq![note(740, 120), pause(70), note(740, 120)],
        AlarmTone::ChannelOver5A => seq![note(988, 80), pause(80), note(988, 80)],
    }
}

pub fn events_for_tone(t: Tone) -> (v: Vec<Event>)
    ensures
        v@ == tone_events(t),
{
    let v = match t {
        Tone::Boot => vec![tone(660, 70), rest(35), tone(880, 85), rest(35), tone(1320, 120)],
        Tone::OperationOk => vec![tone(1047, 45), rest(25), tone(1319, 60)],
        Tone::OperationDenied => vec![tone(440, 80), rest(35), tone(330, 110)],
        Tone::ChannelPowerOn => vec![tone(784, 60), rest(30), tone(1175, 90)],
        Tone::ChannelPowerOff => vec![tone(1175, 55), rest(35), tone(784, 95)],
        Tone::HintCurrent3A => vec![tone(880, 55), rest(40), tone(988, 55)],
        Tone::HintCurrent5A => vec![tone(988, 60), rest(45), tone(784, 80)],
        Tone::HintInsert => vec![tone(784, 45), rest(25), tone(1047, 70)],
        Tone::HintRemove => vec![tone(1047, 45), rest(30), tone(698, 80)],
    };
    assert(v@ =~= tone_events(t));
    v
}

pub fn events_for_alarm(a: AlarmTone) -> (v: Vec<Event>)
    ensures
        v@ == alarm_events(a),
{
    let v = match a {
        AlarmTone::ChannelShort => vec![tone(220, 70), rest(45), tone(220, 70), rest(45), tone(330, 70)],
        AlarmTone::OverTemp => vec![tone(1320, 70), rest(50), tone(1320, 70), rest(50), tone(988, 120)],
        AlarmTone::InputOverPower => vec![tone(740, 120), rest(70), tone(740, 120)],
        AlarmTone::ChannelOver5A => vec![tone(988, 80), rest(80), tone(988, 80)],
    };
    assert(v@ =~= alarm_events(a));
    v
}

pub open spec fn spec_alarm_gap(a: AlarmTone) -> u64 {
    match a {
        AlarmTone::ChannelShort => 220,
        AlarmTone::OverTemp => 280,
        AlarmTone::InputOverPower => 300,
        AlarmTone::ChannelOver5A => 1800,
    }
}

/// The silence between two rounds of an alarm, in milliseconds.
pub fn alarm_gap(a: AlarmTone) -> (ms: u64)
    ensures
        ms == spec_alarm_gap(a),
{
    match a {
        AlarmTone::ChannelShort => 220,
        AlarmTone::OverTemp => 280,
        AlarmTone::InputOverPower => 300,
        AlarmTone::ChannelOver5A => 1800,
    }
}

/// The name of the active alarm, or `none`.
pub fn alarm_label(alarm: Option<AlarmTone>) -> (s: &'static str)
    ensures
        s@ == match alarm {
            Some(a) => a.spec_label(),
            None => "none"@,
        },
{
    match alarm {
        Some(a) => a.label(),
        None => "none",
    }
}

/// Applies a command: a cue asked for while an alarm sounds is dropped, one
/// asked for otherwise is returned to be played; an alarm command replaces
/// the active alarm (or silences it with `None`).
pub fn apply_command(command: Command, alarm: &mut Option<AlarmTone>) -> (play: Option<Tone>)
    ensures
        match command {
            Command::Play(t) => *final(alarm) == *old(alarm) && play == if old(alarm).is_some() {
                None
            } else {
                Some(t)
            },
            Command::SetAlarm(next) => *final(alarm) == next && play.is_none(),
        },
{
    match command {
        Command::Play(t) => {
            if alarm.is_some() {
                None
            } else {
                Some(t)
            }
        },
        Command::SetAlarm(next) => {
            if *alarm != next {
                *alarm = next;
            }
            None
        },
    }
}

/// Half the period of a square wave, in microseconds (a frequency of 0 is
/// taken as 1 Hz).
pub fn half_period_us(freq_hz: u16) -> (us: u64)
    ensures
        us == 500_000int / (if freq_hz == 0 { 1 } else { freq_hz as int }),
{
    let f: u64 = if freq_hz == 0 {
        1
    } else {
        freq_hz as u64
    };
    500_000u64 / f
}

} // verus!
