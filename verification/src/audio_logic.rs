use vstd::prelude::*;

verus! {

pub const PORT_INSERT_MV: u32 = 3300;
pub const PORT_REMOVE_MV: u32 = 3000;
pub const CURRENT_3A_SET_MA: u32 = 3000;
pub const CURRENT_3A_CLEAR_MA: u32 = 2800;
pub const CURRENT_5A_SET_MA: u32 = 5000;
pub const CURRENT_5A_CLEAR_MA: u32 = 4800;

/// Short cues played on the buzzer for normal events.
#[derive(Copy, Clone, Debug, PartialEq, Eq, Structural)]
pub enum Tone {
    Boot,
    OperationOk,
    OperationDenied,
    ChannelPowerOn,
    ChannelPowerOff,
    HintCurrent3A,
    HintCurrent5A,
    HintInsert,
    HintRemove,
}

impl Tone {
    pub open spec fn spec_label(self) -> Seq<char> {
        match self {
            Tone::Boot => "boot"@,
            Tone::OperationOk => "operation_ok"@,
            Tone::OperationDenied => "operation_denied"@,
            Tone::ChannelPowerOn => "channel_power_on"@,
            Tone::ChannelPowerOff => "channel_power_off"@,
            Tone::HintCurrent3A => "hint_current_3a"@,
            Tone::HintCurrent5A => "hint_current_5a"@,
            Tone::HintInsert => "hint_insert"@,
            Tone::HintRemove => "hint_remove"@,
        }
    }

    /// Stable name of the cue, as logged and reported.
    pub fn label(self) -> (s: &'static str)
        ensures
            s@ == self.spec_label(),
    {
        match self {
            Tone::Boot => "boot",
            Tone::OperationOk => "operation_ok",
            Tone::OperationDenied => "operation_denied",
            Tone::ChannelPowerOn => "channel_power_on",
            Tone::ChannelPowerOff => "channel_power_off",
            Tone::HintCurrent3A => "hint_current_3a",
            Tone::HintCurrent5A => "hint_current_5a",
            Tone::HintInsert => "hint_insert",
            Tone::HintRemove => "hint_remove",
        }
    }
}

/// Which alarm wins when several conditions hold at once.
pub open spec fn spec_choose_alarm(
    channel_short: bool,
    over_temp: bool,
    input_over_power: bool,
    channel_over_5a: bool,
) -> Option<AlarmTone> {
    if channel_short {
        Some(AlarmTone::ChannelShort)
    } else if over_temp {
        Some(AlarmTone::OverTemp)
    } else if input_over_power {
        Some(AlarmTone::InputOverPower)
    } else if channel_over_5a {
        Some(AlarmTone::ChannelOver5A)
    } else {
        None
    }
}

#[derive(Copy, Clone, Debug, PartialEq, Eq, Structural)]
pub enum AlarmTone {
    ChannelShort,
    OverTemp,
    InputOverPower,
    ChannelOver5A,
}

impl AlarmTone {
    pub open spec fn spec_label(self) -> Seq<char> {
        match self {
            AlarmTone::ChannelShort => "channel_short"@,
            AlarmTone::OverTemp => "over_temp"@,
            AlarmTone::InputOverPower => "input_over_power"@,
            AlarmTone::ChannelOver5A => "channel_over_5a"@,
        }
    }

    /// Stable name of the alarm, as logged and reported.
    pub fn label(self) -> (s: &'static str)
        ensures
            s@ == self.spec_label(),
    {
        match self {
            AlarmTone::ChannelShort => "channel_short",
            AlarmTone::OverTemp => "over_temp",
            AlarmTone::InputOverPower => "input_over_power",
            AlarmTone::ChannelOver5A => "channel_over_5a",
        }
    }
}

pub fn choose_alarm(
    channel_short: bool,
    over_temp: bool,
    input_over_power: bool,
    channel_over_5a: bool,
) -> (r: Option<AlarmTone>)
    ensures
        r == spec_choose_alarm(channel_short, over_temp, input_over_power, channel_over_5a),
{
    if channel_short {
        Some(AlarmTone::ChannelShort)
    } else if over_temp {
        Some(AlarmTone::OverTemp)
    } else if input_over_power {
        Some(AlarmTone::InputOverPower)
    } else if channel_over_5a {
        Some(AlarmTone::ChannelOver5A)
    } else {
        None
    }
}

/// What the tracker remembers of one port between two readings.
pub struct TrackerModel {
    pub inserted: bool,
    pub current_3a: bool,
    pub current_5a: bool,
}

/// Follows one port's readings and decides which hint cue, if any, a new
/// reading deserves. Each threshold has a set and a lower clear level, so a
/// reading that wavers near a threshold does not repeat the cue.
#[derive(Copy, Clone, Debug, PartialEq, Eq, Structural)]
pub struct PortAudioTracker {
    inserted: bool,
    current_3a: bool,
    current_5a: bool,
}

impl View for PortAudioTracker {
    type V = TrackerModel;

    closed spec fn view(&self) -> TrackerModel {
        TrackerModel {
            inserted: self.inserted,
            current_3a: self.current_3a,
            current_5a: self.current_5a,
        }
    }
}

/// Tracker state after a reading taken while cues are suppressed: the flags
/// follow the reading, no cue is owed.
pub open spec fn synchronized(s: TrackerModel, vbus_mv: u32, current_ma: u32) -> TrackerModel {
    let inserted = if vbus_mv >= PORT_INSERT_MV {
        true
    } else if vbus_mv < PORT_REMOVE_MV {
        false
    } else {
        s.inserted
    };
    if !inserted {
        TrackerModel { inserted: false, current_3a: false, current_5a: false }
    } else {
        let (c3, c5) = if current_ma >= CURRENT_5A_SET_MA {
            (true, true)
        } else if current_ma < CURRENT_5A_CLEAR_MA {
            (s.current_3a, false)
        } else {
            (s.current_3a, s.current_5a)
        };
        let c3 = if current_ma >= CURRENT_3A_SET_MA {
            true
        } else if current_ma < CURRENT_3A_CLEAR_MA {
            false
        } else {
            c3
        };
        TrackerModel { inserted: true, current_3a: c3, current_5a: c5 }
    }
}

/// Tracker state and cue after one reading.
pub open spec fn tracker_step(s: TrackerModel, vbus_mv: u32, current_ma: u32, suppress: bool) -> (
    TrackerModel,
    Option<Tone>,
) {
    if suppress {
        (synchronized(s, vbus_mv, current_ma), None)
    } else if !s.inserted {
        if vbus_mv >= PORT_INSERT_MV {
            (TrackerModel { inserted: true, current_3a: false, current_5a: false }, Some(Tone::HintInsert))
        } else {
            (s, None)
        }
    } else if vbus_mv < PORT_REMOVE_MV {
        (TrackerModel { inserted: false, current_3a: false, current_5a: false }, Some(Tone::HintRemove))
    } else {
        let c3 = s.current_3a && current_ma >= CURRENT_3A_CLEAR_MA;
        let c5 = s.current_5a && current_ma >= CURRENT_5A_CLEAR_MA;
        if !c5 && current_ma >= CURRENT_5A_SET_MA {
            (TrackerModel { inserted: true, current_3a: true, current_5a: true }, Some(Tone::HintCurrent5A))
        } else if !c3 && current_ma >= CURRENT_3A_SET_MA {
            (TrackerModel { inserted: true, current_3a: true, current_5a: c5 }, Some(Tone::HintCurrent3A))
        } else {
            (TrackerModel { inserted: true, current_3a: c3, current_5a: c5 }, None)
        }
    }
}

impl Default for PortAudioTracker {
    /// A port with nothing plugged in and no current flag raised.
    fn default() -> (t: Self)
        ensures
            t@ == (TrackerModel { inserted: false, current_3a: false, current_5a: false }),
    {
        PortAudioTracker { inserted: false, current_3a: false, current_5a: false }
    }
}

impl PortAudioTracker {
    /// Takes one reading and returns the hint cue it deserves. While
    /// `suppress_normal_tone` holds (an alarm is sounding) the flags follow
    /// the reading and no cue is returned.
    pub fn update(&mut self, vbus_mv: u32, current_ma: u32, suppress_normal_tone: bool) -> (r:
        Option<Tone>)
        ensures
            (final(self)@, r) == tracker_step(old(self)@, vbus_mv, current_ma, suppress_normal_tone),
    {
        if suppress_normal_tone {
            self.synchronize(vbus_mv, current_ma);
            return None;
        }
        if !self.inserted {
            if vbus_mv >= PORT_INSERT_MV {
                self.inserted = true;
                self.current_3a = false;
                self.current_5a = false;
                return Some(Tone::HintInsert);
            }
            return None;
        }
        if vbus_mv < PORT_REMOVE_MV {
            self.inserted = false;
            self.current_3a = false;
            self.current_5a = false;
            return Some(Tone::HintRemove);
        }
        if current_ma < CURRENT_3A_CLEAR_MA {
            self.current_3a = false;
        }
        if current_ma < CURRENT_5A_CLEAR_MA {
            self.current_5a = false;
        }
        if !self.current_5a && current_ma >= CURRENT_5A_SET_MA {
            self.current_5a = true;
            self.current_3a = true;
            return Some(Tone::HintCurrent5A);
        }
        if !self.current_3a && current_ma >= CURRENT_3A_SET_MA {
            self.current_3a = true;
            return Some(Tone::HintCurrent3A);
        }
        None
    }

    fn synchronize(&mut self, vbus_mv: u32, current_ma: u32)
        ensures
            final(self)@ == synchronized(old(self)@, vbus_mv, current_ma),
    {
        if vbus_mv >= PORT_INSERT_MV {
            self.inserted = true;
        } else if vbus_mv < PORT_REMOVE_MV {
            self.inserted = false;
        }
        if !self.inserted {
            self.current_3a = false;
            self.current_5a = false;
            return;
        }
        if current_ma >= CURRENT_5A_SET_MA {
            self.current_5a = true;
            self.current_3a = true;
        } else if current_ma < CURRENT_5A_CLEAR_MA {
            self.current_5a = false;
        }
        if current_ma >= CURRENT_3A_SET_MA {
            self.current_3a = true;
        } else if current_ma < CURRENT_3A_CLEAR_MA {
            self.current_3a = false;
        }
    }
}

/// A steady reading raises each cue at most once: the cue it raised is not
/// raised again by the same reading, and by the third identical reading the
/// tracker has settled and stays silent.
pub proof fn lemma_steady_reading_settles(s: TrackerModel, vbus_mv: u32, current_ma: u32)
    ensures
        ({
            let (s1, t1) = tracker_step(s, vbus_mv, current_ma, false);
            let (s2, t2) = tracker_step(s1, vbus_mv, current_ma, false);
            let (s3, t3) = tracker_step(s2, vbus_mv, current_ma, false);
            &&& t1 is Some ==> t2 != t1
            &&& t3 is None
            &&& tracker_step(s3, vbus_mv, current_ma, false) == (s3, None::<Tone>)
        }),
{
}

/// A reading taken while cues are suppressed leaves nothing owed: the same
/// reading afterwards, unsuppressed, raises no cue.
pub proof fn lemma_suppressed_reading_owes_no_cue(s: TrackerModel, vbus_mv: u32, current_ma: u32)
    ensures
        ({
            let (s1, t1) = tracker_step(s, vbus_mv, current_ma, true);
            let (s2, t2) = tracker_step(s1, vbus_mv, current_ma, false);
            &&& t1 is None
            &&& t2 is None
            &&& s2 == s1
        }),
{
}

/// Which cue the center button plays: refused, or the new power direction.
pub fn center_button_tone(can_toggle: bool, next_enabled: bool) -> (t: Tone)
    ensures
        t == (if !can_toggle {
            Tone::OperationDenied
        } else if next_enabled {
            Tone::ChannelPowerOn
        } else {
            Tone::ChannelPowerOff
        }),
{
    if !can_toggle {
        Tone::OperationDenied
    } else if next_enabled {
        Tone::ChannelPowerOn
    } else {
        Tone::ChannelPowerOff
    }
}

} // verus!
