//! The dashboard application loop's decisions. Each pass reads the three
//! ports (connection and fault flags), raises an alarm for each fault that
//! has just appeared, beeps for each connection that changed, and re-applies
//! the power allocation when the connections changed or the last successful
//! apply is more than ten seconds old. The joystick moves the selected port,
//! flips the dashboard page, and holding the center key cuts the selected
//! port's USB data lines until it is released.
use vstd::prelude::*;
use crate::joystick::Button;

verus! {

/// How long a successful power allocation stays fresh.
pub const APPLY_PERIOD_MS: u64 = 10_000;

/// What the loop remembers from one pass to the next.
#[derive(Clone, Copy, Debug)]
pub struct AppLoopState {
    /// The connection flags of the last pass.
    pub connected: [bool; 3],
    /// The fault flags of the last pass.
    pub overcurrent: [bool; 3],
    /// When the power allocation was last applied successfully.
    pub last_apply_ms: u64,
    /// The port shown as selected on the dashboard (0-based).
    pub selected_port: usize,
    /// Whether the selected port's data lines are cut by a held center key.
    pub usb_comm_disabled: bool,
    /// Whether the dashboard shows the power allocation page.
    pub show_allocation: bool,
    /// The data-line state of each port as the dashboard shows it.
    pub usb_comm: [bool; 3],
}

/// One pass's readings of the three ports.
#[derive(Clone, Copy, Debug)]
pub struct AppReadings {
    pub connected: [bool; 3],
    pub overcurrent: [bool; 3],
}

/// What a pass asks the hardware to do.
#[derive(Clone, Copy, Debug)]
pub struct AppActions {
    /// An alarm for each port whose fault has just appeared.
    pub alarms: [bool; 3],
    /// A connection beep for each port whose connection changed.
    pub change_beeps: [bool; 3],
    /// Whether to apply the power allocation now.
    pub apply_allocation: bool,
}

/// What a joystick key asks for.
#[derive(Clone, Copy, Debug, PartialEq, Eq, Structural)]
pub enum ButtonAction {
    Nothing,
    /// A confirmation beep of the given length.
    Beep(u16),
    /// Switch the data lines of a port (1-based) on or off.
    SwitchUsb { port: u8, enable: bool },
}

impl AppLoopState {
    pub open spec fn wf(self) -> bool {
        self.selected_port < 3
    }

    /// Nothing connected, no fault, port 2 selected, data lines on.
    pub fn new() -> (s: Self)
        ensures
            s.wf(),
            s.connected@ == seq![false, false, false],
            s.overcurrent@ == seq![false, false, false],
            s.last_apply_ms == 0,
            s.selected_port == 1,
            !s.usb_comm_disabled,
            !s.show_allocation,
            s.usb_comm@ == seq![true, true, true],
    {
        let s = AppLoopState {
            connected: [false, false, false],
            overcurrent: [false, false, false],
            last_apply_ms: 0,
            selected_port: 1,
            usb_comm_disabled: false,
            show_allocation: false,
            usb_comm: [true, true, true],
        };
        assert(s.connected@ =~= seq![false, false, false]);
        assert(s.overcurrent@ =~= seq![false, false, false]);
        assert(s.usb_comm@ =~= seq![true, true, true]);
        s
    }
}

/// A fault on port `i` that the last pass did not see.
pub open spec fn alarm_due(s: AppLoopState, r: AppReadings, i: int) -> bool {
    r.overcurrent@[i] && !s.overcurrent@[i]
}

/// A connection on port `i` that differs from the last pass.
pub open spec fn beep_due(s: AppLoopState, r: AppReadings, i: int) -> bool {
    r.connected@[i] != s.connected@[i]
}

/// The power allocation is applied when a connection changed or the last
/// successful apply is older than the period.
pub open spec fn apply_due(s: AppLoopState, r: AppReadings, now_ms: u64) -> bool {
    r.connected@ != s.connected@ || now_ms - s.last_apply_ms > APPLY_PERIOD_MS
}

/// The state after a pass: the flags of this pass are remembered.
pub open spec fn spec_app_next(s: AppLoopState, r: AppReadings) -> AppLoopState {
    AppLoopState { connected: r.connected, overcurrent: r.overcurrent, ..s }
}

fn changed(a: bool, b: bool) -> (r: bool)
    ensures
        r == (a != b),
{
    a != b
}

/// One pass over the port readings.
pub fn app_step(state: &mut AppLoopState, readings: AppReadings, now_ms: u64) -> (actions: AppActions)
    requires
        now_ms >= old(state).last_apply_ms,
    ensures
        forall|i: int| 0 <= i < 3 ==> actions.alarms@[i] == alarm_due(*old(state), readings, i),
        forall|i: int| 0 <= i < 3 ==> actions.change_beeps@[i] == beep_due(*old(state), readings, i),
        actions.apply_allocation == apply_due(*old(state), readings, now_ms),
        *final(state) == spec_app_next(*old(state), readings),
{
    let alarms = [
        readings.overcurrent[0] && !state.overcurrent[0],
        readings.overcurrent[1] && !state.overcurrent[1],
        readings.overcurrent[2] && !state.overcurrent[2],
    ];
    let change_beeps = [
        changed(readings.connected[0], state.connected[0]),
        changed(readings.connected[1], state.connected[1]),
        changed(readings.connected[2], state.connected[2]),
    ];
    let connections_changed = change_beeps[0] || change_beeps[1] || change_beeps[2];
    proof {
        assert(alarms@ =~= seq![alarms[0], alarms[1], alarms[2]]);
        if !connections_changed {
            assert(readings.connected@ =~= state.connected@);
        }
    }
    let apply_allocation = connections_changed || now_ms - state.last_apply_ms > APPLY_PERIOD_MS;
    state.connected = readings.connected;
    state.overcurrent = readings.overcurrent;
    AppActions { alarms, change_beeps, apply_allocation }
}

/// Records the outcome of applying the power allocation: a success at
/// `now_ms` restarts the period, a failure leaves it running.
pub fn app_apply_done(state: &mut AppLoopState, ok: bool, now_ms: u64)
    ensures
        *final(state) == (if ok {
            AppLoopState { last_apply_ms: now_ms, ..*old(state) }
        } else {
            *old(state)
        }),
{
    if ok {
        state.last_apply_ms = now_ms;
    }
}

/// The state and action after a joystick key.
pub open spec fn spec_app_button(s: AppLoopState, b: Button) -> (AppLoopState, ButtonAction) {
    match b {
        Button::Left => if s.selected_port > 0 {
            (AppLoopState { selected_port: (s.selected_port - 1) as usize, ..s }, ButtonAction::Beep(100))
        } else {
            (s, ButtonAction::Nothing)
        },
        Button::Right => if s.selected_port < 2 {
            (AppLoopState { selected_port: (s.selected_port + 1) as usize, ..s }, ButtonAction::Beep(100))
        } else {
            (s, ButtonAction::Nothing)
        },
        Button::Down => (AppLoopState { show_allocation: !s.show_allocation, ..s }, ButtonAction::Beep(100)),
        Button::Center => (s, ButtonAction::SwitchUsb { port: (s.selected_port + 1) as u8, enable: false }),
        Button::Up => (s, ButtonAction::Nothing),
    }
}

/// A debounced joystick key: left and right move the selection within the
/// three ports, down flips the dashboard page, center asks to cut the
/// selected port's data lines; up does nothing.
pub fn app_button(state: &mut AppLoopState, button: Button) -> (action: ButtonAction)
    requires
        old(state).wf(),
    ensures
        final(state).wf(),
        (*final(state), action) == spec_app_button(*old(state), button),
{
    match button {
        Button::Left => {
            if state.selected_port > 0 {
                state.selected_port = state.selected_port - 1;
                ButtonAction::Beep(100)
            } else {
                ButtonAction::Nothing
            }
        },
        Button::Right => {
            if state.selected_port < 2 {
                state.selected_port = state.selected_port + 1;
                ButtonAction::Beep(100)
            } else {
                ButtonAction::Nothing
            }
        },
        Button::Down => {
            state.show_allocation = !state.show_allocation;
            ButtonAction::Beep(100)
        },
        Button::Center => ButtonAction::SwitchUsb { port: (state.selected_port + 1) as u8, enable: false },
        Button::Up => ButtonAction::Nothing,
    }
}

/// Records the outcome of switching the selected port's data lines: on
/// success the dashboard shows the new state and a beep confirms it (longer
/// for a cut); a failure changes nothing.
pub fn app_usb_switched(state: &mut AppLoopState, enable: bool, ok: bool) -> (beep: Option<u16>)
    requires
        old(state).wf(),
    ensures
        final(state).wf(),
        !ok ==> *final(state) == *old(state) && beep is None,
        ok ==> {
            &&& beep == Some(if enable { 100u16 } else { 200u16 })
            &&& final(state).usb_comm_disabled == !enable
            &&& final(state).usb_comm@ == old(state).usb_comm@.update(old(state).selected_port as int, enable)
            &&& final(state).connected == old(state).connected
            &&& final(state).overcurrent == old(state).overcurrent
            &&& final(state).last_apply_ms == old(state).last_apply_ms
            &&& final(state).selected_port == old(state).selected_port
            &&& final(state).show_allocation == old(state).show_allocation
        },
{
    if !ok {
        return None;
    }
    state.usb_comm_disabled = !enable;
    let i = state.selected_port;
    state.usb_comm[i] = enable;
    if enable {
        Some(100)
    } else {
        Some(200)
    }
}

/// After the keys of a pass: while the data lines are cut and the center key
/// is no longer held, ask to restore them on the selected port (1-based).
pub fn app_center_release(state: &AppLoopState, center_pressed: bool) -> (r: Option<u8>)
    requires
        state.wf(),
    ensures
        r == (if !center_pressed && state.usb_comm_disabled {
            Some((state.selected_port + 1) as u8)
        } else {
            None
        }),
{
    if !center_pressed && state.usb_comm_disabled {
        Some((state.selected_port + 1) as u8)
    } else {
        None
    }
}

/// The expander pin that switches a port's USB data lines.
#[derive(Clone, Copy, Debug, PartialEq, Eq, Structural)]
pub enum DataConnPin {
    P10,
    P11,
    P12,
}

#[derive(Clone, Copy, Debug, PartialEq, Eq, Structural)]
pub enum PinError {
    InvalidPort,
}

/// The pin and level that switch the data lines of port 1, 2 or 3 (high
/// connects them); any other port is refused.
pub fn usb_data_switch(port: u8, enable: bool) -> (r: Result<(DataConnPin, bool), PinError>)
    ensures
        r == match port {
            1 => Ok((DataConnPin::P10, enable)),
            2 => Ok((DataConnPin::P11, enable)),
            3 => Ok((DataConnPin::P12, enable)),
            _ => Err(PinError::InvalidPort),
        },
{
    let pin = match port {
        1 => DataConnPin::P10,
        2 => DataConnPin::P11,
        3 => DataConnPin::P12,
        _ => return Err(PinError::InvalidPort),
    };
    Ok((pin, enable))
}

/// The expander pins that set a TPS25810 port's current advertisement.
#[derive(Clone, Copy, Debug, PartialEq, Eq, Structural)]
pub enum ChargePin {
    P03,
    P04,
    P22,
    P23,
}

/// The current a TPS25810 port advertises.
#[derive(Clone, Copy, Debug, PartialEq, Eq, Structural)]
pub enum CurrentLimitMode {
    /// 3 A: both lines high.
    ThreeAmps,
    /// 1.5 A: CHG high, CHG_HL low.
    OnePointFiveAmps,
    /// The default (500 or 900 mA): both lines low.
    Default,
}

/// The CHG and CHG_HL pins of port 2 or 3 with their levels for a mode;
/// any other port is refused.
pub fn current_limit_pins(port: u8, mode: CurrentLimitMode) -> (r: Result<((ChargePin, bool), (ChargePin, bool)), PinError>)
    ensures
        r == match port {
            2 | 3 => {
                let (chg, chg_hl) = if port == 2 {
                    (ChargePin::P04, ChargePin::P03)
                } else {
                    (ChargePin::P22, ChargePin::P23)
                };
                let (chg_level, chg_hl_level) = match mode {
                    CurrentLimitMode::ThreeAmps => (true, true),
                    CurrentLimitMode::OnePointFiveAmps => (true, false),
                    CurrentLimitMode::Default => (false, false),
                };
                Ok(((chg, chg_level), (chg_hl, chg_hl_level)))
            },
            _ => Err(PinError::InvalidPort),
        },
{
    let (chg, chg_hl) = match port {
        2 => (ChargePin::P04, ChargePin::P03),
        3 => (ChargePin::P22, ChargePin::P23),
        _ => return Err(PinError::InvalidPort),
    };
    let (chg_level, chg_hl_level) = match mode {
        CurrentLimitMode::ThreeAmps => (true, true),
        CurrentLimitMode::OnePointFiveAmps => (true, false),
        CurrentLimitMode::Default => (false, false),
    };
    Ok(((chg, chg_level), (chg_hl, chg_hl_level)))
}

/// Once a pass has seen its readings, a second pass with the same readings
/// raises no alarm and no connection beep, and applies the power allocation
/// only when the period has run out.
pub proof fn lemma_steady_readings_stay_quiet(s: AppLoopState, r: AppReadings, now_ms: u64)
    ensures
        forall|i: int| 0 <= i < 3 ==> !alarm_due(spec_app_next(s, r), r, i),
        forall|i: int| 0 <= i < 3 ==> !beep_due(spec_app_next(s, r), r, i),
        apply_due(spec_app_next(s, r), r, now_ms) == (now_ms - s.last_apply_ms > APPLY_PERIOD_MS),
{
}

/// A fault that stays raised alarms once: the pass after the one that saw
/// it appear raises no alarm for it.
pub proof fn lemma_fault_alarms_once(s: AppLoopState, r1: AppReadings, r2: AppReadings, i: int)
    requires
        0 <= i < 3,
        r1.overcurrent@[i],
        r2.overcurrent@[i],
    ensures
        !alarm_due(spec_app_next(s, r1), r2, i),
{
}

/// The selection never leaves the three ports, and left then right (or
/// right then left) away from the ends returns to the same port.
pub proof fn lemma_selection_moves(s: AppLoopState)
    requires
        s.wf(),
    ensures
        spec_app_button(s, Button::Left).0.wf(),
        spec_app_button(s, Button::Right).0.wf(),
        s.selected_port > 0 ==> spec_app_button(spec_app_button(s, Button::Left).0, Button::Right).0
            == s,
        s.selected_port < 2 ==> spec_app_button(spec_app_button(s, Button::Right).0, Button::Left).0
            == s,
{
}

} // verus!
