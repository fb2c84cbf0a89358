//! The per-port runtime policy: which ports may drive their output, the
//! over-current latch with its retry and release, and the front-panel port
//! selection.
use vstd::prelude::*;
use crate::front_panel::KeyEvent;

verus! {

pub const PORT_OCP_LOW_VBUS_MV: u32 = 3000;
pub const PORT_OCP_LOW_VBUS_MIN_CURRENT_MA: u32 = 100;
pub const PORT_OCP_HIGH_CURRENT_MA: u32 = 5300;
pub const PORT_OCP_RELEASE_SAFE_SAMPLES: u8 = 4;

/// INA226 and TMP112 addresses of each output module.
pub fn module_addr_pair(ch: u8) -> (r: (u8, u8))
    ensures
        r == if ch % 4 == 0 {
            (0x40u8, 0x48u8)
        } else if ch % 4 == 1 {
            (0x41u8, 0x49u8)
        } else if ch % 4 == 2 {
            (0x42u8, 0x4Au8)
        } else {
            (0x43u8, 0x4Bu8)
        },
{
    let ina: [u8; 4] = [0x40, 0x41, 0x42, 0x43];
    let tmp: [u8; 4] = [0x48, 0x49, 0x4A, 0x4B];
    assert(ch & 0x03 == ch % 4) by (bit_vector);
    let idx = (ch & 0x03) as usize;
    (ina[idx], tmp[idx])
}

#[derive(Copy, Clone, Debug, PartialEq, Eq, Structural)]
pub enum PortOcpDecision {
    Clear,
    LowVbus,
    HighCurrent,
}

pub open spec fn spec_port_overcurrent(vbus_mv: u32, current_ma: u32) -> PortOcpDecision {
    if current_ma > PORT_OCP_HIGH_CURRENT_MA {
        PortOcpDecision::HighCurrent
    } else if vbus_mv < PORT_OCP_LOW_VBUS_MV && current_ma > PORT_OCP_LOW_VBUS_MIN_CURRENT_MA {
        PortOcpDecision::LowVbus
    } else {
        PortOcpDecision::Clear
    }
}

/// Over-current of a port reading: more than 5.3 A, or a bus below 3 V that
/// still draws more than 100 mA.
pub fn port_overcurrent(vbus_mv: u32, current_ma: u32) -> (d: PortOcpDecision)
    ensures
        d == spec_port_overcurrent(vbus_mv, current_ma),
{
    if current_ma > PORT_OCP_HIGH_CURRENT_MA {
        return PortOcpDecision::HighCurrent;
    }
    if vbus_mv < PORT_OCP_LOW_VBUS_MV && current_ma > PORT_OCP_LOW_VBUS_MIN_CURRENT_MA {
        return PortOcpDecision::LowVbus;
    }
    PortOcpDecision::Clear
}

pub fn ocp_reason_label(decision: PortOcpDecision) -> (s: &'static str)
    ensures
        s@ == match decision {
            PortOcpDecision::Clear => "none"@,
            PortOcpDecision::LowVbus => "low_vbus"@,
            PortOcpDecision::HighCurrent => "high_current"@,
        },
{
    match decision {
        PortOcpDecision::Clear => "none",
        PortOcpDecision::LowVbus => "low_vbus",
        PortOcpDecision::HighCurrent => "high_current",
    }
}

pub open spec fn spec_recovery_safe(vbus_mv: u32, current_ma: u32) -> bool {
    vbus_mv >= PORT_OCP_LOW_VBUS_MV && current_ma <= PORT_OCP_HIGH_CURRENT_MA
}

/// A reading that counts toward releasing a latched port.
pub fn port_ocp_recovery_safe(vbus_mv: u32, current_ma: u32) -> (b: bool)
    ensures
        b == spec_recovery_safe(vbus_mv, current_ma),
{
    vbus_mv >= PORT_OCP_LOW_VBUS_MV && current_ma <= PORT_OCP_HIGH_CURRENT_MA
}

#[derive(Copy, Clone, Debug, PartialEq, Eq, Structural)]
pub enum UiPortState {
    Initializing,
    Disconnected,
    Closed,
    Overcurrent,
    Normal,
}

pub fn port_state_label(state: UiPortState) -> (s: &'static str)
    ensures
        s@ == match state {
            UiPortState::Initializing => "init"@,
            UiPortState::Disconnected => "disc"@,
            UiPortState::Closed => "off"@,
            UiPortState::Overcurrent => "cc"@,
            UiPortState::Normal => "ok"@,
        },
{
    match state {
        UiPortState::Initializing => "init",
        UiPortState::Disconnected => "disc",
        UiPortState::Closed => "off",
        UiPortState::Overcurrent => "cc",
        UiPortState::Normal => "ok",
    }
}

/// How the hub is powered: its sideband is offline, or it runs from the
/// host, or stand-alone.
pub fn hub_power_mode_label(sideband_online: bool, upstream_powered: bool) -> (s: &'static str)
    ensures
        s@ == if !sideband_online {
            "offline"@
        } else if upstream_powered {
            "host"@
        } else {
            "standalone"@
        },
{
    if !sideband_online {
        "offline"
    } else if upstream_powered {
        "host"
    } else {
        "standalone"
    }
}

pub open spec fn spec_hub_allows(sideband_online: bool, upstream_powered: bool, pwren: bool) -> bool {
    sideband_online && (!upstream_powered || pwren)
}

/// The hub lets a port output run when its sideband is online and, when the
/// host powers the hub, the host has enabled that port's power.
pub fn hub_allows_output(
    sideband_online: bool,
    upstream_powered: bool,
    pwren_enabled: [bool; 4],
    idx: usize,
) -> (b: bool)
    requires
        idx < 4,
    ensures
        b == spec_hub_allows(sideband_online, upstream_powered, pwren_enabled@[idx as int]),
{
    sideband_online && (!upstream_powered || pwren_enabled[idx])
}

/// The over-current bookkeeping of one port.
#[derive(Copy, Clone, Debug, PartialEq, Eq, Structural)]
pub struct PortOcpState {
    pub latched: bool,
    pub safe_samples: u8,
    pub retry_wait: u8,
}

/// What the runtime knows of a port at the start of a tick.
#[derive(Copy, Clone, Debug, PartialEq, Eq, Structural)]
pub struct PortConditions {
    pub manual_enabled: bool,
    pub switch_open: bool,
    pub hub_allows: bool,
    pub output_active: bool,
    pub module_ready: bool,
    pub scan_done: bool,
}

/// The outcome of a tick for one port.
#[derive(Copy, Clone, Debug, PartialEq, Eq, Structural)]
pub struct PortTick {
    pub ui_state: UiPortState,
    pub connected: bool,
    pub vbus_mv: u32,
    pub current_ma: u32,
    pub desired_enabled: bool,
}

pub open spec fn sat_inc(v: u8) -> u8 {
    if v == 255 { 255 } else { (v + 1) as u8 }
}

/// Whether a port's module is read this tick: the port is allowed to run, is
/// not waiting out an over-current retry, and its module answered the scan.
pub open spec fn spec_wants_sample(c: PortConditions, s: PortOcpState) -> bool {
    c.manual_enabled && !c.switch_open && c.hub_allows && !(s.latched && !c.output_active)
        && c.module_ready
}

pub fn port_wants_sample(c: PortConditions, s: PortOcpState) -> (b: bool)
    ensures
        b == spec_wants_sample(c, s),
{
    c.manual_enabled && !c.switch_open && c.hub_allows && !(s.latched && !c.output_active)
        && c.module_ready
}

/// One tick of a port: ports switched off, held open or refused by the hub
/// stay off; a latched port waits four ticks off before it is retried; a
/// reading that trips over-current latches the port and turns it off; a
/// latched port that is being retried is released after four safe readings
/// in a row.
pub open spec fn spec_port_tick(c: PortConditions, s: PortOcpState, reading: Option<(u32, u32)>) -> (
    PortOcpState,
    PortTick,
) {
    let closed = PortTick {
        ui_state: UiPortState::Closed,
        connected: false,
        vbus_mv: 0,
        current_ma: 0,
        desired_enabled: false,
    };
    if !c.manual_enabled || c.switch_open || !c.hub_allows {
        (s, closed)
    } else if s.latched && !c.output_active {
        let wait = sat_inc(s.retry_wait);
        (
            PortOcpState { retry_wait: wait, ..s },
            PortTick {
                ui_state: UiPortState::Overcurrent,
                desired_enabled: wait >= PORT_OCP_RELEASE_SAFE_SAMPLES,
                ..closed
            },
        )
    } else if c.module_ready {
        match reading {
            None => (
                s,
                PortTick {
                    ui_state: if s.latched {
                        UiPortState::Overcurrent
                    } else {
                        UiPortState::Disconnected
                    },
                    desired_enabled: !s.latched,
                    ..closed
                },
            ),
            Some((v, i)) => {
                let (s2, probing) = if spec_port_overcurrent(v, i) != PortOcpDecision::Clear {
                    (PortOcpState { latched: true, safe_samples: 0, retry_wait: 0 }, false)
                } else if s.latched && c.output_active {
                    if spec_recovery_safe(v, i) {
                        let n = sat_inc(s.safe_samples);
                        if n >= PORT_OCP_RELEASE_SAFE_SAMPLES {
                            (PortOcpState { latched: false, safe_samples: 0, retry_wait: 0 }, false)
                        } else {
                            (PortOcpState { safe_samples: n, ..s }, true)
                        }
                    } else {
                        (PortOcpState { safe_samples: 0, ..s }, true)
                    }
                } else if s.latched {
                    (PortOcpState { safe_samples: 0, ..s }, false)
                } else {
                    (s, false)
                };
                (
                    s2,
                    PortTick {
                        ui_state: if s2.latched {
                            UiPortState::Overcurrent
                        } else {
                            UiPortState::Normal
                        },
                        connected: true,
                        vbus_mv: v,
                        current_ma: i,
                        desired_enabled: !s2.latched || probing,
                    },
                )
            },
        }
    } else {
        (
            s,
            PortTick {
                ui_state: if s.latched {
                    UiPortState::Overcurrent
                } else if c.scan_done {
                    UiPortState::Disconnected
                } else {
                    UiPortState::Initializing
                },
                desired_enabled: !s.latched,
                ..closed
            },
        )
    }
}

/// Runs one tick of a port's policy (see `spec_port_tick`); `reading` is the
/// module's voltage and current when it was read, none when it did not
/// answer or was not read.
pub fn port_tick(c: PortConditions, s: &mut PortOcpState, reading: Option<(u32, u32)>) -> (t: PortTick)
    ensures
        (*final(s), t) == spec_port_tick(c, *old(s), reading),
{
    let mut t = PortTick {
        ui_state: UiPortState::Closed,
        connected: false,
        vbus_mv: 0,
        current_ma: 0,
        desired_enabled: false,
    };
    if !c.manual_enabled || c.switch_open || !c.hub_allows {
        return t;
    }
    if s.latched && !c.output_active {
        s.retry_wait = if s.retry_wait == 255 {
            255
        } else {
            s.retry_wait + 1
        };
        t.ui_state = UiPortState::Overcurrent;
        t.desired_enabled = s.retry_wait >= PORT_OCP_RELEASE_SAFE_SAMPLES;
        return t;
    }
    let mut keep_probe = false;
    if c.module_ready {
        match reading {
            Some((v, i)) => {
                t.connected = true;
                t.vbus_mv = v;
                t.current_ma = i;
                let decision = port_overcurrent(v, i);
                if decision != PortOcpDecision::Clear {
                    s.latched = true;
                    s.safe_samples = 0;
                    s.retry_wait = 0;
                } else if s.latched && c.output_active {
                    keep_probe = true;
                    if port_ocp_recovery_safe(v, i) {
                        s.safe_samples = if s.safe_samples == 255 {
                            255
                        } else {
                            s.safe_samples + 1
                        };
                        if s.safe_samples >= PORT_OCP_RELEASE_SAFE_SAMPLES {
                            s.latched = false;
                            s.safe_samples = 0;
                            s.retry_wait = 0;
                            keep_probe = false;
                        }
                    } else {
                        s.safe_samples = 0;
                    }
                } else if s.latched {
                    s.safe_samples = 0;
                }
                t.ui_state = if s.latched {
                    UiPortState::Overcurrent
                } else {
                    UiPortState::Normal
                };
            },
            None => {
                t.connected = false;
                t.ui_state = UiPortState::Disconnected;
            },
        }
    } else if c.scan_done {
        t.ui_state = UiPortState::Disconnected;
    } else {
        t.ui_state = UiPortState::Initializing;
    }
    if s.latched {
        t.ui_state = UiPortState::Overcurrent;
    }
    t.desired_enabled = !s.latched || keep_probe;
    t
}

/// A port that is switched off, held open or refused by the hub is never
/// driven, and its over-current bookkeeping does not change.
pub proof fn lemma_closed_port_stays_off(c: PortConditions, s: PortOcpState, reading: Option<(u32, u32)>)
    requires
        !c.manual_enabled || c.switch_open || !c.hub_allows,
    ensures
        !spec_port_tick(c, s, reading).1.desired_enabled,
        spec_port_tick(c, s, reading).0 == s,
{
}

/// A reading that trips over-current latches the port and turns it off,
/// whatever its state before.
pub proof fn lemma_overcurrent_trips(c: PortConditions, s: PortOcpState, v: u32, i: u32)
    requires
        c.manual_enabled && !c.switch_open && c.hub_allows && c.module_ready,
        !(s.latched && !c.output_active),
        spec_port_overcurrent(v, i) != PortOcpDecision::Clear,
    ensures
        spec_port_tick(c, s, Some((v, i))).0.latched,
        !spec_port_tick(c, s, Some((v, i))).1.desired_enabled,
{
}

/// A latched port under retry is released only by its fourth safe reading
/// in a row: with fewer safe readings counted it stays latched (and keeps
/// being probed), an unsafe reading restarts the count.
pub proof fn lemma_release_needs_four_safe_readings(c: PortConditions, s: PortOcpState, v: u32, i: u32)
    requires
        c.manual_enabled && !c.switch_open && c.hub_allows && c.module_ready && c.output_active,
        s.latched,
        spec_port_overcurrent(v, i) == PortOcpDecision::Clear,
    ensures
        ({
            let (s2, t) = spec_port_tick(c, s, Some((v, i)));
            &&& !s2.latched <==> (spec_recovery_safe(v, i) && s.safe_samples >= 3)
            &&& s2.latched ==> t.desired_enabled && s2.safe_samples == if spec_recovery_safe(v, i) {
                (s.safe_samples + 1) as u8
            } else {
                0
            }
        }),
{
}

/// The over-current classes of a reading: more than 5.3 A is a high
/// current; otherwise more than 100 mA drawn from a bus below 3 V (down to
/// 0 V, a shorted output) is a low bus; anything else is clear.
pub proof fn lemma_overcurrent_thresholds(vbus_mv: u32, current_ma: u32)
    ensures
        current_ma > 5300 ==> spec_port_overcurrent(vbus_mv, current_ma) == PortOcpDecision::HighCurrent,
        current_ma <= 5300 && vbus_mv < 3000 && current_ma > 100 ==> spec_port_overcurrent(vbus_mv, current_ma)
            == PortOcpDecision::LowVbus,
        current_ma <= 5300 && (vbus_mv >= 3000 || current_ma <= 100) ==> spec_port_overcurrent(
            vbus_mv,
            current_ma,
        ) == PortOcpDecision::Clear,
{
}

/// A shorted or overloaded output is switched off: on a port that is
/// allowed to run and is read, a reading below 3 V that draws more than
/// 100 mA, or one that draws more than 5.3 A, latches the port, shows it as
/// over-current and stops driving it.
pub proof fn lemma_shorted_output_is_cut(c: PortConditions, s: PortOcpState, v: u32, i: u32)
    requires
        c.manual_enabled && !c.switch_open && c.hub_allows && c.module_ready,
        !(s.latched && !c.output_active),
        (v < 3000 && i > 100) || i > 5300,
    ensures
        spec_port_tick(c, s, Some((v, i))).0.latched,
        spec_port_tick(c, s, Some((v, i))).1.ui_state == UiPortState::Overcurrent,
        !spec_port_tick(c, s, Some((v, i))).1.desired_enabled,
{
}

/// Moves the selection or toggles the selected port's manual enable. Returns
/// whether the selected port's output must be driven off now.
pub fn handle_front_key_event(
    event: KeyEvent,
    selected_port: &mut usize,
    manual_enabled: &mut [bool; 4],
) -> (drive_off: bool)
    requires
        *old(selected_port) < 4,
    ensures
        *final(selected_port) < 4,
        match event {
            KeyEvent::Left => *final(selected_port) == (if *old(selected_port) == 0 {
                3
            } else {
                (*old(selected_port) - 1) as usize
            }) && *final(manual_enabled) == *old(manual_enabled) && !drive_off,
            KeyEvent::Right => *final(selected_port) == (*old(selected_port) + 1) % 4
                && *final(manual_enabled) == *old(manual_enabled) && !drive_off,
            KeyEvent::Center => {
                let i = *old(selected_port) as int;
                &&& *final(selected_port) == *old(selected_port)
                &&& final(manual_enabled)@ == old(manual_enabled)@.update(i, !old(manual_enabled)@[i])
                &&& drive_off == old(manual_enabled)@[i]
            },
        },
{
    match event {
        KeyEvent::Left => {
            *selected_port = if *selected_port == 0 {
                3
            } else {
                *selected_port - 1
            };
            false
        },
        KeyEvent::Right => {
            *selected_port = (*selected_port + 1) % 4;
            false
        },
        KeyEvent::Center => {
            let i = *selected_port;
            manual_enabled[i] = !manual_enabled[i];
            !manual_enabled[i]
        },
    }
}

/// Power of a reading, in milliwatts.
pub fn power_mw(vbus_mv: u32, current_ma: u32) -> (p: u32)
    ensures
        p == ((vbus_mv * current_ma) / 1000) as u32,
{
    assert((vbus_mv as u64) * (current_ma as u64) <= 0xffff_ffffu64 * 0xffff_ffffu64)
        by (nonlinear_arith)
        requires
            vbus_mv <= 0xffff_ffffu32,
            current_ma <= 0xffff_ffffu32,
    ;
    (((vbus_mv as u64) * (current_ma as u64)) / 1000) as u32
}

/// One port as the dashboard shows it.
#[derive(Copy, Clone, Debug, PartialEq, Eq, Structural)]
pub struct PortSample {
    pub connected: bool,
    pub selected: bool,
    pub vbus_mv: u32,
    pub ich_ma: u32,
    pub ui_state: UiPortState,
    pub pwren_enabled: bool,
    pub en_enabled: bool,
    pub ocp_latched: bool,
}

/// A port's dashboard entry after applying the selection and the switches:
/// selected or not, and closed with no reading when switched off or when the
/// input switch is held open.
pub open spec fn controlled_sample(a: PortSample, selected: bool, closed: bool) -> PortSample {
    if closed {
        PortSample {
            selected,
            connected: false,
            vbus_mv: 0,
            ich_ma: 0,
            ui_state: UiPortState::Closed,
            ..a
        }
    } else {
        PortSample { selected, ..a }
    }
}

pub fn apply_dashboard_control_state(
    samples: &mut [PortSample; 4],
    selected_port: usize,
    manual_enabled: [bool; 4],
    switch_open: bool,
)
    ensures
        forall|i: int|
            0 <= i < 4 ==> #[trigger] final(samples)@[i] == controlled_sample(
                old(samples)@[i],
                i == selected_port,
                !manual_enabled@[i] || switch_open,
            ),
{
    let ghost before = samples@;
    let mut idx: usize = 0;
    while idx < 4
        invariant
            0 <= idx <= 4,
            samples@.len() == 4,
            before.len() == 4,
            forall|i: int| idx <= i < 4 ==> #[trigger] samples@[i] == before[i],
            forall|i: int|
                0 <= i < idx ==> #[trigger] samples@[i] == controlled_sample(
                    before[i],
                    i == selected_port,
                    !manual_enabled@[i] || switch_open,
                ),
        decreases 4 - idx,
    {
        let mut sample = samples[idx];
        sample.selected = idx == selected_port;
        if !manual_enabled[idx] || switch_open {
            sample.connected = false;
            sample.vbus_mv = 0;
            sample.ich_ma = 0;
            sample.ui_state = UiPortState::Closed;
        }
        samples[idx] = sample;
        idx = idx + 1;
    }
}

/// What clearing a stuck I2C bus left: whether each line was released by
/// the clock pulses, and its level before and after.
#[derive(Copy, Clone, Debug, PartialEq, Eq, Structural)]
pub struct I2cRecoveryReport {
    pub sda_released: bool,
    pub scl_released: bool,
    pub sda_initial: bool,
    pub scl_initial: bool,
    pub sda_final: bool,
    pub scl_final: bool,
}

pub const FRONT_DIAG_FRONT_MASK: u8 = 1;

pub open spec fn spec_front_panel_failure_classification(report: I2cRecoveryReport, peer_mask: u8) -> Seq<char> {
    if !report.sda_final || !report.scl_final {
        "bus_stuck_after_clear"@
    } else if peer_mask & !FRONT_DIAG_FRONT_MASK != 0 {
        "front_tca_only_offline"@
    } else {
        "shared_i2c_offline_or_power"@
    }
}

/// Why the front panel did not answer: a line still held low after the bus
/// was cleared; or other devices answer (`peer_mask` beyond the panel's own
/// bit), so only the panel is missing; or nothing answers at all.
pub fn front_panel_failure_classification(report: I2cRecoveryReport, peer_mask: u8) -> (s: &'static str)
    ensures
        s@ == spec_front_panel_failure_classification(report, peer_mask),
{
    if !report.sda_final || !report.scl_final {
        "bus_stuck_after_clear"
    } else if (peer_mask & !FRONT_DIAG_FRONT_MASK) != 0 {
        "front_tca_only_offline"
    } else {
        "shared_i2c_offline_or_power"
    }
}

} // verus!
