//! The hardware snapshot: one JSON document with the state of every board
//! component, written as one stream of formatted pieces that stops at the
//! first piece that does not fit.
use vstd::prelude::*;
use crate::boot_diag::{
    fault_label, outcome_label, spec_fault_label, spec_outcome_label, spec_state_label,
    state_label, BootSelfCheckSnapshot, BootStage, SelfCheckItemState, SelfCheckSlot,
};
use crate::device_contract::{bool_str, bool_text};
use crate::device_identity::FIRMWARE_NAME;
use crate::front_panel::{is_low, key_low};
use crate::text::{
    dec_chars, decimal, extend, fits_after, hex_chars, hex_fixed, lemma_texts_append,
    lemma_write_fold_fits, str_eq, texts, write_fold, TextBuf,
};
use crate::{front_panel, hub_sideband};

verus! {

pub const SCHEMA_VERSION: u8 = 1;

/// How a component answered.
#[derive(Copy, Clone, Debug, PartialEq, Eq, Structural)]
pub enum NodeState {
    Online,
    Offline,
    Skipped,
    Fault,
}

impl NodeState {
    pub open spec fn spec_as_str(self) -> Seq<char> {
        match self {
            NodeState::Online => "online"@,
            NodeState::Offline => "offline"@,
            NodeState::Skipped => "skipped"@,
            NodeState::Fault => "error"@,
        }
    }

    pub fn as_str(self) -> (s: &'static str)
        ensures
            s@ == self.spec_as_str(),
    {
        match self {
            NodeState::Online => "online",
            NodeState::Offline => "offline",
            NodeState::Skipped => "skipped",
            NodeState::Fault => "error",
        }
    }

    /// Only an online component counts as present.
    pub fn present(self) -> (b: bool)
        ensures
            b == (self == NodeState::Online),
    {
        matches!(self, NodeState::Online)
    }
}

/// How a sensor was looked for at start-up.
#[derive(Copy, Clone, Debug, PartialEq, Eq)]
pub struct SensorProbe {
    pub present: bool,
    pub method: &'static str,
    pub tries: u8,
}

impl SensorProbe {
    /// Not looked for.
    pub fn skipped() -> (p: Self)
        ensures
            !p.present,
            p.method@ == "skipped"@,
            p.tries == 0,
    {
        SensorProbe { present: false, method: "skipped", tries: 0 }
    }
}

#[derive(Copy, Clone, Debug, PartialEq, Eq)]
pub struct PortProbe {
    pub ina226: SensorProbe,
    pub tmp112: SensorProbe,
}

impl PortProbe {
    /// Neither sensor looked for.
    pub fn skipped() -> (p: Self)
        ensures
            !p.ina226.present && p.ina226.method@ == "skipped"@ && p.ina226.tries == 0,
            !p.tmp112.present && p.tmp112.method@ == "skipped"@ && p.tmp112.tries == 0,
    {
        PortProbe { ina226: SensorProbe::skipped(), tmp112: SensorProbe::skipped() }
    }
}

/// The INA226 registers as last read.
#[derive(Copy, Clone, Debug, PartialEq, Eq, Structural)]
pub struct Ina226Registers {
    pub config: u16,
    pub shunt_voltage: u16,
    pub bus_voltage: u16,
    pub power: u16,
    pub current: u16,
    pub calibration: u16,
    pub mask_enable: u16,
    pub alert_limit: u16,
    pub manufacturer_id: u16,
    pub die_id: u16,
}

pub open spec fn ina226_registers_zero() -> Ina226Registers {
    Ina226Registers {
        config: 0,
        shunt_voltage: 0,
        bus_voltage: 0,
        power: 0,
        current: 0,
        calibration: 0,
        mask_enable: 0,
        alert_limit: 0,
        manufacturer_id: 0,
        die_id: 0,
    }
}

impl Ina226Registers {
    /// Every register zero.
    pub fn empty() -> (r: Self)
        ensures
            r == ina226_registers_zero(),
    {
        Ina226Registers {
            config: 0,
            shunt_voltage: 0,
            bus_voltage: 0,
            power: 0,
            current: 0,
            calibration: 0,
            mask_enable: 0,
            alert_limit: 0,
            manufacturer_id: 0,
            die_id: 0,
        }
    }
}

/// A port's current sensor at run time.
#[derive(Copy, Clone, Debug, PartialEq, Eq)]
pub struct Ina226Runtime {
    pub state: NodeState,
    pub reason: &'static str,
    pub bus_voltage_mv: u32,
    pub shunt_voltage_uv: i32,
    pub current_ma: u32,
    pub registers: Ina226Registers,
}

/// No reading and all registers zero, in the given state for the given reason.
pub open spec fn ina226_idle(r: Ina226Runtime, state: NodeState, reason: &str) -> bool {
    &&& r.state == state
    &&& r.reason@ == reason@
    &&& r.bus_voltage_mv == 0
    &&& r.shunt_voltage_uv == 0
    &&& r.current_ma == 0
    &&& r.registers == ina226_registers_zero()
}

impl Ina226Runtime {
    pub fn skipped(reason: &'static str) -> (r: Self)
        ensures
            ina226_idle(r, NodeState::Skipped, reason),
    {
        Ina226Runtime {
            state: NodeState::Skipped,
            reason,
            bus_voltage_mv: 0,
            shunt_voltage_uv: 0,
            current_ma: 0,
            registers: Ina226Registers::empty(),
        }
    }

    pub fn offline(reason: &'static str) -> (r: Self)
        ensures
            ina226_idle(r, NodeState::Offline, reason),
    {
        Ina226Runtime {
            state: NodeState::Offline,
            reason,
            bus_voltage_mv: 0,
            shunt_voltage_uv: 0,
            current_ma: 0,
            registers: Ina226Registers::empty(),
        }
    }
}

impl Default for Ina226Runtime {
    /// Skipped, because no sample was taken yet.
    fn default() -> (r: Self)
        ensures
            ina226_idle(r, NodeState::Skipped, "runtime_not_sampled"),
    {
        Ina226Runtime::skipped("runtime_not_sampled")
    }
}

/// The TMP112 registers as last read.
#[derive(Copy, Clone, Debug, PartialEq, Eq, Structural)]
pub struct Tmp112Registers {
    pub temperature: u16,
    pub config: u16,
    pub t_low: u16,
    pub t_high: u16,
}

pub open spec fn tmp112_registers_zero() -> Tmp112Registers {
    Tmp112Registers { temperature: 0, config: 0, t_low: 0, t_high: 0 }
}

impl Tmp112Registers {
    /// Every register zero.
    pub fn empty() -> (r: Self)
        ensures
            r == tmp112_registers_zero(),
    {
        Tmp112Registers { temperature: 0, config: 0, t_low: 0, t_high: 0 }
    }
}

/// A port's temperature sensor at run time.
#[derive(Copy, Clone, Debug, PartialEq, Eq)]
pub struct Tmp112Runtime {
    pub state: NodeState,
    pub reason: &'static str,
    pub temperature_milli_c: i32,
    pub registers: Tmp112Registers,
}

/// No reading and all registers zero, in the given state for the given reason.
pub open spec fn tmp112_idle(r: Tmp112Runtime, state: NodeState, reason: &str) -> bool {
    &&& r.state == state
    &&& r.reason@ == reason@
    &&& r.temperature_milli_c == 0
    &&& r.registers == tmp112_registers_zero()
}

impl Tmp112Runtime {
    pub fn skipped(reason: &'static str) -> (r: Self)
        ensures
            tmp112_idle(r, NodeState::Skipped, reason),
    {
        Tmp112Runtime {
            state: NodeState::Skipped,
            reason,
            temperature_milli_c: 0,
            registers: Tmp112Registers::empty(),
        }
    }

    pub fn offline(reason: &'static str) -> (r: Self)
        ensures
            tmp112_idle(r, NodeState::Offline, reason),
    {
        Tmp112Runtime {
            state: NodeState::Offline,
            reason,
            temperature_milli_c: 0,
            registers: Tmp112Registers::empty(),
        }
    }
}

impl Default for Tmp112Runtime {
    /// Skipped, because no sample was taken yet.
    fn default() -> (r: Self)
        ensures
            tmp112_idle(r, NodeState::Skipped, "runtime_not_sampled"),
    {
        Tmp112Runtime::skipped("runtime_not_sampled")
    }
}

#[derive(Copy, Clone, Debug, PartialEq, Eq)]
pub struct PortRuntime {
    pub ui_state: &'static str,
    pub scan_done: bool,
    pub ready: bool,
    pub sample_ok: bool,
    pub manual_enabled: bool,
    pub pwren_enabled: bool,
    pub en_enabled: bool,
    pub ocp_latched: bool,
    pub vbus_mv: u32,
    pub current_ma: u32,
    pub ina226: Ina226Runtime,
    pub tmp112: Tmp112Runtime,
}

#[derive(Copy, Clone, Debug, PartialEq, Eq)]
pub struct PowerInputSnapshot {
    pub present: bool,
    pub state: SelfCheckItemState,
    pub fault: &'static str,
    pub vin_mv: i32,
    pub pg_good: bool,
    pub ready: bool,
    pub target_closed: bool,
}

#[derive(Copy, Clone, Debug, PartialEq, Eq)]
pub struct I2cSnapshot {
    pub topology: &'static str,
    pub mux_state: NodeState,
    pub mux_address: u8,
    pub recovery_clocks: u8,
    pub reset_released_high: bool,
}

#[derive(Copy, Clone, Debug, PartialEq, Eq)]
pub struct FanSnapshot {
    pub state: NodeState,
    pub ready: bool,
    pub enabled: bool,
    pub tach_valid: bool,
    pub rpm: u32,
    pub target_rpm: u32,
    pub max_rpm: u32,
    pub speed_pct: u8,
    pub target_speed_pct: u8,
    pub hardware_pwm_duty_pct: u8,
    pub temperature_milli_c: i32,
    pub temperature_raw: u8,
    pub over_temp_alarm: bool,
}

#[derive(Copy, Clone, Debug, PartialEq, Eq)]
pub struct McuSnapshot {
    pub state: NodeState,
    pub internal_temperature_milli_c: i32,
    pub internal_temperature_raw: u8,
    pub over_temp_alarm: bool,
}

#[derive(Copy, Clone, Debug, PartialEq, Eq)]
pub struct BuzzerSnapshot {
    pub state: NodeState,
    pub driver_ready: bool,
    pub playing: bool,
    pub active_tone: &'static str,
    pub active_alarm: &'static str,
    pub frequency_hz: u16,
    pub duty_pct: u8,
}

/// The snapshot did not fit in the text it was written to.
#[derive(Copy, Clone, Debug, PartialEq, Eq, Structural)]
pub struct SnapshotOverflow;

// ---------------------------------------------------------------------------
// Formatted pieces. A signed number is written as its sign (empty when not
// negative) and its magnitude; a zero-padded hexadecimal field as one piece
// per possible pad digit (empty where no pad is due) and its digits. Empty
// pieces change nothing, so the stream is exactly that of the formatter.

pub open spec fn sign_text(v: int) -> Seq<char> {
    if v < 0 {
        "-"@
    } else {
        ""@
    }
}

pub open spec fn magnitude_text(v: int) -> Seq<char> {
    if v < 0 {
        dec_chars((-v) as nat)
    } else {
        dec_chars(v as nat)
    }
}

/// Number of hexadecimal digits of a 16-bit value.
pub open spec fn hex_len(v: nat) -> nat {
    if v < 0x10 {
        1
    } else if v < 0x100 {
        2
    } else if v < 0x1000 {
        3
    } else {
        4
    }
}

/// Upper-case hexadecimal digits of a 16-bit value, without leading zeros.
pub open spec fn hex_text(v: nat) -> Seq<char> {
    hex_chars(v, hex_len(v), true)
}

/// A pad digit, due when `v` is below `limit`.
pub open spec fn zero_pad(v: nat, limit: nat) -> Seq<char> {
    if v < limit {
        "0"@
    } else {
        ""@
    }
}

fn sign_str(v: i32) -> (s: &'static str)
    ensures
        s@ == sign_text(v as int),
{
    if v < 0 {
        "-"
    } else {
        ""
    }
}

fn magnitude_string(v: i32) -> (s: String)
    ensures
        s@ == magnitude_text(v as int),
{
    if v < 0 {
        let m: i64 = v as i64;
        decimal((-m) as u64)
    } else {
        decimal(v as u64)
    }
}

fn pad_str(v: u16, limit: u16) -> (s: &'static str)
    ensures
        s@ == zero_pad(v as nat, limit as nat),
{
    if v < limit {
        "0"
    } else {
        ""
    }
}

fn hex_string(v: u16) -> (s: String)
    ensures
        s@ == hex_text(v as nat),
{
    let width: u8 = if v < 0x10 {
        1
    } else if v < 0x100 {
        2
    } else if v < 0x1000 {
        3
    } else {
        4
    };
    hex_fixed(v as u64, width, true)
}

} // verus!

verus! {

// ---------------------------------------------------------------------------
// The sections of the snapshot, each as the pieces its formatted writes emit.

pub open spec fn header_pieces(
    version: Seq<char>,
    sequence: u32,
    uptime_ms: u64,
    reset_reason: Seq<char>,
) -> Seq<Seq<char>> {
    seq![
        "{\"schema\":\"isolarail.hardware.snapshot.v"@,
        dec_chars(SCHEMA_VERSION as nat),
        "\",\"packages\":[\"identity\",\"boot\",\"power\",\"i2c\",\"sideband\",\"front_panel\",\"mcu\",\"fan\",\"buzzer\",\"ports\",\"controls\",\"sensors\",\"registers\"],\"sequence\":"@,
        dec_chars(sequence as nat),
        ",\"uptime_ms\":"@,
        dec_chars(uptime_ms as nat),
        ",\"firmware\":{\"name\":\""@,
        FIRMWARE_NAME@,
        "\",\"version\":\""@,
        version,
        "\",\"target\":\"esp32s3\"},\"reset_reason\":\""@,
        reset_reason,
        "\","@,
    ]
}

fn header_strings(version: &str, sequence: u32, uptime_ms: u64, reset_reason: &str) -> (v: Vec<String>)
    ensures
        texts(v@) == header_pieces(version@, sequence, uptime_ms, reset_reason@),
{
    let v = vec![
        "{\"schema\":\"isolarail.hardware.snapshot.v".to_owned(),
        decimal(SCHEMA_VERSION as u64),
        "\",\"packages\":[\"identity\",\"boot\",\"power\",\"i2c\",\"sideband\",\"front_panel\",\"mcu\",\"fan\",\"buzzer\",\"ports\",\"controls\",\"sensors\",\"registers\"],\"sequence\":".to_owned(),
        decimal(sequence as u64),
        ",\"uptime_ms\":".to_owned(),
        decimal(uptime_ms as u64),
        ",\"firmware\":{\"name\":\"".to_owned(),
        FIRMWARE_NAME.to_owned(),
        "\",\"version\":\"".to_owned(),
        version.to_owned(),
        "\",\"target\":\"esp32s3\"},\"reset_reason\":\"".to_owned(),
        reset_reason.to_owned(),
        "\",".to_owned(),
    ];
    assert(texts(v@) =~= header_pieces(version@, sequence, uptime_ms, reset_reason@));
    v
}

pub open spec fn boot_stage_text(stage: BootStage) -> Seq<char> {
    match stage {
        BootStage::EarlyBringUp => "early_bring_up"@,
        BootStage::SelfCheck => "self_check"@,
        BootStage::GateApply => "gate_apply"@,
        BootStage::Runtime => "runtime"@,
    }
}

fn boot_stage_label(stage: BootStage) -> (s: &'static str)
    ensures
        s@ == boot_stage_text(stage),
{
    match stage {
        BootStage::EarlyBringUp => "early_bring_up",
        BootStage::SelfCheck => "self_check",
        BootStage::GateApply => "gate_apply",
        BootStage::Runtime => "runtime",
    }
}

/// The names of the system checks, in slot order.
pub open spec fn sys_check_name(i: int) -> Seq<char> {
    if i == 0 {
        "vin"@
    } else if i == 1 {
        "mux"@
    } else if i == 2 {
        "front_panel"@
    } else {
        "fan"@
    }
}

fn sys_check_str(i: usize) -> (s: &'static str)
    ensures
        s@ == sys_check_name(i as int),
{
    if i == 0 {
        "vin"
    } else if i == 1 {
        "mux"
    } else if i == 2 {
        "front_panel"
    } else {
        "fan"
    }
}

/// One system check, preceded by a comma after the first.
pub open spec fn boot_check_pieces(i: int, slot: SelfCheckSlot) -> Seq<Seq<char>> {
    (if i == 0 {
        Seq::empty()
    } else {
        seq![","@]
    }) + seq![
        "\""@,
        sys_check_name(i),
        "\":{\"state\":\""@,
        spec_state_label(slot.state),
        "\",\"fault\":\""@,
        spec_fault_label(slot.fault),
        "\"}"@,
    ]
}

/// The first `k` system checks.
pub open spec fn boot_checks(boot: BootSelfCheckSnapshot, k: nat) -> Seq<Seq<char>>
    decreases k,
{
    if k == 0 {
        Seq::empty()
    } else {
        boot_checks(boot, (k - 1) as nat) + boot_check_pieces(k - 1, boot.sys@[k - 1])
    }
}

pub open spec fn boot_pieces(boot: BootSelfCheckSnapshot) -> Seq<Seq<char>> {
    seq![
        "\"boot\":{\"stage\":\""@,
        boot_stage_text(boot.stage),
        "\",\"outcome\":\""@,
        spec_outcome_label(boot.outcome),
        "\",\"first_fault\":\""@,
        spec_fault_label(boot.first_fault),
        "\",\"gates\":{\"runtime\":"@,
        bool_text(boot.gates.allow_runtime_tasks),
        ",\"front_panel\":"@,
        bool_text(boot.gates.allow_front_panel),
        ",\"keep_input_switch_open\":"@,
        bool_text(boot.gates.keep_input_switch_open),
        ",\"show_sticky_self_check\":"@,
        bool_text(boot.gates.show_sticky_self_check),
        "},\"checks\":{"@,
    ] + boot_checks(boot, 4) + seq!["}},"@]
}

fn boot_check_strings(i: usize, slot: SelfCheckSlot) -> (v: Vec<String>)
    ensures
        texts(v@) == boot_check_pieces(i as int, slot),
{
    let mut v: Vec<String> = Vec::new();
    if i != 0 {
        v.push(",".to_owned());
    }
    let mut rest = vec![
        "\"".to_owned(),
        sys_check_str(i).to_owned(),
        "\":{\"state\":\"".to_owned(),
        state_label(slot.state).to_owned(),
        "\",\"fault\":\"".to_owned(),
        fault_label(slot.fault).to_owned(),
        "\"}".to_owned(),
    ];
    proof {
        lemma_texts_append(v@, rest@);
    }
    v.append(&mut rest);
    v
}

fn boot_strings(boot: &BootSelfCheckSnapshot) -> (v: Vec<String>)
    ensures
        texts(v@) == boot_pieces(*boot),
{
    let mut v = vec![
        "\"boot\":{\"stage\":\"".to_owned(),
        boot_stage_label(boot.stage).to_owned(),
        "\",\"outcome\":\"".to_owned(),
        outcome_label(boot.outcome).to_owned(),
        "\",\"first_fault\":\"".to_owned(),
        fault_label(boot.first_fault).to_owned(),
        "\",\"gates\":{\"runtime\":".to_owned(),
        bool_str(boot.gates.allow_runtime_tasks).to_owned(),
        ",\"front_panel\":".to_owned(),
        bool_str(boot.gates.allow_front_panel).to_owned(),
        ",\"keep_input_switch_open\":".to_owned(),
        bool_str(boot.gates.keep_input_switch_open).to_owned(),
        ",\"show_sticky_self_check\":".to_owned(),
        bool_str(boot.gates.show_sticky_self_check).to_owned(),
        "},\"checks\":{".to_owned(),
    ];
    let ghost head = texts(v@);
    assert(head =~= seq![
        "\"boot\":{\"stage\":\""@,
        boot_stage_text(boot.stage),
        "\",\"outcome\":\""@,
        spec_outcome_label(boot.outcome),
        "\",\"first_fault\":\""@,
        spec_fault_label(boot.first_fault),
        "\",\"gates\":{\"runtime\":"@,
        bool_text(boot.gates.allow_runtime_tasks),
        ",\"front_panel\":"@,
        bool_text(boot.gates.allow_front_panel),
        ",\"keep_input_switch_open\":"@,
        bool_text(boot.gates.keep_input_switch_open),
        ",\"show_sticky_self_check\":"@,
        bool_text(boot.gates.show_sticky_self_check),
        "},\"checks\":{"@,
    ]);
    let mut i: usize = 0;
    while i < 4
        invariant
            0 <= i <= 4,
            head == seq![
                "\"boot\":{\"stage\":\""@,
                boot_stage_text(boot.stage),
                "\",\"outcome\":\""@,
                spec_outcome_label(boot.outcome),
                "\",\"first_fault\":\""@,
                spec_fault_label(boot.first_fault),
                "\",\"gates\":{\"runtime\":"@,
                bool_text(boot.gates.allow_runtime_tasks),
                ",\"front_panel\":"@,
                bool_text(boot.gates.allow_front_panel),
                ",\"keep_input_switch_open\":"@,
                bool_text(boot.gates.keep_input_switch_open),
                ",\"show_sticky_self_check\":"@,
                bool_text(boot.gates.show_sticky_self_check),
                "},\"checks\":{"@,
            ],
            texts(v@) == head + boot_checks(*boot, i as nat),
        decreases 4 - i,
    {
        let part = boot_check_strings(i, boot.sys[i]);
        extend(&mut v, part);
        proof {
            vstd::seq_lib::lemma_concat_associative(
                head,
                boot_checks(*boot, i as nat),
                boot_check_pieces(i as int, boot.sys@[i as int]),
            );
        }
        i = i + 1;
    }
    extend(&mut v, vec!["}},".to_owned()]);
    v
}

pub open spec fn target_text(closed: bool) -> Seq<char> {
    if closed {
        "closed"@
    } else {
        "open"@
    }
}

fn target_str(closed: bool) -> (s: &'static str)
    ensures
        s@ == target_text(closed),
{
    if closed {
        "closed"
    } else {
        "open"
    }
}

pub open spec fn power_pieces(power: PowerInputSnapshot) -> Seq<Seq<char>> {
    seq![
        "\"power_input\":{\"present\":"@,
        bool_text(power.present),
        ",\"state\":\""@,
        spec_state_label(power.state),
        "\",\"fault\":\""@,
        power.fault@,
        "\",\"ina226\":{\"address\":\"0x44\"},\"vin_mv\":"@,
        sign_text(power.vin_mv as int),
        magnitude_text(power.vin_mv as int),
        ",\"pg_good\":"@,
        bool_text(power.pg_good),
        ",\"ready\":"@,
        bool_text(power.ready),
        ",\"target\":\""@,
        target_text(power.target_closed),
        "\"},"@,
    ]
}

fn power_strings(power: PowerInputSnapshot) -> (v: Vec<String>)
    ensures
        texts(v@) == power_pieces(power),
{
    let v = vec![
        "\"power_input\":{\"present\":".to_owned(),
        bool_str(power.present).to_owned(),
        ",\"state\":\"".to_owned(),
        state_label(power.state).to_owned(),
        "\",\"fault\":\"".to_owned(),
        power.fault.to_owned(),
        "\",\"ina226\":{\"address\":\"0x44\"},\"vin_mv\":".to_owned(),
        sign_str(power.vin_mv).to_owned(),
        magnitude_string(power.vin_mv),
        ",\"pg_good\":".to_owned(),
        bool_str(power.pg_good).to_owned(),
        ",\"ready\":".to_owned(),
        bool_str(power.ready).to_owned(),
        ",\"target\":\"".to_owned(),
        target_str(power.target_closed).to_owned(),
        "\"},".to_owned(),
    ];
    assert(texts(v@) =~= power_pieces(power));
    v
}

pub open spec fn i2c_pieces(i2c: I2cSnapshot) -> Seq<Seq<char>> {
    seq![
        "\"i2c\":{\"topology\":\""@,
        i2c.topology@,
        "\",\"mux\":{\"present\":"@,
        bool_text(i2c.mux_state == NodeState::Online),
        ",\"state\":\""@,
        i2c.mux_state.spec_as_str(),
        "\",\"address\":\"0x"@,
        zero_pad(i2c.mux_address as nat, 0x10),
        hex_text(i2c.mux_address as nat),
        "\"},\"recovery\":{\"clocks\":"@,
        dec_chars(i2c.recovery_clocks as nat),
        ",\"reset_released_high\":"@,
        bool_text(i2c.reset_released_high),
        "}},"@,
    ]
}

fn i2c_strings(i2c: I2cSnapshot) -> (v: Vec<String>)
    ensures
        texts(v@) == i2c_pieces(i2c),
{
    let v = vec![
        "\"i2c\":{\"topology\":\"".to_owned(),
        i2c.topology.to_owned(),
        "\",\"mux\":{\"present\":".to_owned(),
        bool_str(i2c.mux_state.present()).to_owned(),
        ",\"state\":\"".to_owned(),
        i2c.mux_state.as_str().to_owned(),
        "\",\"address\":\"0x".to_owned(),
        pad_str(i2c.mux_address as u16, 0x10).to_owned(),
        hex_string(i2c.mux_address as u16),
        "\"},\"recovery\":{\"clocks\":".to_owned(),
        decimal(i2c.recovery_clocks as u64),
        ",\"reset_released_high\":".to_owned(),
        bool_str(i2c.reset_released_high).to_owned(),
        "}},".to_owned(),
    ];
    assert(texts(v@) =~= i2c_pieces(i2c));
    v
}

/// Why the sideband expander is absent.
pub open spec fn sideband_reason(state: NodeState) -> Seq<char> {
    match state {
        NodeState::Skipped => "vin_not_ready"@,
        NodeState::Fault => "runtime_read_failed"@,
        _ => "no_ack_or_not_populated"@,
    }
}

fn sideband_reason_str(state: NodeState) -> (s: &'static str)
    ensures
        s@ == sideband_reason(state),
{
    match state {
        NodeState::Skipped => "vin_not_ready",
        NodeState::Fault => "runtime_read_failed",
        _ => "no_ack_or_not_populated",
    }
}

/// The sideband expander; its state is the given one whether or not it answered.
pub open spec fn sideband_pieces(sideband: Option<hub_sideband::Snapshot>, state: NodeState) -> Seq<Seq<char>> {
    match sideband {
        Some(s) => seq![
            "\"sideband\":{\"present\":true,\"state\":\""@,
            state.spec_as_str(),
            "\",\"device\":\"TCA6408A\",\"address\":\"0x"@,
            zero_pad(hub_sideband::TCA6408_ADDR as nat, 0x10),
            hex_text(hub_sideband::TCA6408_ADDR as nat),
            "\",\"registers\":{\"input\":\"0x"@,
            zero_pad(s.input as nat, 0x10),
            hex_text(s.input as nat),
            "\",\"output\":\"0x"@,
            zero_pad(s.output as nat, 0x10),
            hex_text(s.output as nat),
            "\",\"polarity\":\"0x"@,
            zero_pad(s.polarity as nat, 0x10),
            hex_text(s.polarity as nat),
            "\",\"config\":\"0x"@,
            zero_pad(s.config as nat, 0x10),
            hex_text(s.config as nat),
            "\"},\"pwren_enabled\":["@,
            bool_text(s.pwren_enabled@[0]),
            ","@,
            bool_text(s.pwren_enabled@[1]),
            ","@,
            bool_text(s.pwren_enabled@[2]),
            ","@,
            bool_text(s.pwren_enabled@[3]),
            "],\"ovcur_asserted\":["@,
            bool_text(s.ovcur_asserted@[0]),
            ","@,
            bool_text(s.ovcur_asserted@[1]),
            ","@,
            bool_text(s.ovcur_asserted@[2]),
            ","@,
            bool_text(s.ovcur_asserted@[3]),
            "]},"@,
        ],
        None => seq![
            "\"sideband\":{\"present\":false,\"state\":\""@,
            state.spec_as_str(),
            "\",\"device\":\"TCA6408A\",\"address\":\"0x"@,
            zero_pad(hub_sideband::TCA6408_ADDR as nat, 0x10),
            hex_text(hub_sideband::TCA6408_ADDR as nat),
            "\",\"reason\":\""@,
            sideband_reason(state),
            "\"},"@,
        ],
    }
}

fn sideband_strings(sideband: Option<hub_sideband::Snapshot>, state: NodeState) -> (v: Vec<String>)
    ensures
        texts(v@) == sideband_pieces(sideband, state),
{
    match sideband {
        Some(s) => {
            let v = vec![
                "\"sideband\":{\"present\":true,\"state\":\"".to_owned(),
                state.as_str().to_owned(),
                "\",\"device\":\"TCA6408A\",\"address\":\"0x".to_owned(),
                pad_str(hub_sideband::TCA6408_ADDR as u16, 0x10).to_owned(),
                hex_string(hub_sideband::TCA6408_ADDR as u16),
                "\",\"registers\":{\"input\":\"0x".to_owned(),
                pad_str(s.input as u16, 0x10).to_owned(),
                hex_string(s.input as u16),
                "\",\"output\":\"0x".to_owned(),
                pad_str(s.output as u16, 0x10).to_owned(),
                hex_string(s.output as u16),
                "\",\"polarity\":\"0x".to_owned(),
                pad_str(s.polarity as u16, 0x10).to_owned(),
                hex_string(s.polarity as u16),
                "\",\"config\":\"0x".to_owned(),
                pad_str(s.config as u16, 0x10).to_owned(),
                hex_string(s.config as u16),
                "\"},\"pwren_enabled\":[".to_owned(),
                bool_str(s.pwren_enabled[0]).to_owned(),
                ",".to_owned(),
                bool_str(s.pwren_enabled[1]).to_owned(),
                ",".to_owned(),
                bool_str(s.pwren_enabled[2]).to_owned(),
                ",".to_owned(),
                bool_str(s.pwren_enabled[3]).to_owned(),
                "],\"ovcur_asserted\":[".to_owned(),
                bool_str(s.ovcur_asserted[0]).to_owned(),
                ",".to_owned(),
                bool_str(s.ovcur_asserted[1]).to_owned(),
                ",".to_owned(),
                bool_str(s.ovcur_asserted[2]).to_owned(),
                ",".to_owned(),
                bool_str(s.ovcur_asserted[3]).to_owned(),
                "]},".to_owned(),
            ];
            assert(texts(v@) =~= sideband_pieces(sideband, state));
            v
        },
        None => {
            let v = vec![
                "\"sideband\":{\"present\":false,\"state\":\"".to_owned(),
                state.as_str().to_owned(),
                "\",\"device\":\"TCA6408A\",\"address\":\"0x".to_owned(),
                pad_str(hub_sideband::TCA6408_ADDR as u16, 0x10).to_owned(),
                hex_string(hub_sideband::TCA6408_ADDR as u16),
                "\",\"reason\":\"".to_owned(),
                sideband_reason_str(state).to_owned(),
                "\"},".to_owned(),
            ];
            assert(texts(v@) =~= sideband_pieces(sideband, state));
            v
        },
    }
}

/// The state reported for an absent front panel: an online request that
/// gave no snapshot is an error.
pub open spec fn front_offline_state(state: NodeState) -> NodeState {
    match state {
        NodeState::Online => NodeState::Fault,
        other => other,
    }
}

fn front_offline_state_of(state: NodeState) -> (s: NodeState)
    ensures
        s == front_offline_state(state),
{
    match state {
        NodeState::Online => NodeState::Fault,
        other => other,
    }
}

/// Why the front panel is absent.
pub open spec fn front_reason(state: NodeState) -> Seq<char> {
    match state {
        NodeState::Skipped => "vin_not_ready"@,
        NodeState::Online | NodeState::Fault => "runtime_read_failed"@,
        NodeState::Offline => "no_ack_or_not_populated"@,
    }
}

fn front_reason_str(state: NodeState) -> (s: &'static str)
    ensures
        s@ == front_reason(state),
{
    match state {
        NodeState::Skipped => "vin_not_ready",
        NodeState::Online | NodeState::Fault => "runtime_read_failed",
        NodeState::Offline => "no_ack_or_not_populated",
    }
}

pub open spec fn front_panel_pieces(front: Option<front_panel::Snapshot>, state: NodeState) -> Seq<Seq<char>> {
    match front {
        Some(s) => seq![
            "\"front_panel\":{\"present\":true,\"state\":\"online\",\"device\":\"TCA6408A\",\"address\":\"0x21\",\"registers\":{\"input\":\"0x"@,
            zero_pad(s.input as nat, 0x10),
            hex_text(s.input as nat),
            "\",\"output\":\"0x"@,
            zero_pad(s.output as nat, 0x10),
            hex_text(s.output as nat),
            "\",\"polarity\":\"0x"@,
            zero_pad(s.polarity as nat, 0x10),
            hex_text(s.polarity as nat),
            "\",\"config\":\"0x"@,
            zero_pad(s.config as nat, 0x10),
            hex_text(s.config as nat),
            "\"},\"keys\":{\"center\":"@,
            bool_text(key_low(s.input, 0)),
            ",\"right\":"@,
            bool_text(key_low(s.input, 1)),
            ",\"down\":"@,
            bool_text(key_low(s.input, 2)),
            ",\"left\":"@,
            bool_text(key_low(s.input, 3)),
            ",\"up\":"@,
            bool_text(key_low(s.input, 4)),
            "}},"@,
        ],
        None => seq![
            "\"front_panel\":{\"present\":false,\"state\":\""@,
            front_offline_state(state).spec_as_str(),
            "\",\"device\":\"TCA6408A\",\"address\":\"0x21\",\"reason\":\""@,
            front_reason(state),
            "\"},"@,
        ],
    }
}

fn front_panel_strings(front: Option<front_panel::Snapshot>, state: NodeState) -> (v: Vec<String>)
    ensures
        texts(v@) == front_panel_pieces(front, state),
{
    match front {
        Some(s) => {
            let v = vec![
                "\"front_panel\":{\"present\":true,\"state\":\"online\",\"device\":\"TCA6408A\",\"address\":\"0x21\",\"registers\":{\"input\":\"0x".to_owned(),
                pad_str(s.input as u16, 0x10).to_owned(),
                hex_string(s.input as u16),
                "\",\"output\":\"0x".to_owned(),
                pad_str(s.output as u16, 0x10).to_owned(),
                hex_string(s.output as u16),
                "\",\"polarity\":\"0x".to_owned(),
                pad_str(s.polarity as u16, 0x10).to_owned(),
                hex_string(s.polarity as u16),
                "\",\"config\":\"0x".to_owned(),
                pad_str(s.config as u16, 0x10).to_owned(),
                hex_string(s.config as u16),
                "\"},\"keys\":{\"center\":".to_owned(),
                bool_str(is_low(s.input, 0)).to_owned(),
                ",\"right\":".to_owned(),
                bool_str(is_low(s.input, 1)).to_owned(),
                ",\"down\":".to_owned(),
                bool_str(is_low(s.input, 2)).to_owned(),
                ",\"left\":".to_owned(),
                bool_str(is_low(s.input, 3)).to_owned(),
                ",\"up\":".to_owned(),
                bool_str(is_low(s.input, 4)).to_owned(),
                "}},".to_owned(),
            ];
            assert(texts(v@) =~= front_panel_pieces(front, state));
            v
        },
        None => {
            let shown = front_offline_state_of(state);
            let v = vec![
                "\"front_panel\":{\"present\":false,\"state\":\"".to_owned(),
                shown.as_str().to_owned(),
                "\",\"device\":\"TCA6408A\",\"address\":\"0x21\",\"reason\":\"".to_owned(),
                front_reason_str(state).to_owned(),
                "\"},".to_owned(),
            ];
            assert(texts(v@) =~= front_panel_pieces(front, state));
            v
        },
    }
}

pub open spec fn mcu_pieces(mcu: McuSnapshot) -> Seq<Seq<char>> {
    seq![
        "\"mcu\":{\"present\":"@,
        bool_text(mcu.state == NodeState::Online),
        ",\"state\":\""@,
        mcu.state.spec_as_str(),
        "\",\"internal_temperature\":{\"milli_c\":"@,
        sign_text(mcu.internal_temperature_milli_c as int),
        magnitude_text(mcu.internal_temperature_milli_c as int),
        ",\"raw\":"@,
        dec_chars(mcu.internal_temperature_raw as nat),
        "},\"over_temp_alarm\":"@,
        bool_text(mcu.over_temp_alarm),
        "},"@,
    ]
}

fn mcu_strings(mcu: McuSnapshot) -> (v: Vec<String>)
    ensures
        texts(v@) == mcu_pieces(mcu),
{
    let v = vec![
        "\"mcu\":{\"present\":".to_owned(),
        bool_str(mcu.state.present()).to_owned(),
        ",\"state\":\"".to_owned(),
        mcu.state.as_str().to_owned(),
        "\",\"internal_temperature\":{\"milli_c\":".to_owned(),
        sign_str(mcu.internal_temperature_milli_c).to_owned(),
        magnitude_string(mcu.internal_temperature_milli_c),
        ",\"raw\":".to_owned(),
        decimal(mcu.internal_temperature_raw as u64),
        "},\"over_temp_alarm\":".to_owned(),
        bool_str(mcu.over_temp_alarm).to_owned(),
        "},".to_owned(),
    ];
    assert(texts(v@) =~= mcu_pieces(mcu));
    v
}

pub open spec fn fan_pieces(fan: FanSnapshot) -> Seq<Seq<char>> {
    seq![
        "\"fan\":{\"present\":"@,
        bool_text(fan.state == NodeState::Online),
        ",\"state\":\""@,
        fan.state.spec_as_str(),
        "\",\"ready\":"@,
        bool_text(fan.ready),
        ",\"enabled\":"@,
        bool_text(fan.enabled),
        ",\"tach_valid\":"@,
        bool_text(fan.tach_valid),
        ",\"rpm\":"@,
        dec_chars(fan.rpm as nat),
        ",\"target_rpm\":"@,
        dec_chars(fan.target_rpm as nat),
        ",\"max_rpm\":"@,
        dec_chars(fan.max_rpm as nat),
        ",\"speed_pct\":"@,
        dec_chars(fan.speed_pct as nat),
        ",\"target_speed_pct\":"@,
        dec_chars(fan.target_speed_pct as nat),
        ",\"hardware_pwm_duty_pct\":"@,
        dec_chars(fan.hardware_pwm_duty_pct as nat),
        ",\"temperature\":{\"milli_c\":"@,
        sign_text(fan.temperature_milli_c as int),
        magnitude_text(fan.temperature_milli_c as int),
        ",\"raw\":"@,
        dec_chars(fan.temperature_raw as nat),
        "},\"over_temp_alarm\":"@,
        bool_text(fan.over_temp_alarm),
        "},"@,
    ]
}

fn fan_strings(fan: FanSnapshot) -> (v: Vec<String>)
    ensures
        texts(v@) == fan_pieces(fan),
{
    let v = vec![
        "\"fan\":{\"present\":".to_owned(),
        bool_str(fan.state.present()).to_owned(),
        ",\"state\":\"".to_owned(),
        fan.state.as_str().to_owned(),
        "\",\"ready\":".to_owned(),
        bool_str(fan.ready).to_owned(),
        ",\"enabled\":".to_owned(),
        bool_str(fan.enabled).to_owned(),
        ",\"tach_valid\":".to_owned(),
        bool_str(fan.tach_valid).to_owned(),
        ",\"rpm\":".to_owned(),
        decimal(fan.rpm as u64),
        ",\"target_rpm\":".to_owned(),
        decimal(fan.target_rpm as u64),
        ",\"max_rpm\":".to_owned(),
        decimal(fan.max_rpm as u64),
        ",\"speed_pct\":".to_owned(),
        decimal(fan.speed_pct as u64),
        ",\"target_speed_pct\":".to_owned(),
        decimal(fan.target_speed_pct as u64),
        ",\"hardware_pwm_duty_pct\":".to_owned(),
        decimal(fan.hardware_pwm_duty_pct as u64),
        ",\"temperature\":{\"milli_c\":".to_owned(),
        sign_str(fan.temperature_milli_c).to_owned(),
        magnitude_string(fan.temperature_milli_c),
        ",\"raw\":".to_owned(),
        decimal(fan.temperature_raw as u64),
        "},\"over_temp_alarm\":".to_owned(),
        bool_str(fan.over_temp_alarm).to_owned(),
        "},".to_owned(),
    ];
    assert(texts(v@) =~= fan_pieces(fan));
    v
}

pub open spec fn buzzer_pieces(buzzer: BuzzerSnapshot) -> Seq<Seq<char>> {
    seq![
        "\"buzzer\":{\"present\":"@,
        bool_text(buzzer.state == NodeState::Online),
        ",\"state\":\""@,
        buzzer.state.spec_as_str(),
        "\",\"driver\":\"ledc\",\"timer\":1,\"channel\":1,\"gpio\":\"GPIO7\",\"driver_ready\":"@,
        bool_text(buzzer.driver_ready),
        ",\"playing\":"@,
        bool_text(buzzer.playing),
        ",\"active_tone\":\""@,
        buzzer.active_tone@,
        "\",\"active_alarm\":\""@,
        buzzer.active_alarm@,
        "\",\"frequency_hz\":"@,
        dec_chars(buzzer.frequency_hz as nat),
        ",\"duty_pct\":"@,
        dec_chars(buzzer.duty_pct as nat),
        "},"@,
    ]
}

fn buzzer_strings(buzzer: BuzzerSnapshot) -> (v: Vec<String>)
    ensures
        texts(v@) == buzzer_pieces(buzzer),
{
    let v = vec![
        "\"buzzer\":{\"present\":".to_owned(),
        bool_str(buzzer.state.present()).to_owned(),
        ",\"state\":\"".to_owned(),
        buzzer.state.as_str().to_owned(),
        "\",\"driver\":\"ledc\",\"timer\":1,\"channel\":1,\"gpio\":\"GPIO7\",\"driver_ready\":".to_owned(),
        bool_str(buzzer.driver_ready).to_owned(),
        ",\"playing\":".to_owned(),
        bool_str(buzzer.playing).to_owned(),
        ",\"active_tone\":\"".to_owned(),
        buzzer.active_tone.to_owned(),
        "\",\"active_alarm\":\"".to_owned(),
        buzzer.active_alarm.to_owned(),
        "\",\"frequency_hz\":".to_owned(),
        decimal(buzzer.frequency_hz as u64),
        ",\"duty_pct\":".to_owned(),
        decimal(buzzer.duty_pct as u64),
        "},".to_owned(),
    ];
    assert(texts(v@) =~= buzzer_pieces(buzzer));
    v
}

} // verus!


verus! {

/// The state a port is reported in: skipped before its scan or when its
/// screen shows it skipped; once ready, by whether its last sample worked;
/// otherwise by which of its two sensors answered the probe.
pub open spec fn port_state(p: PortRuntime, probe: PortProbe) -> NodeState {
    if !p.scan_done || p.ui_state@ == "skipped"@ {
        NodeState::Skipped
    } else if p.ready {
        if p.sample_ok {
            NodeState::Online
        } else {
            NodeState::Fault
        }
    } else if probe.ina226.present && probe.tmp112.present {
        NodeState::Online
    } else if probe.ina226.present || probe.tmp112.present {
        NodeState::Fault
    } else {
        NodeState::Offline
    }
}

fn port_state_of(p: PortRuntime, probe: PortProbe) -> (s: NodeState)
    ensures
        s == port_state(p, probe),
{
    if !p.scan_done || str_eq(p.ui_state, "skipped") {
        NodeState::Skipped
    } else if p.ready {
        if p.sample_ok {
            NodeState::Online
        } else {
            NodeState::Fault
        }
    } else if probe.ina226.present && probe.tmp112.present {
        NodeState::Online
    } else if probe.ina226.present || probe.tmp112.present {
        NodeState::Fault
    } else {
        NodeState::Offline
    }
}

/// A current sensor: its probe, and its reading and registers only when it
/// answered the probe and is online.
pub open spec fn ina226_pieces(address: u8, probe: SensorProbe, rt: Ina226Runtime) -> Seq<Seq<char>> {
    seq![
        "\"ina226\":{\"address\":\"0x"@,
        zero_pad(address as nat, 0x10),
        hex_text(address as nat),
        "\",\"present\":"@,
        bool_text(probe.present),
        ",\"state\":\""@,
        (if probe.present { rt.state } else { NodeState::Offline }).spec_as_str(),
        "\",\"method\":\""@,
        probe.method@,
        "\",\"tries\":"@,
        dec_chars(probe.tries as nat),
        ",\"reason\":\""@,
        (if probe.present { rt.reason@ } else { "no_ack_or_not_populated"@ }),
        "\""@,
    ] + (if probe.present && rt.state == NodeState::Online {
        seq![
            ",\"reading\":{\"bus_voltage_mv\":"@,
            dec_chars(rt.bus_voltage_mv as nat),
            ",\"shunt_voltage_uv\":"@,
            sign_text(rt.shunt_voltage_uv as int),
            magnitude_text(rt.shunt_voltage_uv as int),
            ",\"current_ma\":"@,
            dec_chars(rt.current_ma as nat),
            "},\"registers\":{\"config\":\"0x"@,
            zero_pad(rt.registers.config as nat, 0x1000),
            zero_pad(rt.registers.config as nat, 0x100),
            zero_pad(rt.registers.config as nat, 0x10),
            hex_text(rt.registers.config as nat),
            "\",\"shunt_voltage\":\"0x"@,
            zero_pad(rt.registers.shunt_voltage as nat, 0x1000),
            zero_pad(rt.registers.shunt_voltage as nat, 0x100),
            zero_pad(rt.registers.shunt_voltage as nat, 0x10),
            hex_text(rt.registers.shunt_voltage as nat),
            "\",\"bus_voltage\":\"0x"@,
            zero_pad(rt.registers.bus_voltage as nat, 0x1000),
            zero_pad(rt.registers.bus_voltage as nat, 0x100),
            zero_pad(rt.registers.bus_voltage as nat, 0x10),
            hex_text(rt.registers.bus_voltage as nat),
            "\",\"power\":\"0x"@,
            zero_pad(rt.registers.power as nat, 0x1000),
            zero_pad(rt.registers.power as nat, 0x100),
            zero_pad(rt.registers.power as nat, 0x10),
            hex_text(rt.registers.power as nat),
            "\",\"current\":\"0x"@,
            zero_pad(rt.registers.current as nat, 0x1000),
            zero_pad(rt.registers.current as nat, 0x100),
            zero_pad(rt.registers.current as nat, 0x10),
            hex_text(rt.registers.current as nat),
            "\",\"calibration\":\"0x"@,
            zero_pad(rt.registers.calibration as nat, 0x1000),
            zero_pad(rt.registers.calibration as nat, 0x100),
            zero_pad(rt.registers.calibration as nat, 0x10),
            hex_text(rt.registers.calibration as nat),
            "\",\"mask_enable\":\"0x"@,
            zero_pad(rt.registers.mask_enable as nat, 0x1000),
            zero_pad(rt.registers.mask_enable as nat, 0x100),
            zero_pad(rt.registers.mask_enable as nat, 0x10),
            hex_text(rt.registers.mask_enable as nat),
            "\",\"alert_limit\":\"0x"@,
            zero_pad(rt.registers.alert_limit as nat, 0x1000),
            zero_pad(rt.registers.alert_limit as nat, 0x100),
            zero_pad(rt.registers.alert_limit as nat, 0x10),
            hex_text(rt.registers.alert_limit as nat),
            "\",\"manufacturer_id\":\"0x"@,
            zero_pad(rt.registers.manufacturer_id as nat, 0x1000),
            zero_pad(rt.registers.manufacturer_id as nat, 0x100),
            zero_pad(rt.registers.manufacturer_id as nat, 0x10),
            hex_text(rt.registers.manufacturer_id as nat),
            "\",\"die_id\":\"0x"@,
            zero_pad(rt.registers.die_id as nat, 0x1000),
            zero_pad(rt.registers.die_id as nat, 0x100),
            zero_pad(rt.registers.die_id as nat, 0x10),
            hex_text(rt.registers.die_id as nat),
            "\"}"@,
        ]
    } else {
        Seq::empty()
    }) + seq!["}"@]
}

fn ina226_strings(address: u8, probe: SensorProbe, rt: Ina226Runtime) -> (v: Vec<String>)
    ensures
        texts(v@) == ina226_pieces(address, probe, rt),
{
    let mut v = vec![
        "\"ina226\":{\"address\":\"0x".to_owned(),
        pad_str(address as u16, 0x10).to_owned(),
        hex_string(address as u16),
        "\",\"present\":".to_owned(),
        bool_str(probe.present).to_owned(),
        ",\"state\":\"".to_owned(),
        (if probe.present { rt.state } else { NodeState::Offline }).as_str().to_owned(),
        "\",\"method\":\"".to_owned(),
        probe.method.to_owned(),
        "\",\"tries\":".to_owned(),
        decimal(probe.tries as u64),
        ",\"reason\":\"".to_owned(),
        (if probe.present { rt.reason } else { "no_ack_or_not_populated" }).to_owned(),
        "\"".to_owned(),
    ];
    assert(texts(v@) =~= seq![
        "\"ina226\":{\"address\":\"0x"@,
        zero_pad(address as nat, 0x10),
        hex_text(address as nat),
        "\",\"present\":"@,
        bool_text(probe.present),
        ",\"state\":\""@,
        (if probe.present { rt.state } else { NodeState::Offline }).spec_as_str(),
        "\",\"method\":\""@,
        probe.method@,
        "\",\"tries\":"@,
        dec_chars(probe.tries as nat),
        ",\"reason\":\""@,
        (if probe.present { rt.reason@ } else { "no_ack_or_not_populated"@ }),
        "\""@,
    ]);
    let ghost head = texts(v@);
    if probe.present && rt.state == NodeState::Online {
        let reading = vec![
            ",\"reading\":{\"bus_voltage_mv\":".to_owned(),
            decimal(rt.bus_voltage_mv as u64),
            ",\"shunt_voltage_uv\":".to_owned(),
            sign_str(rt.shunt_voltage_uv).to_owned(),
            magnitude_string(rt.shunt_voltage_uv),
            ",\"current_ma\":".to_owned(),
            decimal(rt.current_ma as u64),
            "},\"registers\":{\"config\":\"0x".to_owned(),
            pad_str(rt.registers.config, 0x1000).to_owned(),
            pad_str(rt.registers.config, 0x100).to_owned(),
            pad_str(rt.registers.config, 0x10).to_owned(),
            hex_string(rt.registers.config),
            "\",\"shunt_voltage\":\"0x".to_owned(),
            pad_str(rt.registers.shunt_voltage, 0x1000).to_owned(),
            pad_str(rt.registers.shunt_voltage, 0x100).to_owned(),
            pad_str(rt.registers.shunt_voltage, 0x10).to_owned(),
            hex_string(rt.registers.shunt_voltage),
            "\",\"bus_voltage\":\"0x".to_owned(),
            pad_str(rt.registers.bus_voltage, 0x1000).to_owned(),
            pad_str(rt.registers.bus_voltage, 0x100).to_owned(),
            pad_str(rt.registers.bus_voltage, 0x10).to_owned(),
            hex_string(rt.registers.bus_voltage),
            "\",\"power\":\"0x".to_owned(),
            pad_str(rt.registers.power, 0x1000).to_owned(),
            pad_str(rt.registers.power, 0x100).to_owned(),
            pad_str(rt.registers.power, 0x10).to_owned(),
            hex_string(rt.registers.power),
            "\",\"current\":\"0x".to_owned(),
            pad_str(rt.registers.current, 0x1000).to_owned(),
            pad_str(rt.registers.current, 0x100).to_owned(),
            pad_str(rt.registers.current, 0x10).to_owned(),
            hex_string(rt.registers.current),
            "\",\"calibration\":\"0x".to_owned(),
            pad_str(rt.registers.calibration, 0x1000).to_owned(),
            pad_str(rt.registers.calibration, 0x100).to_owned(),
            pad_str(rt.registers.calibration, 0x10).to_owned(),
            hex_string(rt.registers.calibration),
            "\",\"mask_enable\":\"0x".to_owned(),
            pad_str(rt.registers.mask_enable, 0x1000).to_owned(),
            pad_str(rt.registers.mask_enable, 0x100).to_owned(),
            pad_str(rt.registers.mask_enable, 0x10).to_owned(),
            hex_string(rt.registers.mask_enable),
            "\",\"alert_limit\":\"0x".to_owned(),
            pad_str(rt.registers.alert_limit, 0x1000).to_owned(),
            pad_str(rt.registers.alert_limit, 0x100).to_owned(),
            pad_str(rt.registers.alert_limit, 0x10).to_owned(),
            hex_string(rt.registers.alert_limit),
            "\",\"manufacturer_id\":\"0x".to_owned(),
            pad_str(rt.registers.manufacturer_id, 0x1000).to_owned(),
            pad_str(rt.registers.manufacturer_id, 0x100).to_owned(),
            pad_str(rt.registers.manufacturer_id, 0x10).to_owned(),
            hex_string(rt.registers.manufacturer_id),
            "\",\"die_id\":\"0x".to_owned(),
            pad_str(rt.registers.die_id, 0x1000).to_owned(),
            pad_str(rt.registers.die_id, 0x100).to_owned(),
            pad_str(rt.registers.die_id, 0x10).to_owned(),
            hex_string(rt.registers.die_id),
            "\"}".to_owned(),
        ];
        assert(texts(reading@) =~= seq![
            ",\"reading\":{\"bus_voltage_mv\":"@,
            dec_chars(rt.bus_voltage_mv as nat),
            ",\"shunt_voltage_uv\":"@,
            sign_text(rt.shunt_voltage_uv as int),
            magnitude_text(rt.shunt_voltage_uv as int),
            ",\"current_ma\":"@,
            dec_chars(rt.current_ma as nat),
            "},\"registers\":{\"config\":\"0x"@,
            zero_pad(rt.registers.config as nat, 0x1000),
            zero_pad(rt.registers.config as nat, 0x100),
            zero_pad(rt.registers.config as nat, 0x10),
            hex_text(rt.registers.config as nat),
            "\",\"shunt_voltage\":\"0x"@,
            zero_pad(rt.registers.shunt_voltage as nat, 0x1000),
            zero_pad(rt.registers.shunt_voltage as nat, 0x100),
            zero_pad(rt.registers.shunt_voltage as nat, 0x10),
            hex_text(rt.registers.shunt_voltage as nat),
            "\",\"bus_voltage\":\"0x"@,
            zero_pad(rt.registers.bus_voltage as nat, 0x1000),
            zero_pad(rt.registers.bus_voltage as nat, 0x100),
            zero_pad(rt.registers.bus_voltage as nat, 0x10),
            hex_text(rt.registers.bus_voltage as nat),
            "\",\"power\":\"0x"@,
            zero_pad(rt.registers.power as nat, 0x1000),
            zero_pad(rt.registers.power as nat, 0x100),
            zero_pad(rt.registers.power as nat, 0x10),
            hex_text(rt.registers.power as nat),
            "\",\"current\":\"0x"@,
            zero_pad(rt.registers.current as nat, 0x1000),
            zero_pad(rt.registers.current as nat, 0x100),
            zero_pad(rt.registers.current as nat, 0x10),
            hex_text(rt.registers.current as nat),
            "\",\"calibration\":\"0x"@,
            zero_pad(rt.registers.calibration as nat, 0x1000),
            zero_pad(rt.registers.calibration as nat, 0x100),
            zero_pad(rt.registers.calibration as nat, 0x10),
            hex_text(rt.registers.calibration as nat),
            "\",\"mask_enable\":\"0x"@,
            zero_pad(rt.registers.mask_enable as nat, 0x1000),
            zero_pad(rt.registers.mask_enable as nat, 0x100),
            zero_pad(rt.registers.mask_enable as nat, 0x10),
            hex_text(rt.registers.mask_enable as nat),
            "\",\"alert_limit\":\"0x"@,
            zero_pad(rt.registers.alert_limit as nat, 0x1000),
            zero_pad(rt.registers.alert_limit as nat, 0x100),
            zero_pad(rt.registers.alert_limit as nat, 0x10),
            hex_text(rt.registers.alert_limit as nat),
            "\",\"manufacturer_id\":\"0x"@,
            zero_pad(rt.registers.manufacturer_id as nat, 0x1000),
            zero_pad(rt.registers.manufacturer_id as nat, 0x100),
            zero_pad(rt.registers.manufacturer_id as nat, 0x10),
            hex_text(rt.registers.manufacturer_id as nat),
            "\",\"die_id\":\"0x"@,
            zero_pad(rt.registers.die_id as nat, 0x1000),
            zero_pad(rt.registers.die_id as nat, 0x100),
            zero_pad(rt.registers.die_id as nat, 0x10),
            hex_text(rt.registers.die_id as nat),
            "\"}"@,
        ]);
        extend(&mut v, reading);
    } else {
        assert(head + Seq::<Seq<char>>::empty() =~= head);
    }
    extend(&mut v, vec!["}".to_owned()]);
    v
}

/// A temperature sensor, as `ina226_pieces`.
pub open spec fn tmp112_pieces(address: u8, probe: SensorProbe, rt: Tmp112Runtime) -> Seq<Seq<char>> {
    seq![
        "\"tmp112\":{\"address\":\"0x"@,
        zero_pad(address as nat, 0x10),
        hex_text(address as nat),
        "\",\"present\":"@,
        bool_text(probe.present),
        ",\"state\":\""@,
        (if probe.present { rt.state } else { NodeState::Offline }).spec_as_str(),
        "\",\"method\":\""@,
        probe.method@,
        "\",\"tries\":"@,
        dec_chars(probe.tries as nat),
        ",\"reason\":\""@,
        (if probe.present { rt.reason@ } else { "no_ack_or_not_populated"@ }),
        "\""@,
    ] + (if probe.present && rt.state == NodeState::Online {
        seq![
            ",\"reading\":{\"temperature_milli_c\":"@,
            sign_text(rt.temperature_milli_c as int),
            magnitude_text(rt.temperature_milli_c as int),
            "},\"registers\":{\"temperature\":\"0x"@,
            zero_pad(rt.registers.temperature as nat, 0x1000),
            zero_pad(rt.registers.temperature as nat, 0x100),
            zero_pad(rt.registers.temperature as nat, 0x10),
            hex_text(rt.registers.temperature as nat),
            "\",\"config\":\"0x"@,
            zero_pad(rt.registers.config as nat, 0x1000),
            zero_pad(rt.registers.config as nat, 0x100),
            zero_pad(rt.registers.config as nat, 0x10),
            hex_text(rt.registers.config as nat),
            "\",\"t_low\":\"0x"@,
            zero_pad(rt.registers.t_low as nat, 0x1000),
            zero_pad(rt.registers.t_low as nat, 0x100),
            zero_pad(rt.registers.t_low as nat, 0x10),
            hex_text(rt.registers.t_low as nat),
            "\",\"t_high\":\"0x"@,
            zero_pad(rt.registers.t_high as nat, 0x1000),
            zero_pad(rt.registers.t_high as nat, 0x100),
            zero_pad(rt.registers.t_high as nat, 0x10),
            hex_text(rt.registers.t_high as nat),
            "\"}"@,
        ]
    } else {
        Seq::empty()
    }) + seq!["}"@]
}

fn tmp112_strings(address: u8, probe: SensorProbe, rt: Tmp112Runtime) -> (v: Vec<String>)
    ensures
        texts(v@) == tmp112_pieces(address, probe, rt),
{
    let mut v = vec![
        "\"tmp112\":{\"address\":\"0x".to_owned(),
        pad_str(address as u16, 0x10).to_owned(),
        hex_string(address as u16),
        "\",\"present\":".to_owned(),
        bool_str(probe.present).to_owned(),
        ",\"state\":\"".to_owned(),
        (if probe.present { rt.state } else { NodeState::Offline }).as_str().to_owned(),
        "\",\"method\":\"".to_owned(),
        probe.method.to_owned(),
        "\",\"tries\":".to_owned(),
        decimal(probe.tries as u64),
        ",\"reason\":\"".to_owned(),
        (if probe.present { rt.reason } else { "no_ack_or_not_populated" }).to_owned(),
        "\"".to_owned(),
    ];
    assert(texts(v@) =~= seq![
        "\"tmp112\":{\"address\":\"0x"@,
        zero_pad(address as nat, 0x10),
        hex_text(address as nat),
        "\",\"present\":"@,
        bool_text(probe.present),
        ",\"state\":\""@,
        (if probe.present { rt.state } else { NodeState::Offline }).spec_as_str(),
        "\",\"method\":\""@,
        probe.method@,
        "\",\"tries\":"@,
        dec_chars(probe.tries as nat),
        ",\"reason\":\""@,
        (if probe.present { rt.reason@ } else { "no_ack_or_not_populated"@ }),
        "\""@,
    ]);
    let ghost head = texts(v@);
    if probe.present && rt.state == NodeState::Online {
        let reading = vec![
            ",\"reading\":{\"temperature_milli_c\":".to_owned(),
            sign_str(rt.temperature_milli_c).to_owned(),
            magnitude_string(rt.temperature_milli_c),
            "},\"registers\":{\"temperature\":\"0x".to_owned(),
            pad_str(rt.registers.temperature, 0x1000).to_owned(),
            pad_str(rt.registers.temperature, 0x100).to_owned(),
            pad_str(rt.registers.temperature, 0x10).to_owned(),
            hex_string(rt.registers.temperature),
            "\",\"config\":\"0x".to_owned(),
            pad_str(rt.registers.config, 0x1000).to_owned(),
            pad_str(rt.registers.config, 0x100).to_owned(),
            pad_str(rt.registers.config, 0x10).to_owned(),
            hex_string(rt.registers.config),
            "\",\"t_low\":\"0x".to_owned(),
            pad_str(rt.registers.t_low, 0x1000).to_owned(),
            pad_str(rt.registers.t_low, 0x100).to_owned(),
            pad_str(rt.registers.t_low, 0x10).to_owned(),
            hex_string(rt.registers.t_low),
            "\",\"t_high\":\"0x".to_owned(),
            pad_str(rt.registers.t_high, 0x1000).to_owned(),
            pad_str(rt.registers.t_high, 0x100).to_owned(),
            pad_str(rt.registers.t_high, 0x10).to_owned(),
            hex_string(rt.registers.t_high),
            "\"}".to_owned(),
        ];
        assert(texts(reading@) =~= seq![
            ",\"reading\":{\"temperature_milli_c\":"@,
            sign_text(rt.temperature_milli_c as int),
            magnitude_text(rt.temperature_milli_c as int),
            "},\"registers\":{\"temperature\":\"0x"@,
            zero_pad(rt.registers.temperature as nat, 0x1000),
            zero_pad(rt.registers.temperature as nat, 0x100),
            zero_pad(rt.registers.temperature as nat, 0x10),
            hex_text(rt.registers.temperature as nat),
            "\",\"config\":\"0x"@,
            zero_pad(rt.registers.config as nat, 0x1000),
            zero_pad(rt.registers.config as nat, 0x100),
            zero_pad(rt.registers.config as nat, 0x10),
            hex_text(rt.registers.config as nat),
            "\",\"t_low\":\"0x"@,
            zero_pad(rt.registers.t_low as nat, 0x1000),
            zero_pad(rt.registers.t_low as nat, 0x100),
            zero_pad(rt.registers.t_low as nat, 0x10),
            hex_text(rt.registers.t_low as nat),
            "\",\"t_high\":\"0x"@,
            zero_pad(rt.registers.t_high as nat, 0x1000),
            zero_pad(rt.registers.t_high as nat, 0x100),
            zero_pad(rt.registers.t_high as nat, 0x10),
            hex_text(rt.registers.t_high as nat),
            "\"}"@,
        ]);
        extend(&mut v, reading);
    } else {
        assert(head + Seq::<Seq<char>>::empty() =~= head);
    }
    extend(&mut v, vec!["}".to_owned()]);
    v
}

/// One port: its state, controls and telemetry, then both sensors.
pub open spec fn port_pieces(
    idx: int,
    p: PortRuntime,
    probe: PortProbe,
    ina_addr: u8,
    tmp_addr: u8,
) -> Seq<Seq<char>> {
    let state = port_state(p, probe);
    seq![
        "{\"index\":"@,
        dec_chars((idx + 1) as nat),
        ",\"present\":"@,
        bool_text(state == NodeState::Online),
        ",\"state\":\""@,
        state.spec_as_str(),
        "\",\"ready\":"@,
        bool_text(p.ready),
        ",\"ui_state\":\""@,
        p.ui_state@,
        "\",\"manual_enabled\":"@,
        bool_text(p.manual_enabled),
        ",\"pwren_enabled\":"@,
        bool_text(p.pwren_enabled),
        ",\"en_enabled\":"@,
        bool_text(p.en_enabled),
        ",\"ocp_latched\":"@,
        bool_text(p.ocp_latched),
        ",\"control\":{\"manual_enabled\":"@,
        bool_text(p.manual_enabled),
        ",\"sideband_pwren_enabled\":"@,
        bool_text(p.pwren_enabled),
        ",\"module_en_enabled\":"@,
        bool_text(p.en_enabled),
        ",\"ocp_latched\":"@,
        bool_text(p.ocp_latched),
        ",\"ready\":"@,
        bool_text(p.ready),
        ",\"scan_done\":"@,
        bool_text(p.scan_done),
        "},\"telemetry\":{\"vbus_mv\":"@,
        dec_chars(p.vbus_mv as nat),
        ",\"current_ma\":"@,
        dec_chars(p.current_ma as nat),
        "},\"sensors\":{"@,
    ] + ina226_pieces(ina_addr, probe.ina226, p.ina226) + seq![","@]
        + tmp112_pieces(tmp_addr, probe.tmp112, p.tmp112) + seq!["}}"@]
}

fn port_strings(idx: usize, p: PortRuntime, probe: PortProbe, ina_addr: u8, tmp_addr: u8) -> (v: Vec<String>)
    requires
        idx < 4,
    ensures
        texts(v@) == port_pieces(idx as int, p, probe, ina_addr, tmp_addr),
{
    let state = port_state_of(p, probe);
    let mut v = vec![
        "{\"index\":".to_owned(),
        decimal((idx + 1) as u64),
        ",\"present\":".to_owned(),
        bool_str(state.present()).to_owned(),
        ",\"state\":\"".to_owned(),
        state.as_str().to_owned(),
        "\",\"ready\":".to_owned(),
        bool_str(p.ready).to_owned(),
        ",\"ui_state\":\"".to_owned(),
        p.ui_state.to_owned(),
        "\",\"manual_enabled\":".to_owned(),
        bool_str(p.manual_enabled).to_owned(),
        ",\"pwren_enabled\":".to_owned(),
        bool_str(p.pwren_enabled).to_owned(),
        ",\"en_enabled\":".to_owned(),
        bool_str(p.en_enabled).to_owned(),
        ",\"ocp_latched\":".to_owned(),
        bool_str(p.ocp_latched).to_owned(),
        ",\"control\":{\"manual_enabled\":".to_owned(),
        bool_str(p.manual_enabled).to_owned(),
        ",\"sideband_pwren_enabled\":".to_owned(),
        bool_str(p.pwren_enabled).to_owned(),
        ",\"module_en_enabled\":".to_owned(),
        bool_str(p.en_enabled).to_owned(),
        ",\"ocp_latched\":".to_owned(),
        bool_str(p.ocp_latched).to_owned(),
        ",\"ready\":".to_owned(),
        bool_str(p.ready).to_owned(),
        ",\"scan_done\":".to_owned(),
        bool_str(p.scan_done).to_owned(),
        "},\"telemetry\":{\"vbus_mv\":".to_owned(),
        decimal(p.vbus_mv as u64),
        ",\"current_ma\":".to_owned(),
        decimal(p.current_ma as u64),
        "},\"sensors\":{".to_owned(),
    ];
    assert(texts(v@) =~= seq![
        "{\"index\":"@,
        dec_chars((idx + 1) as nat),
        ",\"present\":"@,
        bool_text(state == NodeState::Online),
        ",\"state\":\""@,
        state.spec_as_str(),
        "\",\"ready\":"@,
        bool_text(p.ready),
        ",\"ui_state\":\""@,
        p.ui_state@,
        "\",\"manual_enabled\":"@,
        bool_text(p.manual_enabled),
        ",\"pwren_enabled\":"@,
        bool_text(p.pwren_enabled),
        ",\"en_enabled\":"@,
        bool_text(p.en_enabled),
        ",\"ocp_latched\":"@,
        bool_text(p.ocp_latched),
        ",\"control\":{\"manual_enabled\":"@,
        bool_text(p.manual_enabled),
        ",\"sideband_pwren_enabled\":"@,
        bool_text(p.pwren_enabled),
        ",\"module_en_enabled\":"@,
        bool_text(p.en_enabled),
        ",\"ocp_latched\":"@,
        bool_text(p.ocp_latched),
        ",\"ready\":"@,
        bool_text(p.ready),
        ",\"scan_done\":"@,
        bool_text(p.scan_done),
        "},\"telemetry\":{\"vbus_mv\":"@,
        dec_chars(p.vbus_mv as nat),
        ",\"current_ma\":"@,
        dec_chars(p.current_ma as nat),
        "},\"sensors\":{"@,
    ]);
    extend(&mut v, ina226_strings(ina_addr, probe.ina226, p.ina226));
    extend(&mut v, vec![",".to_owned()]);
    extend(&mut v, tmp112_strings(tmp_addr, probe.tmp112, p.tmp112));
    extend(&mut v, vec!["}}".to_owned()]);
    v
}

/// The first `k` ports, separated by commas.
pub open spec fn port_list(
    ports: [PortRuntime; 4],
    probes: [PortProbe; 4],
    ina_addrs: [u8; 4],
    tmp_addrs: [u8; 4],
    k: nat,
) -> Seq<Seq<char>>
    decreases k,
{
    if k == 0 {
        Seq::empty()
    } else {
        let i = k - 1;
        port_list(ports, probes, ina_addrs, tmp_addrs, i as nat) + (if i == 0 {
            Seq::empty()
        } else {
            seq![","@]
        }) + port_pieces(i, ports@[i], probes@[i], ina_addrs@[i], tmp_addrs@[i])
    }
}

pub open spec fn ports_pieces(
    ports: [PortRuntime; 4],
    probes: [PortProbe; 4],
    ina_addrs: [u8; 4],
    tmp_addrs: [u8; 4],
) -> Seq<Seq<char>> {
    seq!["\"ports\":["@] + port_list(ports, probes, ina_addrs, tmp_addrs, 4) + seq!["]"@]
}

fn ports_strings(
    ports: &[PortRuntime; 4],
    probes: &[PortProbe; 4],
    ina_addrs: &[u8; 4],
    tmp_addrs: &[u8; 4],
) -> (v: Vec<String>)
    ensures
        texts(v@) == ports_pieces(*ports, *probes, *ina_addrs, *tmp_addrs),
{
    let mut v = vec!["\"ports\":[".to_owned()];
    let ghost head = texts(v@);
    assert(head =~= seq!["\"ports\":["@]);
    let mut i: usize = 0;
    while i < 4
        invariant
            0 <= i <= 4,
            head == seq!["\"ports\":["@],
            texts(v@) == head + port_list(*ports, *probes, *ina_addrs, *tmp_addrs, i as nat),
        decreases 4 - i,
    {
        let ghost before = texts(v@);
        let ghost sep: Seq<Seq<char>> = if i == 0 {
            Seq::empty()
        } else {
            seq![","@]
        };
        if i != 0 {
            extend(&mut v, vec![",".to_owned()]);
        } else {
            assert(before + sep =~= before);
        }
        extend(&mut v, port_strings(i, ports[i], probes[i], ina_addrs[i], tmp_addrs[i]));
        proof {
            let done = port_list(*ports, *probes, *ina_addrs, *tmp_addrs, i as nat);
            let this = port_pieces(i as int, ports@[i as int], probes@[i as int], ina_addrs@[i as int], tmp_addrs@[i as int]);
            vstd::seq_lib::lemma_concat_associative(head, done, sep);
            vstd::seq_lib::lemma_concat_associative(head, done + sep, this);
        }
        i = i + 1;
    }
    extend(&mut v, vec!["]".to_owned()]);
    v
}

/// The whole snapshot: header, boot, power input, I2C, sideband, front
/// panel, MCU, fan, buzzer and ports, closed by a brace.
pub open spec fn snapshot_pieces(
    firmware_version: Seq<char>,
    sequence: u32,
    uptime_ms: u64,
    reset_reason: Seq<char>,
    boot: BootSelfCheckSnapshot,
    power: PowerInputSnapshot,
    i2c: I2cSnapshot,
    sideband: Option<hub_sideband::Snapshot>,
    sideband_state: NodeState,
    front: Option<front_panel::Snapshot>,
    front_state: NodeState,
    mcu: McuSnapshot,
    fan: FanSnapshot,
    buzzer: BuzzerSnapshot,
    ports: [PortRuntime; 4],
    probes: [PortProbe; 4],
    ina_addrs: [u8; 4],
    tmp_addrs: [u8; 4],
) -> Seq<Seq<char>> {
    header_pieces(firmware_version, sequence, uptime_ms, reset_reason) + boot_pieces(boot)
        + power_pieces(power) + i2c_pieces(i2c) + sideband_pieces(sideband, sideband_state)
        + front_panel_pieces(front, front_state) + mcu_pieces(mcu) + fan_pieces(fan)
        + buzzer_pieces(buzzer) + ports_pieces(ports, probes, ina_addrs, tmp_addrs) + seq!["}"@]
}

/// Clears `out` and writes the snapshot into it, piece by piece, stopping at
/// the first piece that does not fit; `Ok` exactly when all of it fit.
pub fn write_snapshot_json(
    out: &mut TextBuf,
    firmware_version: &str,
    sequence: u32,
    uptime_ms: u64,
    reset_reason: &'static str,
    boot: &BootSelfCheckSnapshot,
    power: PowerInputSnapshot,
    i2c: I2cSnapshot,
    sideband: Option<hub_sideband::Snapshot>,
    sideband_state: NodeState,
    front: Option<front_panel::Snapshot>,
    front_state: NodeState,
    mcu: McuSnapshot,
    fan: FanSnapshot,
    buzzer: BuzzerSnapshot,
    ports: &[PortRuntime; 4],
    probes: &[PortProbe; 4],
    ina_addrs: &[u8; 4],
    tmp_addrs: &[u8; 4],
) -> (r: Result<(), SnapshotOverflow>)
    ensures
        final(out).capacity() == old(out).capacity(),
        final(out)@ == write_fold(
            Seq::empty(),
            snapshot_pieces(
                firmware_version@, sequence, uptime_ms, reset_reason@, *boot, power, i2c, sideband,
                sideband_state, front, front_state, mcu, fan, buzzer, *ports, *probes, *ina_addrs,
                *tmp_addrs,
            ),
            old(out).capacity(),
        ),
        r is Ok <==> fits_after(
            Seq::empty(),
            snapshot_pieces(
                firmware_version@, sequence, uptime_ms, reset_reason@, *boot, power, i2c, sideband,
                sideband_state, front, front_state, mcu, fan, buzzer, *ports, *probes, *ina_addrs,
                *tmp_addrs,
            ),
            old(out).capacity(),
        ),
        r is Ok ==> final(out)@ == snapshot_pieces(
            firmware_version@, sequence, uptime_ms, reset_reason@, *boot, power, i2c, sideband,
            sideband_state, front, front_state, mcu, fan, buzzer, *ports, *probes, *ina_addrs,
            *tmp_addrs,
        ).flatten(),
{
    let mut pieces = header_strings(firmware_version, sequence, uptime_ms, reset_reason);
    extend(&mut pieces, boot_strings(boot));
    extend(&mut pieces, power_strings(power));
    extend(&mut pieces, i2c_strings(i2c));
    extend(&mut pieces, sideband_strings(sideband, sideband_state));
    extend(&mut pieces, front_panel_strings(front, front_state));
    extend(&mut pieces, mcu_strings(mcu));
    extend(&mut pieces, fan_strings(fan));
    extend(&mut pieces, buzzer_strings(buzzer));
    extend(&mut pieces, ports_strings(ports, probes, ina_addrs, tmp_addrs));
    extend(&mut pieces, vec!["}".to_owned()]);
    assert(texts(pieces@) == snapshot_pieces(
        firmware_version@, sequence, uptime_ms, reset_reason@, *boot, power, i2c, sideband,
        sideband_state, front, front_state, mcu, fan, buzzer, *ports, *probes, *ina_addrs,
        *tmp_addrs,
    ));
    out.clear();
    if out.write_texts(&pieces) {
        proof {
            assert(Seq::<char>::empty() + texts(pieces@).flatten() =~= texts(pieces@).flatten());
            lemma_write_fold_fits(Seq::empty(), texts(pieces@), out.capacity());
        }
        Ok(())
    } else {
        Err(SnapshotOverflow)
    }
}

/// Why the chip last reset, as the SoC reports it.
#[derive(Copy, Clone, Debug, PartialEq, Eq, Structural)]
pub enum ResetReason {
    ChipPowerOn,
    CoreSw,
    CoreDeepSleep,
    CoreMwdt0,
    CoreMwdt1,
    CoreRtcWdt,
    CpuMwdt0,
    CpuSw,
    CpuRtcWdt,
    SysBrownOut,
    SysRtcWdt,
    CpuMwdt1,
    SysSuperWdt,
    SysClkGlitch,
    CoreEfuseCrc,
    CoreUsbUart,
    CoreUsbJtag,
    CorePwrGlitch,
}

pub open spec fn spec_reset_reason_label(reason: Option<ResetReason>) -> Seq<char> {
    match reason {
        Some(ResetReason::ChipPowerOn) => "chip_power_on"@,
        Some(ResetReason::CoreSw) => "core_sw"@,
        Some(ResetReason::CoreDeepSleep) => "core_deep_sleep"@,
        Some(ResetReason::CoreMwdt0) => "core_mwdt0"@,
        Some(ResetReason::CoreMwdt1) => "core_mwdt1"@,
        Some(ResetReason::CoreRtcWdt) => "core_rtc_wdt"@,
        Some(ResetReason::CpuMwdt0) => "cpu_mwdt0"@,
        Some(ResetReason::CpuSw) => "cpu_sw"@,
        Some(ResetReason::CpuRtcWdt) => "cpu_rtc_wdt"@,
        Some(ResetReason::SysBrownOut) => "sys_brown_out"@,
        Some(ResetReason::SysRtcWdt) => "sys_rtc_wdt"@,
        Some(ResetReason::CpuMwdt1) => "cpu_mwdt1"@,
        Some(ResetReason::SysSuperWdt) => "sys_super_wdt"@,
        Some(ResetReason::SysClkGlitch) => "sys_clk_glitch"@,
        Some(ResetReason::CoreEfuseCrc) => "core_efuse_crc"@,
        Some(ResetReason::CoreUsbUart) => "core_usb_uart"@,
        Some(ResetReason::CoreUsbJtag) => "core_usb_jtag"@,
        Some(ResetReason::CorePwrGlitch) => "core_pwr_glitch"@,
        None => "unknown"@,
    }
}

/// The name the snapshot gives a reset reason; `unknown` when there is none.
pub fn reset_reason_label(reason: Option<ResetReason>) -> (s: &'static str)
    ensures
        s@ == spec_reset_reason_label(reason),
{
    match reason {
        Some(ResetReason::ChipPowerOn) => "chip_power_on",
        Some(ResetReason::CoreSw) => "core_sw",
        Some(ResetReason::CoreDeepSleep) => "core_deep_sleep",
        Some(ResetReason::CoreMwdt0) => "core_mwdt0",
        Some(ResetReason::CoreMwdt1) => "core_mwdt1",
        Some(ResetReason::CoreRtcWdt) => "core_rtc_wdt",
        Some(ResetReason::CpuMwdt0) => "cpu_mwdt0",
        Some(ResetReason::CpuSw) => "cpu_sw",
        Some(ResetReason::CpuRtcWdt) => "cpu_rtc_wdt",
        Some(ResetReason::SysBrownOut) => "sys_brown_out",
        Some(ResetReason::SysRtcWdt) => "sys_rtc_wdt",
        Some(ResetReason::CpuMwdt1) => "cpu_mwdt1",
        Some(ResetReason::SysSuperWdt) => "sys_super_wdt",
        Some(ResetReason::SysClkGlitch) => "sys_clk_glitch",
        Some(ResetReason::CoreEfuseCrc) => "core_efuse_crc",
        Some(ResetReason::CoreUsbUart) => "core_usb_uart",
        Some(ResetReason::CoreUsbJtag) => "core_usb_jtag",
        Some(ResetReason::CorePwrGlitch) => "core_pwr_glitch",
        None => "unknown",
    }
}

} // verus!
