//! Bookkeeping of the boot self-check: one slot per system check and per port
//! module, the first fault seen, and the final outcome.
use vstd::prelude::*;

verus! {

#[derive(Copy, Clone, Debug, PartialEq, Eq, Structural)]
pub enum BootStage {
    EarlyBringUp,
    SelfCheck,
    GateApply,
    Runtime,
}

#[derive(Copy, Clone, Debug, PartialEq, Eq, Structural)]
pub enum SelfCheckItemState {
    Pending,
    Pass,
    Warn,
    Error,
    Fatal,
    Skipped,
}

#[derive(Copy, Clone, Debug, PartialEq, Eq, Structural)]
pub enum BootOutcome {
    InProgress,
    Pass,
    Degraded,
    Fatal,
}

#[derive(Copy, Clone, Debug, PartialEq, Eq, Structural)]
pub enum BootFaultCode {
    Clear,
    PowerInUnavailable,
    PowerInPgBad,
    InaUnavailable,
    FrontPanelOffline,
    FanUnavailable,
    PortModuleOffline(u8),
    PortInaOffline(u8),
    PortTempOffline(u8),
}

#[derive(Copy, Clone, Debug, PartialEq, Eq, Structural)]
pub struct SelfCheckSlot {
    pub state: SelfCheckItemState,
    pub fault: BootFaultCode,
}

pub open spec fn pending_slot() -> SelfCheckSlot {
    SelfCheckSlot { state: SelfCheckItemState::Pending, fault: BootFaultCode::Clear }
}

impl SelfCheckSlot {
    /// A check that has not run yet.
    pub fn pending() -> (s: Self)
        ensures
            s == pending_slot(),
    {
        SelfCheckSlot { state: SelfCheckItemState::Pending, fault: BootFaultCode::Clear }
    }
}

/// What the boot sequence lets run once the self-check is over.
#[derive(Copy, Clone, Debug, PartialEq, Eq)]
pub struct GateDecision {
    pub allow_runtime_tasks: bool,
    pub allow_front_panel: bool,
    pub allow_port: [bool; 4],
    pub keep_input_switch_open: bool,
    pub show_sticky_self_check: bool,
}

impl GateDecision {
    /// Runtime and front panel allowed, every port held off.
    pub open spec fn is_initial(self) -> bool {
        &&& self.allow_runtime_tasks
        &&& self.allow_front_panel
        &&& self.allow_port@ == seq![false, false, false, false]
        &&& !self.keep_input_switch_open
        &&& !self.show_sticky_self_check
    }

    pub fn new() -> (g: Self)
        ensures
            g.is_initial(),
    {
        GateDecision {
            allow_runtime_tasks: true,
            allow_front_panel: true,
            allow_port: [false, false, false, false],
            keep_input_switch_open: false,
            show_sticky_self_check: false,
        }
    }
}

#[derive(Copy, Clone, Debug, PartialEq, Eq, Structural)]
pub enum SysCheck {
    Vin,
    Mux,
    Front,
    Fan,
}

/// Slot of a system check in `BootSelfCheckSnapshot::sys`.
pub open spec fn sys_index(item: SysCheck) -> int {
    match item {
        SysCheck::Vin => 0,
        SysCheck::Mux => 1,
        SysCheck::Front => 2,
        SysCheck::Fan => 3,
    }
}

/// The first fault stays; a later one is recorded only while none is.
pub open spec fn latched(first: BootFaultCode, fault: BootFaultCode) -> BootFaultCode {
    if first == BootFaultCode::Clear && fault != BootFaultCode::Clear {
        fault
    } else {
        first
    }
}

pub open spec fn any_fatal(slots: Seq<SelfCheckSlot>) -> bool {
    exists|i: int| 0 <= i < slots.len() && slots[i].state == SelfCheckItemState::Fatal
}

pub open spec fn any_warn_or_err(slots: Seq<SelfCheckSlot>) -> bool {
    exists|i: int|
        0 <= i < slots.len() && (slots[i].state == SelfCheckItemState::Warn || slots[i].state
            == SelfCheckItemState::Error)
}

/// Outcome of the self-check: fatal when a slot is fatal or runtime tasks are
/// not allowed, degraded when a slot warns or errs, ok otherwise.
pub open spec fn outcome_of(slots: Seq<SelfCheckSlot>, gates: GateDecision) -> BootOutcome {
    if any_fatal(slots) || !gates.allow_runtime_tasks {
        BootOutcome::Fatal
    } else if any_warn_or_err(slots) {
        BootOutcome::Degraded
    } else {
        BootOutcome::Pass
    }
}

#[derive(Copy, Clone, Debug, PartialEq, Eq)]
pub struct BootSelfCheckSnapshot {
    pub stage: BootStage,
    pub outcome: BootOutcome,
    pub first_fault: BootFaultCode,
    pub gates: GateDecision,
    pub sys: [SelfCheckSlot; 4],
    pub ports: [SelfCheckSlot; 4],
}

impl BootSelfCheckSnapshot {
    /// Early bring-up, nothing checked, no fault.
    pub fn new() -> (s: Self)
        ensures
            s.stage == BootStage::EarlyBringUp,
            s.outcome == BootOutcome::InProgress,
            s.first_fault == BootFaultCode::Clear,
            s.gates.is_initial(),
            forall|i: int|
                0 <= i < 4 ==> s.sys@[i] == pending_slot() && s.ports@[i] == pending_slot(),
    {
        let p = SelfCheckSlot::pending();
        BootSelfCheckSnapshot {
            stage: BootStage::EarlyBringUp,
            outcome: BootOutcome::InProgress,
            first_fault: BootFaultCode::Clear,
            gates: GateDecision::new(),
            sys: [p, p, p, p],
            ports: [p, p, p, p],
        }
    }

    pub fn set_stage(&mut self, stage: BootStage)
        ensures
            *final(self) == (BootSelfCheckSnapshot { stage, ..*old(self) }),
    {
        self.stage = stage;
    }

    /// Records the result of a system check and latches its fault.
    pub fn set_sys(&mut self, item: SysCheck, state: SelfCheckItemState, fault: BootFaultCode)
        ensures
            final(self).sys@ == old(self).sys@.update(
                sys_index(item),
                SelfCheckSlot { state, fault },
            ),
            final(self).first_fault == latched(old(self).first_fault, fault),
            final(self).stage == old(self).stage,
            final(self).outcome == old(self).outcome,
            final(self).gates == old(self).gates,
            final(self).ports == old(self).ports,
    {
        let idx: usize = match item {
            SysCheck::Vin => 0,
            SysCheck::Mux => 1,
            SysCheck::Front => 2,
            SysCheck::Fan => 3,
        };
        self.sys[idx] = SelfCheckSlot { state, fault };
        self.latch_fault(fault);
    }

    /// Records the result of a port module's check and latches its fault; a
    /// channel past the last port changes nothing.
    pub fn set_port(&mut self, ch: usize, state: SelfCheckItemState, fault: BootFaultCode)
        ensures
            ch >= 4 ==> *final(self) == *old(self),
            ch < 4 ==> final(self).ports@ == old(self).ports@.update(
                ch as int,
                SelfCheckSlot { state, fault },
            ) && final(self).first_fault == latched(old(self).first_fault, fault),
            final(self).stage == old(self).stage,
            final(self).outcome == old(self).outcome,
            final(self).gates == old(self).gates,
            final(self).sys == old(self).sys,
    {
        if ch >= 4 {
            return ;
        }
        self.ports[ch] = SelfCheckSlot { state, fault };
        self.latch_fault(fault);
    }

    /// Keeps the first fault ever reported.
    pub fn latch_fault(&mut self, fault: BootFaultCode)
        ensures
            *final(self) == (BootSelfCheckSnapshot {
                first_fault: latched(old(self).first_fault, fault),
                ..*old(self)
            }),
    {
        if self.first_fault == BootFaultCode::Clear && fault != BootFaultCode::Clear {
            self.first_fault = fault;
        }
    }

    /// Records the boot gates, then the outcome over all the checks.
    pub fn finalize(&mut self, gates: GateDecision)
        ensures
            final(self).gates == gates,
            final(self).outcome == outcome_of(old(self).sys@ + old(self).ports@, gates),
            final(self).stage == old(self).stage,
            final(self).first_fault == old(self).first_fault,
            final(self).sys == old(self).sys,
            final(self).ports == old(self).ports,
    {
        self.gates = gates;
        let ghost slots = self.sys@ + self.ports@;
        let mut fatal = false;
        let mut warn = false;
        let mut i: usize = 0;
        while i < 8
            invariant
                0 <= i <= 8,
                slots == self.sys@ + self.ports@,
                slots.len() == 8,
                fatal <==> exists|j: int|
                    0 <= j < i && slots[j].state == SelfCheckItemState::Fatal,
                warn <==> exists|j: int|
                    0 <= j < i && (slots[j].state == SelfCheckItemState::Warn || slots[j].state
                        == SelfCheckItemState::Error),
            decreases 8 - i,
        {
            let slot = if i < 4 {
                self.sys[i]
            } else {
                self.ports[i - 4]
            };
            assert(slot == slots[i as int]);
            match slot.state {
                SelfCheckItemState::Fatal => {
                    fatal = true;
                },
                SelfCheckItemState::Warn | SelfCheckItemState::Error => {
                    warn = true;
                },
                _ => {},
            }
            i = i + 1;
        }
        self.outcome = if fatal || !gates.allow_runtime_tasks {
            BootOutcome::Fatal
        } else if warn {
            BootOutcome::Degraded
        } else {
            BootOutcome::Pass
        };
    }
}

/// The first fault is sticky: once one is latched, no later report changes
/// it; while none is, the next real fault becomes it.
pub proof fn lemma_first_fault_is_sticky(first: BootFaultCode, later: Seq<BootFaultCode>)
    ensures
        first != BootFaultCode::Clear ==> later.fold_left(first, |f: BootFaultCode, g: BootFaultCode| latched(f, g)) == first,
    decreases later.len(),
{
    if later.len() > 0 {
        lemma_first_fault_is_sticky(first, later.drop_last());
    }
}

pub open spec fn spec_fault_label(fault: BootFaultCode) -> Seq<char> {
    match fault {
        BootFaultCode::Clear => "-"@,
        BootFaultCode::PowerInUnavailable => "VIN OFF"@,
        BootFaultCode::PowerInPgBad => "PG BAD"@,
        BootFaultCode::InaUnavailable => "INA OFF"@,
        BootFaultCode::FrontPanelOffline => "PANEL"@,
        BootFaultCode::FanUnavailable => "FAN"@,
        BootFaultCode::PortModuleOffline(_) => "MOD OFF"@,
        BootFaultCode::PortInaOffline(_) => "INA OFF"@,
        BootFaultCode::PortTempOffline(_) => "TMP OFF"@,
    }
}

/// Short label of a fault for the boot screen.
pub fn fault_label(fault: BootFaultCode) -> (s: &'static str)
    ensures
        s@ == spec_fault_label(fault),
{
    match fault {
        BootFaultCode::Clear => "-",
        BootFaultCode::PowerInUnavailable => "VIN OFF",
        BootFaultCode::PowerInPgBad => "PG BAD",
        BootFaultCode::InaUnavailable => "INA OFF",
        BootFaultCode::FrontPanelOffline => "PANEL",
        BootFaultCode::FanUnavailable => "FAN",
        BootFaultCode::PortModuleOffline(_) => "MOD OFF",
        BootFaultCode::PortInaOffline(_) => "INA OFF",
        BootFaultCode::PortTempOffline(_) => "TMP OFF",
    }
}

pub open spec fn spec_state_label(state: SelfCheckItemState) -> Seq<char> {
    match state {
        SelfCheckItemState::Pending => "PEND"@,
        SelfCheckItemState::Pass => "OK"@,
        SelfCheckItemState::Warn => "WARN"@,
        SelfCheckItemState::Error => "ERR"@,
        SelfCheckItemState::Fatal => "FATAL"@,
        SelfCheckItemState::Skipped => "SKIP"@,
    }
}

/// Short label of a check state for the boot screen.
pub fn state_label(state: SelfCheckItemState) -> (s: &'static str)
    ensures
        s@ == spec_state_label(state),
{
    match state {
        SelfCheckItemState::Pending => "PEND",
        SelfCheckItemState::Pass => "OK",
        SelfCheckItemState::Warn => "WARN",
        SelfCheckItemState::Error => "ERR",
        SelfCheckItemState::Fatal => "FATAL",
        SelfCheckItemState::Skipped => "SKIP",
    }
}

pub open spec fn spec_outcome_label(outcome: BootOutcome) -> Seq<char> {
    match outcome {
        BootOutcome::InProgress => "CHECK"@,
        BootOutcome::Pass => "OK"@,
        BootOutcome::Degraded => "DEG"@,
        BootOutcome::Fatal => "FATAL"@,
    }
}

/// Short label of the boot outcome for the boot screen.
pub fn outcome_label(outcome: BootOutcome) -> (s: &'static str)
    ensures
        s@ == spec_outcome_label(outcome),
{
    match outcome {
        BootOutcome::InProgress => "CHECK",
        BootOutcome::Pass => "OK",
        BootOutcome::Degraded => "DEG",
        BootOutcome::Fatal => "FATAL",
    }
}

} // verus!
