//! Decisions of the port runtime: carrying out a requested port action on
//! the per-port state, and the replug hold-off countdown.
use vstd::prelude::*;
use vstd::std_specs::convert::FromSpecImpl;
use crate::device_contract::{is_disconnected, spec_wifi_ssid, WifiSnapshot, WifiState};
use crate::http_api_v1::ApiPendingAction;
use crate::provisioning::padded;
use vstd::utf8::encode_utf8;

verus! {

#[derive(Clone, Copy, Debug, PartialEq, Eq, Structural)]
pub enum PortControlAction {
    PowerSet { index: usize, enabled: bool },
    Replug { index: usize },
}

impl PortControlAction {
    /// The port an action is about.
    pub open spec fn index(self) -> usize {
        match self {
            PortControlAction::PowerSet { index, .. } => index,
            PortControlAction::Replug { index } => index,
        }
    }
}

pub open spec fn action_from_pending(value: ApiPendingAction) -> PortControlAction {
    match value {
        ApiPendingAction::PortPower { index, enabled } => PortControlAction::PowerSet { index, enabled },
        ApiPendingAction::PortReplug { index } => PortControlAction::Replug { index },
    }
}

impl From<ApiPendingAction> for PortControlAction {
    fn from(value: ApiPendingAction) -> (r: Self) {
        match value {
            ApiPendingAction::PortPower { index, enabled } => PortControlAction::PowerSet {
                index,
                enabled,
            },
            ApiPendingAction::PortReplug { index } => PortControlAction::Replug { index },
        }
    }
}

impl FromSpecImpl<ApiPendingAction> for PortControlAction {
    open spec fn obeys_from_spec() -> bool {
        true
    }

    open spec fn from_spec(v: ApiPendingAction) -> Self {
        action_from_pending(v)
    }
}

/// Countdowns after one tick: each running one goes down by one.
pub open spec fn ticked_countdowns(countdown: Seq<u8>) -> Seq<u8> {
    Seq::new(countdown.len(), |i: int| if countdown[i] > 0 { (countdown[i] - 1) as u8 } else { 0u8 })
}

/// Manual enables after one tick: a port whose countdown runs out is enabled
/// again.
pub open spec fn ticked_enables(manual_enabled: Seq<bool>, countdown: Seq<u8>) -> Seq<bool> {
    Seq::new(manual_enabled.len(), |i: int| if countdown[i] == 1 { true } else { manual_enabled[i] })
}

/// One tick of the replug hold-off: every running countdown goes down by one,
/// and a port whose countdown reaches zero is manually enabled again.
pub fn tick_replug_countdowns(manual_enabled: &mut [bool; 4], replug_countdown: &mut [u8; 4])
    ensures
        final(replug_countdown)@ == ticked_countdowns(old(replug_countdown)@),
        final(manual_enabled)@ == ticked_enables(old(manual_enabled)@, old(replug_countdown)@),
{
    let ghost m0 = manual_enabled@;
    let ghost c0 = replug_countdown@;
    let mut idx: usize = 0;
    while idx < 4
        invariant
            0 <= idx <= 4,
            m0.len() == 4 && c0.len() == 4,
            manual_enabled@.len() == 4 && replug_countdown@.len() == 4,
            forall|i: int| 0 <= i < idx ==> replug_countdown@[i] == ticked_countdowns(c0)[i],
            forall|i: int| 0 <= i < idx ==> manual_enabled@[i] == ticked_enables(m0, c0)[i],
            forall|i: int| idx <= i < 4 ==> replug_countdown@[i] == c0[i],
            forall|i: int| idx <= i < 4 ==> manual_enabled@[i] == m0[i],
        decreases 4 - idx,
    {
        if replug_countdown[idx] > 0 {
            replug_countdown[idx] = replug_countdown[idx] - 1;
            if replug_countdown[idx] == 0 {
                manual_enabled[idx] = true;
            }
        }
        assert(replug_countdown@[idx as int] == ticked_countdowns(c0)[idx as int]);
        assert(manual_enabled@[idx as int] == ticked_enables(m0, c0)[idx as int]);
        idx = idx + 1;
    }
    assert(replug_countdown@ =~= ticked_countdowns(c0));
    assert(manual_enabled@ =~= ticked_enables(m0, c0));
}

/// Carries out a port action. An action on a port past the last one is
/// refused (`false`) and nothing changes. Otherwise:
/// - `PowerSet` records the manual enable and drives the port output; turning
///   a port off also clears its over-current latch, safe-sample count and
///   retry wait;
/// - `Replug` drives the port off, clears its manual enable and starts its
///   hold-off countdown at `replug_holdoff_ticks`.
///
/// `port_outputs` holds the level each port output is driven to.
pub fn apply_port_action(
    action: PortControlAction,
    manual_enabled: &mut [bool; 4],
    ocp_latched: &mut [bool; 4],
    ocp_safe_samples: &mut [u8; 4],
    ocp_retry_wait: &mut [u8; 4],
    replug_countdown: &mut [u8; 4],
    replug_holdoff_ticks: u8,
    port_outputs: &mut [bool; 4],
) -> (applied: bool)
    ensures
        applied == (action.index() < 4),
        !applied ==> {
            &&& *final(manual_enabled) == *old(manual_enabled)
            &&& *final(ocp_latched) == *old(ocp_latched)
            &&& *final(ocp_safe_samples) == *old(ocp_safe_samples)
            &&& *final(ocp_retry_wait) == *old(ocp_retry_wait)
            &&& *final(replug_countdown) == *old(replug_countdown)
            &&& *final(port_outputs) == *old(port_outputs)
        },
        applied ==> match action {
            PortControlAction::PowerSet { index, enabled } => {
                let i = index as int;
                &&& final(manual_enabled)@ == old(manual_enabled)@.update(i, enabled)
                &&& final(port_outputs)@ == old(port_outputs)@.update(i, enabled)
                &&& final(ocp_latched)@ == if enabled {
                    old(ocp_latched)@
                } else {
                    old(ocp_latched)@.update(i, false)
                }
                &&& final(ocp_safe_samples)@ == if enabled {
                    old(ocp_safe_samples)@
                } else {
                    old(ocp_safe_samples)@.update(i, 0)
                }
                &&& final(ocp_retry_wait)@ == if enabled {
                    old(ocp_retry_wait)@
                } else {
                    old(ocp_retry_wait)@.update(i, 0)
                }
                &&& *final(replug_countdown) == *old(replug_countdown)
            },
            PortControlAction::Replug { index } => {
                let i = index as int;
                &&& final(manual_enabled)@ == old(manual_enabled)@.update(i, false)
                &&& final(port_outputs)@ == old(port_outputs)@.update(i, false)
                &&& final(replug_countdown)@ == old(replug_countdown)@.update(
                    i,
                    replug_holdoff_ticks,
                )
                &&& *final(ocp_latched) == *old(ocp_latched)
                &&& *final(ocp_safe_samples) == *old(ocp_safe_samples)
                &&& *final(ocp_retry_wait) == *old(ocp_retry_wait)
            },
        },
{
    let index = match action {
        PortControlAction::PowerSet { index, .. } => index,
        PortControlAction::Replug { index } => index,
    };
    if index >= 4 {
        return false;
    }
    match action {
        PortControlAction::PowerSet { enabled, .. } => {
            manual_enabled[index] = enabled;
            if !enabled {
                ocp_latched[index] = false;
                ocp_safe_samples[index] = 0;
                ocp_retry_wait[index] = 0;
            }
            port_outputs[index] = enabled;
        },
        PortControlAction::Replug { .. } => {
            port_outputs[index] = false;
            manual_enabled[index] = false;
            replug_countdown[index] = replug_holdoff_ticks;
        },
    }
    true
}

/// Manual enables and countdowns after `n` ticks.
pub open spec fn after_ticks(manual_enabled: Seq<bool>, countdown: Seq<u8>, n: nat) -> (
    Seq<bool>,
    Seq<u8>,
)
    decreases n,
{
    if n == 0 {
        (manual_enabled, countdown)
    } else {
        let (m, c) = after_ticks(manual_enabled, countdown, (n - 1) as nat);
        (ticked_enables(m, c), ticked_countdowns(c))
    }
}

/// A replug keeps the port off for exactly its hold-off: with `h > 0` ticks
/// of hold-off, the port stays manually disabled for the first `h - 1` ticks
/// and is manually enabled again, with its countdown at zero, after the
/// `h`-th.
pub proof fn lemma_replug_holdoff_restores_enable(
    manual_enabled: Seq<bool>,
    countdown: Seq<u8>,
    index: int,
    h: u8,
    n: nat,
)
    requires
        manual_enabled.len() == 4,
        countdown.len() == 4,
        0 <= index < 4,
        h > 0,
        n <= h,
    ensures
        ({
            let (m, c) = after_ticks(
                manual_enabled.update(index, false),
                countdown.update(index, h),
                n,
            );
            &&& c[index] == h - n
            &&& n < h ==> !m[index]
            &&& n == h ==> m[index]
            &&& m.len() == 4 && c.len() == 4
        }),
    decreases n,
{
    if n > 0 {
        lemma_replug_holdoff_restores_enable(manual_enabled, countdown, index, h, (n - 1) as nat);
    }
}

/// Records newly set credentials in the runtime's Wi-Fi snapshot: configured,
/// idle, no address, the SSID's bytes. An empty SSID or one over 32 bytes is
/// refused (`false`) and changes nothing.
pub fn apply_wifi_set_snapshot(wifi: &mut WifiSnapshot, ssid: &str, psk_configured: bool) -> (applied: bool)
    ensures
        ({
            let bytes = encode_utf8(ssid@);
            &&& applied == (1 <= bytes.len() <= 32)
            &&& !applied ==> *final(wifi) == *old(wifi)
            &&& applied ==> {
                &&& final(wifi).configured
                &&& final(wifi).psk_configured == psk_configured
                &&& final(wifi).state == WifiState::Idle
                &&& final(wifi).ipv4 is None
                &&& !final(wifi).is_static
                &&& final(wifi).ssid@ == padded(bytes, 32)
                &&& final(wifi).ssid_len == bytes.len()
            }
        }),
{
    let bytes = ssid.as_bytes();
    if bytes.len() == 0 || bytes.len() > 32 {
        return false;
    }
    wifi.configured = true;
    wifi.psk_configured = psk_configured;
    wifi.state = WifiState::Idle;
    wifi.ipv4 = None;
    wifi.is_static = false;
    let mut i: usize = 0;
    while i < 32
        invariant
            0 <= i <= 32,
            bytes@.len() <= 32,
            wifi.ssid@.len() == 32,
            wifi.configured,
            wifi.psk_configured == psk_configured,
            wifi.state == WifiState::Idle,
            wifi.ipv4 is None,
            !wifi.is_static,
            forall|j: int| 0 <= j < i ==> wifi.ssid@[j] == padded(bytes@, 32)[j],
        decreases 32 - i,
    {
        wifi.ssid[i] = if i < bytes.len() {
            bytes[i]
        } else {
            0
        };
        i = i + 1;
    }
    wifi.ssid_len = bytes.len() as u8;
    assert(wifi.ssid@ =~= padded(bytes@, 32));
    true
}

/// Forgets the Wi-Fi configuration in the runtime snapshot.
pub fn apply_wifi_clear_snapshot(wifi: &mut WifiSnapshot)
    ensures
        is_disconnected(*final(wifi)),
{
    *wifi = WifiSnapshot::disconnected();
}

/// A set SSID reads back: the snapshot a successful set leaves (its SSID
/// bytes padded to 32, its length the byte count) reports exactly the text
/// that was set.
pub proof fn lemma_set_ssid_reads_back(w: WifiSnapshot, ssid: Seq<char>)
    requires
        1 <= encode_utf8(ssid).len() <= 32,
        w.ssid@ == padded(encode_utf8(ssid), 32),
        w.ssid_len == encode_utf8(ssid).len(),
    ensures
        spec_wifi_ssid(w) == Some(ssid),
{
    let bytes = encode_utf8(ssid);
    assert(w.ssid@.subrange(0, w.ssid_len as int) =~= bytes);
    vstd::utf8::encode_utf8_valid_utf8(ssid);
    vstd::utf8::encode_utf8_decode_utf8(ssid);
}

} // verus!
