//! Admission of API requests that change the board: the power lock with its
//! time-to-live, power-configuration changes, port actions and the USB-C
//! downstream route. A request is refused as busy while another is pending
//! for the same target, or while someone else holds a live lock.
use vstd::prelude::*;

verus! {

pub const POWER_LOCK_TTL_MS: u64 = 15_000;

#[derive(Clone, Copy, Debug, PartialEq, Eq, Structural)]
pub struct ApiPowerLock {
    pub owner: u32,
    pub expires_at_ms: u64,
}

#[derive(Clone, Copy, Debug, PartialEq, Eq, Structural)]
pub enum ApiActionError {
    Busy,
}

#[derive(Clone, Copy, Debug, PartialEq, Eq, Structural)]
pub enum ApiPortId {
    PortA,
    PortC,
}

impl ApiPortId {
    pub open spec fn spec_as_str(self) -> Seq<char> {
        match self {
            ApiPortId::PortA => "port_a"@,
            ApiPortId::PortC => "port_c"@,
        }
    }

    pub fn as_str(self) -> (s: &'static str)
        ensures
            s@ == self.spec_as_str(),
    {
        match self {
            ApiPortId::PortA => "port_a",
            ApiPortId::PortC => "port_c",
        }
    }
}

#[derive(Clone, Copy, Debug, PartialEq, Eq, Structural)]
pub enum ApiPortAction {
    Replug,
    Power { enabled: bool },
}

/// What the API side knows when it admits a request: whether each port is
/// busy, what is pending, and the power lock.
#[derive(Clone, Copy, Debug, PartialEq, Eq, Structural)]
pub struct ApiActionState {
    pub port_a_busy: bool,
    pub port_c_busy: bool,
    pub pending_port_a: Option<ApiPortAction>,
    pub pending_port_c: Option<ApiPortAction>,
    pub usb_c_route_pending: bool,
    pub power_config_pending: bool,
    pub power_lock: Option<ApiPowerLock>,
}

/// The lock that still holds at `now`: an expired one is gone.
pub open spec fn live_lock(lock: Option<ApiPowerLock>, now: u64) -> Option<ApiPowerLock> {
    match lock {
        Some(l) => if l.expires_at_ms <= now {
            None
        } else {
            Some(l)
        },
        None => None,
    }
}

/// The lock after `owner` asks to take (`acquire`) or drop it at `now`, and
/// whether the request was admitted: taking fails only while another owner
/// holds a live lock, and renews the lock for its own holder; dropping
/// clears the lock only for its holder and always succeeds.
pub open spec fn lock_after(lock: Option<ApiPowerLock>, now: u64, owner: u32, acquire: bool) -> (
    Option<ApiPowerLock>,
    Result<(), ApiActionError>,
) {
    let live = live_lock(lock, now);
    if acquire {
        match live {
            Some(l) => if l.owner != owner {
                (live, Err(ApiActionError::Busy))
            } else {
                (
                    Some(ApiPowerLock { owner, expires_at_ms: (now + POWER_LOCK_TTL_MS) as u64 }),
                    Ok(()),
                )
            },
            None => (
                Some(ApiPowerLock { owner, expires_at_ms: (now + POWER_LOCK_TTL_MS) as u64 }),
                Ok(()),
            ),
        }
    } else {
        match live {
            Some(l) => if l.owner == owner {
                (None, Ok(()))
            } else {
                (live, Ok(()))
            },
            None => (None, Ok(())),
        }
    }
}

fn expire_lock(state: &mut ApiActionState, now: u64)
    ensures
        *final(state) == (ApiActionState { power_lock: live_lock(old(state).power_lock, now), ..*old(state) }),
{
    if let Some(lock) = state.power_lock {
        if lock.expires_at_ms <= now {
            state.power_lock = None;
        }
    }
}

/// Takes or drops the power lock for `owner` at time `now` (milliseconds).
pub fn try_set_power_lock(state: &mut ApiActionState, now: u64, owner: u32, acquire: bool) -> (r: Result<
    (),
    ApiActionError,
>)
    requires
        now + POWER_LOCK_TTL_MS <= u64::MAX,
    ensures
        (final(state).power_lock, r) == lock_after(old(state).power_lock, now, owner, acquire),
        *final(state) == (ApiActionState { power_lock: final(state).power_lock, ..*old(state) }),
{
    expire_lock(state, now);
    if acquire {
        if let Some(lock) = state.power_lock {
            if lock.owner != owner && lock.expires_at_ms > now {
                return Err(ApiActionError::Busy);
            }
        }
        state.power_lock = Some(ApiPowerLock { owner, expires_at_ms: now + POWER_LOCK_TTL_MS });
    } else if let Some(lock) = state.power_lock {
        if lock.owner == owner {
            state.power_lock = None;
        }
    }
    Ok(())
}

/// Whether a power-configuration change from `owner` is admitted at `now`:
/// not while a live lock is held by someone else (an anonymous request has
/// no owner), and not while another change is pending.
pub open spec fn config_admitted(state: ApiActionState, now: u64, owner: Option<u32>) -> bool {
    &&& match live_lock(state.power_lock, now) {
        Some(l) => owner == Some(l.owner),
        None => true,
    }
    &&& !state.power_config_pending
}

/// Queues a power-configuration change; an expired lock is cleared either way.
pub fn try_set_power_config(state: &mut ApiActionState, now: u64, owner: Option<u32>) -> (r: Result<
    (),
    ApiActionError,
>)
    ensures
        r is Ok <==> config_admitted(*old(state), now, owner),
        r is Ok ==> *final(state) == (ApiActionState {
            power_lock: live_lock(old(state).power_lock, now),
            power_config_pending: true,
            ..*old(state)
        }),
        r is Err ==> *final(state) == (ApiActionState {
            power_lock: live_lock(old(state).power_lock, now),
            ..*old(state)
        }),
{
    if let Some(lock) = state.power_lock {
        if lock.expires_at_ms <= now {
            state.power_lock = None;
        } else if !(match owner {
            Some(o) => o == lock.owner,
            None => false,
        }) {
            return Err(ApiActionError::Busy);
        }
    }
    if state.power_config_pending {
        return Err(ApiActionError::Busy);
    }
    state.power_config_pending = true;
    Ok(())
}

/// Whether an action on a port is admitted: the port is not busy, no action
/// is pending on it, and for the USB-C port no route change is pending.
pub open spec fn action_admitted(state: ApiActionState, port_id: ApiPortId) -> bool {
    match port_id {
        ApiPortId::PortA => !state.port_a_busy && state.pending_port_a is None,
        ApiPortId::PortC => !state.port_c_busy && !state.usb_c_route_pending
            && state.pending_port_c is None,
    }
}

/// Queues `action` on a port.
pub fn try_set_action(state: &mut ApiActionState, port_id: ApiPortId, action: ApiPortAction) -> (r:
    Result<(), ApiActionError>)
    ensures
        r is Ok <==> action_admitted(*old(state), port_id),
        r is Err ==> *final(state) == *old(state),
        r is Ok ==> *final(state) == match port_id {
            ApiPortId::PortA => ApiActionState { pending_port_a: Some(action), ..*old(state) },
            ApiPortId::PortC => ApiActionState { pending_port_c: Some(action), ..*old(state) },
        },
{
    let busy = match port_id {
        ApiPortId::PortA => state.port_a_busy,
        ApiPortId::PortC => state.port_c_busy,
    };
    if busy || (port_id == ApiPortId::PortC && state.usb_c_route_pending) {
        return Err(ApiActionError::Busy);
    }
    match port_id {
        ApiPortId::PortA => {
            if state.pending_port_a.is_some() {
                return Err(ApiActionError::Busy);
            }
            state.pending_port_a = Some(action);
        },
        ApiPortId::PortC => {
            if state.pending_port_c.is_some() {
                return Err(ApiActionError::Busy);
            }
            state.pending_port_c = Some(action);
        },
    }
    Ok(())
}

/// Queues a change of the USB-C downstream route, unless the port is busy or
/// a change is already pending.
pub fn try_set_usb_c_downstream_route(state: &mut ApiActionState) -> (r: Result<(), ApiActionError>)
    ensures
        r is Ok <==> !old(state).port_c_busy && !old(state).usb_c_route_pending,
        r is Err ==> *final(state) == *old(state),
        r is Ok ==> *final(state) == (ApiActionState { usb_c_route_pending: true, ..*old(state) }),
{
    if state.port_c_busy || state.usb_c_route_pending {
        return Err(ApiActionError::Busy);
    }
    state.usb_c_route_pending = true;
    Ok(())
}

/// While one owner holds a live lock, another cannot take it, and the lock
/// stays as it was.
pub proof fn lemma_live_lock_excludes_others(lock: ApiPowerLock, now: u64, other: u32)
    requires
        now < lock.expires_at_ms,
        other != lock.owner,
    ensures
        lock_after(Some(lock), now, other, true) == (
            Some(lock),
            Err::<(), ApiActionError>(ApiActionError::Busy),
        ),
{
}

/// An expired lock never blocks anyone: taking it succeeds for any owner.
pub proof fn lemma_expired_lock_never_blocks(lock: ApiPowerLock, now: u64, owner: u32)
    requires
        lock.expires_at_ms <= now,
        now + POWER_LOCK_TTL_MS <= u64::MAX,
    ensures
        lock_after(Some(lock), now, owner, true).1 is Ok,
        lock_after(Some(lock), now, owner, true).0 == Some(
            ApiPowerLock { owner, expires_at_ms: (now + POWER_LOCK_TTL_MS) as u64 },
        ),
{
}

/// Taking the lock and then dropping it, by the same owner at the same
/// time, leaves no lock.
pub proof fn lemma_take_then_drop_leaves_no_lock(
    lock: Option<ApiPowerLock>,
    now: u64,
    owner: u32,
)
    requires
        now + POWER_LOCK_TTL_MS <= u64::MAX,
        lock_after(lock, now, owner, true).1 is Ok,
    ensures
        lock_after(lock_after(lock, now, owner, true).0, now, owner, false) == (
            None::<ApiPowerLock>,
            Ok::<(), ApiActionError>(()),
        ),
{
}

} // verus!
