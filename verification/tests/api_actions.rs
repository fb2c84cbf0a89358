use iso_usb_hub::api_actions::{
    try_set_action, try_set_power_config, try_set_power_lock, try_set_usb_c_downstream_route,
    ApiActionError, ApiActionState, ApiPortAction, ApiPortId, ApiPowerLock,
};

fn idle() -> ApiActionState {
    ApiActionState {
        port_a_busy: false,
        port_c_busy: false,
        pending_port_a: None,
        pending_port_c: None,
        usb_c_route_pending: false,
        power_config_pending: false,
        power_lock: None,
    }
}

#[test]
fn lock_excludes_others_until_it_expires() {
    let mut s = idle();
    assert_eq!(try_set_power_lock(&mut s, 1000, 7, true), Ok(()));
    assert_eq!(s.power_lock, Some(ApiPowerLock { owner: 7, expires_at_ms: 16_000 }));
    assert_eq!(try_set_power_lock(&mut s, 2000, 8, true), Err(ApiActionError::Busy));
    assert_eq!(s.power_lock, Some(ApiPowerLock { owner: 7, expires_at_ms: 16_000 }));
    assert_eq!(try_set_power_lock(&mut s, 16_000, 8, true), Ok(()));
    assert_eq!(s.power_lock, Some(ApiPowerLock { owner: 8, expires_at_ms: 31_000 }));
}

#[test]
fn only_the_holder_drops_the_lock() {
    let mut s = idle();
    try_set_power_lock(&mut s, 0, 1, true).unwrap();
    assert_eq!(try_set_power_lock(&mut s, 10, 2, false), Ok(()));
    assert!(s.power_lock.is_some());
    assert_eq!(try_set_power_lock(&mut s, 10, 1, false), Ok(()));
    assert_eq!(s.power_lock, None);
}

#[test]
fn power_config_respects_lock_and_pending_change() {
    let mut s = idle();
    try_set_power_lock(&mut s, 0, 1, true).unwrap();
    assert_eq!(try_set_power_config(&mut s, 100, None), Err(ApiActionError::Busy));
    assert_eq!(try_set_power_config(&mut s, 100, Some(2)), Err(ApiActionError::Busy));
    assert_eq!(try_set_power_config(&mut s, 100, Some(1)), Ok(()));
    assert!(s.power_config_pending);
    assert_eq!(try_set_power_config(&mut s, 100, Some(1)), Err(ApiActionError::Busy));
    let mut t = idle();
    t.power_lock = Some(ApiPowerLock { owner: 5, expires_at_ms: 50 });
    assert_eq!(try_set_power_config(&mut t, 50, None), Ok(()));
    assert_eq!(t.power_lock, None);
}

#[test]
fn port_actions_queue_once_per_port() {
    let mut s = idle();
    assert_eq!(try_set_action(&mut s, ApiPortId::PortA, ApiPortAction::Replug), Ok(()));
    assert_eq!(s.pending_port_a, Some(ApiPortAction::Replug));
    assert_eq!(
        try_set_action(&mut s, ApiPortId::PortA, ApiPortAction::Power { enabled: true }),
        Err(ApiActionError::Busy)
    );
    assert_eq!(try_set_usb_c_downstream_route(&mut s), Ok(()));
    assert_eq!(
        try_set_action(&mut s, ApiPortId::PortC, ApiPortAction::Replug),
        Err(ApiActionError::Busy)
    );
    assert_eq!(try_set_usb_c_downstream_route(&mut s), Err(ApiActionError::Busy));
    let mut busy = idle();
    busy.port_c_busy = true;
    assert_eq!(try_set_action(&mut busy, ApiPortId::PortC, ApiPortAction::Replug), Err(ApiActionError::Busy));
    assert_eq!(busy, { let mut b = idle(); b.port_c_busy = true; b });
    assert_eq!(ApiPortId::PortC.as_str(), "port_c");
}
