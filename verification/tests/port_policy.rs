use iso_usb_hub::port_policy::{front_panel_failure_classification, I2cRecoveryReport};
use iso_usb_hub::port_policy::{
    ocp_reason_label, port_overcurrent, port_tick, port_wants_sample, PortConditions,
    PortOcpDecision, PortOcpState,
};

fn running() -> PortConditions {
    PortConditions {
        manual_enabled: true,
        switch_open: false,
        hub_allows: true,
        output_active: true,
        module_ready: true,
        scan_done: true,
    }
}

fn clear() -> PortOcpState {
    PortOcpState { latched: false, safe_samples: 0, retry_wait: 0 }
}

#[test]
fn overcurrent_decisions() {
    assert_eq!(port_overcurrent(5000, 5301), PortOcpDecision::HighCurrent);
    assert_eq!(port_overcurrent(5000, 5300), PortOcpDecision::Clear);
    assert_eq!(port_overcurrent(2999, 101), PortOcpDecision::LowVbus);
    assert_eq!(port_overcurrent(2999, 100), PortOcpDecision::Clear);
    assert_eq!(ocp_reason_label(PortOcpDecision::HighCurrent), "high_current");
}

#[test]
fn closed_port_stays_off() {
    let mut c = running();
    c.manual_enabled = false;
    let mut s = clear();
    let t = port_tick(c, &mut s, Some((5000, 100)));
    assert!(!t.desired_enabled);
    assert_eq!(s, clear());
    assert!(!port_wants_sample(c, s));
}

#[test]
fn overcurrent_reading_latches_and_turns_off() {
    let c = running();
    let mut s = clear();
    let t = port_tick(c, &mut s, Some((5000, 6000)));
    assert!(s.latched);
    assert!(!t.desired_enabled);
}

#[test]
fn latched_port_is_released_by_the_fourth_safe_reading() {
    let c = running();
    let mut s = PortOcpState { latched: true, safe_samples: 0, retry_wait: 0 };
    for k in 0..3 {
        let _ = port_tick(c, &mut s, Some((5000, 100)));
        assert!(s.latched, "still latched after {} safe readings", k + 1);
    }
    let _ = port_tick(c, &mut s, Some((5000, 100)));
    assert!(!s.latched);
}

#[test]
fn front_panel_failures_are_classified() {
    let ok = I2cRecoveryReport {
        sda_released: true,
        scl_released: true,
        sda_initial: true,
        scl_initial: true,
        sda_final: true,
        scl_final: true,
    };
    assert_eq!(front_panel_failure_classification(ok, 0b0000_0110), "front_tca_only_offline");
    assert_eq!(front_panel_failure_classification(ok, 0b0000_0001), "shared_i2c_offline_or_power");
    let stuck = I2cRecoveryReport { sda_final: false, ..ok };
    assert_eq!(front_panel_failure_classification(stuck, 0b0000_0110), "bus_stuck_after_clear");
}
