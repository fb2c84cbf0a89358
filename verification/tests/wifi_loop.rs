use iso_usb_hub::provisioning::{StaticIpv4Config, WifiCredentials};
use iso_usb_hub::wifi_loop::{
    static_ip_in_use, wifi_start, wifi_step, WifiConnectionState, WifiErrorKind, WifiEvent, WifiLoopState,
    WifiOp, WifiPhase, WifiState,
};

const MAC: [u8; 6] = [0x02, 0xaa, 0xbb, 0xcc, 0xdd, 0xee];

fn creds() -> WifiCredentials {
    WifiCredentials::new("lab", "secret-pass").ok().expect("credentials")
}

fn static_creds() -> WifiCredentials {
    creds().with_static_ipv4(StaticIpv4Config {
        address: [192, 168, 1, 50],
        netmask: [255, 255, 255, 0],
        gateway: [192, 168, 1, 1],
        dns: None,
    })
}

fn step(s: WifiLoopState, e: WifiEvent) -> (WifiLoopState, WifiOp) {
    wifi_step(s, e)
}

#[test]
fn initial_published_state_is_idle_without_mac() {
    let w = WifiState::new();
    assert_eq!(w.state, WifiConnectionState::Idle);
    assert_eq!(w.ipv4, None);
    assert_eq!(w.mac, None);
}

#[test]
fn without_credentials_the_link_idles_until_apply() {
    let (s, op) = wifi_start(None, MAC);
    assert_eq!(op, WifiOp::IdleUntilApply);
    assert_eq!(s.phase, WifiPhase::Unconfigured);
    assert_eq!(s.published.state, WifiConnectionState::Idle);
    assert_eq!(s.published.mac, Some(MAC));
    // A timer does not wake it; an apply request with credentials does.
    let (s2, op2) = step(s, WifiEvent::Timer);
    assert_eq!(s2.phase, WifiPhase::Unconfigured);
    assert_eq!(op2, WifiOp::IdleUntilApply);
    let (s3, op3) = step(s2, WifiEvent::Apply(Some(creds())));
    assert_eq!(op3, WifiOp::Reconfigure);
    assert_eq!(s3.published.state, WifiConnectionState::Connecting);
    assert_eq!(s3.credentials, Some(creds()));
}

#[test]
fn full_connect_publishes_the_address() {
    let (s, op) = wifi_start(Some(static_creds()), MAC);
    assert_eq!(op, WifiOp::Reconfigure);
    assert!(s.is_static_ip);
    let (s, op) = step(s, WifiEvent::StopDone(true));
    assert_eq!(op, WifiOp::Configure);
    let (s, op) = step(s, WifiEvent::ConfigDone(true));
    assert_eq!(op, WifiOp::Start);
    let (s, op) = step(s, WifiEvent::StartDone(true));
    assert_eq!(op, WifiOp::Connect);
    let (s, op) = step(s, WifiEvent::ConnectDone(true));
    assert_eq!(op, WifiOp::PollIp);
    assert_eq!(s.phase, WifiPhase::PollIp { retries: 0 });
    let (s, op) = step(s, WifiEvent::IpPoll { up: true, addr: Some(([192, 168, 1, 50], [192, 168, 1, 1])) });
    assert_eq!(op, WifiOp::WaitLinkLoss);
    assert_eq!(s.published.state, WifiConnectionState::Connected);
    assert_eq!(s.published.ipv4, Some([192, 168, 1, 50]));
    assert_eq!(s.published.gateway, Some([192, 168, 1, 1]));
    assert!(s.published.is_static);
    assert_eq!(s.published.last_error, None);
}

#[test]
fn setup_failure_waits_ten_seconds() {
    let (s, _) = wifi_start(Some(creds()), MAC);
    let (s, _) = step(s, WifiEvent::StopDone(true));
    let (s, op) = step(s, WifiEvent::ConfigDone(false));
    assert_eq!(op, WifiOp::Wait { ms: 10_000, until_apply: true });
    assert_eq!(s.published.state, WifiConnectionState::Error);
    assert_eq!(s.published.last_error, Some(WifiErrorKind::ConnectFailed));
    let (_, op) = step(s, WifiEvent::Timer);
    assert_eq!(op, WifiOp::Reconfigure);
}

#[test]
fn stop_failure_waits_two_seconds() {
    let (s, _) = wifi_start(Some(creds()), MAC);
    let (s, op) = step(s, WifiEvent::StopDone(false));
    assert_eq!(op, WifiOp::Wait { ms: 2000, until_apply: true });
    let (s, op) = step(s, WifiEvent::Apply(None));
    assert_eq!(op, WifiOp::IdleUntilApply);
    assert_eq!(s.published.state, WifiConnectionState::Idle);
}

#[test]
fn connect_failure_reloads_then_pauses() {
    let (s, _) = wifi_start(Some(creds()), MAC);
    let (s, _) = step(s, WifiEvent::StopDone(true));
    let (s, _) = step(s, WifiEvent::ConfigDone(true));
    let (s, op) = step(s, WifiEvent::StartDone(false));
    assert_eq!(op, WifiOp::Wait { ms: 10_000, until_apply: true });
    assert_eq!(s.phase, WifiPhase::SetupBackoff);
    let (s, _) = step(s, WifiEvent::Timer);
    let (s, _) = step(s, WifiEvent::StopDone(true));
    let (s, _) = step(s, WifiEvent::ConfigDone(true));
    let (s, _) = step(s, WifiEvent::StartDone(true));
    let (s, op) = step(s, WifiEvent::ConnectDone(false));
    assert_eq!(op, WifiOp::Wait { ms: 10_000, until_apply: true });
    let (s, op) = step(s, WifiEvent::Timer);
    assert_eq!(op, WifiOp::ReloadCredentials);
    let (s, op) = step(s, WifiEvent::Credentials(None));
    assert_eq!(op, WifiOp::Wait { ms: 100, until_apply: false });
    let (s, op) = step(s, WifiEvent::Timer);
    assert_eq!(op, WifiOp::IdleUntilApply);
    assert_eq!(s.published.state, WifiConnectionState::Idle);
}

#[test]
fn dhcp_gives_up_after_thirty_waits() {
    let (s, _) = wifi_start(Some(creds()), MAC);
    let (s, _) = step(s, WifiEvent::StopDone(true));
    let (s, _) = step(s, WifiEvent::ConfigDone(true));
    let (s, _) = step(s, WifiEvent::StartDone(true));
    let (mut s, _) = step(s, WifiEvent::ConnectDone(true));
    let mut waits = 0;
    loop {
        let (n, op) = step(s, WifiEvent::IpPoll { up: false, addr: None });
        s = n;
        if op != (WifiOp::Wait { ms: 500, until_apply: true }) {
            assert_eq!(op, WifiOp::PollIp);
            break;
        }
        waits += 1;
        let (n, op) = step(s, WifiEvent::Timer);
        assert_eq!(op, WifiOp::PollIp);
        s = n;
    }
    assert_eq!(waits, 30);
    assert_eq!(s.published.state, WifiConnectionState::Error);
    assert_eq!(s.published.last_error, Some(WifiErrorKind::DhcpTimeout));
    let (s, op) = step(s, WifiEvent::IpPoll { up: false, addr: None });
    assert_eq!(op, WifiOp::Wait { ms: 5000, until_apply: true });
    let (_, op) = step(s, WifiEvent::Timer);
    assert_eq!(op, WifiOp::Reconfigure);
}

#[test]
fn lost_link_reports_and_waits() {
    let (s, _) = wifi_start(Some(creds()), MAC);
    let (s, _) = step(s, WifiEvent::StopDone(true));
    let (s, _) = step(s, WifiEvent::ConfigDone(true));
    let (s, _) = step(s, WifiEvent::StartDone(true));
    let (s, _) = step(s, WifiEvent::ConnectDone(true));
    let (s, _) = step(s, WifiEvent::IpPoll { up: true, addr: Some(([10, 0, 0, 9], [10, 0, 0, 1])) });
    assert!(!s.published.is_static);
    let (s, op) = step(s, WifiEvent::LinkLost);
    assert_eq!(op, WifiOp::ReloadCredentials);
    assert_eq!(s.published.last_error, Some(WifiErrorKind::LinkLost));
    let (s, op) = step(s, WifiEvent::Credentials(Some(creds())));
    assert_eq!(op, WifiOp::Wait { ms: 5000, until_apply: true });
    let (s, op) = step(s, WifiEvent::Timer);
    assert_eq!(op, WifiOp::Wait { ms: 100, until_apply: false });
    let (_, op) = step(s, WifiEvent::Timer);
    assert_eq!(op, WifiOp::Reconfigure);
}

#[test]
fn apply_while_up_disconnects_and_restarts() {
    let (s, _) = wifi_start(Some(creds()), MAC);
    let (s, _) = step(s, WifiEvent::StopDone(true));
    let (s, _) = step(s, WifiEvent::ConfigDone(true));
    let (s, _) = step(s, WifiEvent::StartDone(true));
    let (s, _) = step(s, WifiEvent::ConnectDone(true));
    let (s, _) = step(s, WifiEvent::IpPoll { up: true, addr: None });
    assert_eq!(s.phase, WifiPhase::Up);
    assert_eq!(s.published.state, WifiConnectionState::Connecting);
    let (s, op) = step(s, WifiEvent::Apply(Some(static_creds())));
    assert_eq!(op, WifiOp::Disconnect);
    assert_eq!(s.credentials, Some(static_creds()));
    let (s, op) = step(s, WifiEvent::Disconnected);
    assert_eq!(op, WifiOp::Wait { ms: 100, until_apply: false });
    let (s, op) = step(s, WifiEvent::Timer);
    assert_eq!(op, WifiOp::Reconfigure);
    assert!(s.is_static_ip);
}

#[test]
fn static_flag_needs_a_valid_netmask() {
    assert!(!static_ip_in_use(None));
    assert!(!static_ip_in_use(Some(creds())));
    assert!(static_ip_in_use(Some(static_creds())));
    let bad = creds().with_static_ipv4(StaticIpv4Config {
        address: [192, 168, 1, 50],
        netmask: [255, 0, 255, 0],
        gateway: [192, 168, 1, 1],
        dns: None,
    });
    assert!(!static_ip_in_use(Some(bad)));
}
