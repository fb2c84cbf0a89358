//! The Wi-Fi station loop's decisions, as a state machine that the runtime
//! drives: it performs the operation the machine asks for (stop, configure,
//! start, connect, poll for an IPv4 configuration, wait, reload the stored
//! credentials, disconnect) and hands the outcome back as an event. Without
//! credentials the link idles until an apply request; a failed setup or
//! connect waits ten seconds (or for an apply request) before retrying; the
//! address is polled up to thirty times half a second apart before the link
//! is reported as failed; a lost link waits five seconds; an apply request
//! always reloads the credentials and restarts.
use vstd::prelude::*;
use crate::network::{be_u32, build_ipv4_config, prefix_mask};
use crate::provisioning::WifiCredentials;

verus! {

/// How many times the address is polled before the link is reported failed.
pub const DHCP_MAX_RETRIES: u8 = 30;

#[derive(Clone, Copy, Debug, PartialEq, Eq, Structural)]
pub enum WifiConnectionState {
    Idle,
    Connecting,
    Connected,
    Error,
}

#[derive(Clone, Copy, Debug, PartialEq, Eq, Structural)]
pub enum WifiErrorKind {
    ConnectFailed,
    DhcpTimeout,
    LinkLost,
}

/// The Wi-Fi state shared with the dashboard and the HTTP API.
#[derive(Clone, Copy, Debug)]
pub struct WifiState {
    pub state: WifiConnectionState,
    pub ipv4: Option<[u8; 4]>,
    pub gateway: Option<[u8; 4]>,
    pub is_static: bool,
    pub last_error: Option<WifiErrorKind>,
    pub mac: Option<[u8; 6]>,
}

impl WifiState {
    pub open spec fn initial() -> WifiState {
        WifiState {
            state: WifiConnectionState::Idle,
            ipv4: None,
            gateway: None,
            is_static: false,
            last_error: None,
            mac: None,
        }
    }

    pub fn new() -> (s: Self)
        ensures
            s == WifiState::initial(),
    {
        WifiState {
            state: WifiConnectionState::Idle,
            ipv4: None,
            gateway: None,
            is_static: false,
            last_error: None,
            mac: None,
        }
    }
}

/// Where the loop stands: each phase waits for the outcome of one operation.
#[derive(Clone, Copy, Debug, PartialEq, Eq, Structural)]
pub enum WifiPhase {
    /// No credentials: waiting for an apply request.
    Unconfigured,
    /// Stopping the radio (when it runs) before reconfiguring it.
    Stopping,
    /// The stop failed: waiting two seconds or for an apply request.
    StopBackoff,
    /// Setting the client configuration.
    Configuring,
    /// Starting the station.
    Starting,
    /// Setup failed: waiting ten seconds or for an apply request.
    SetupBackoff,
    /// Connecting to the access point.
    Connecting,
    /// The connect failed: waiting ten seconds or for an apply request.
    ConnectBackoff,
    /// Reloading the credentials before the pause that ends a round.
    ReloadThenPause,
    /// Polling for the IPv4 configuration after `retries` waits.
    PollIp { retries: u8 },
    /// Waiting half a second before poll number `retries`.
    IpRetryWait { retries: u8 },
    /// The polls ran out: one last look at the configuration.
    IpFinalCheck,
    /// No address: waiting five seconds or for an apply request.
    IpTimeoutWait,
    /// The link is up: waiting for it to drop or for an apply request.
    Up,
    /// The link dropped: reloading the credentials.
    ReloadThenLinkWait,
    /// The link dropped: waiting five seconds or for an apply request.
    LinkLostWait,
    /// Disconnecting, then starting over.
    DisconnectThenRestart,
    /// Disconnecting, then pausing before starting over.
    DisconnectThenPause,
    /// The short pause that ends a round.
    Pausing,
}

/// What the machine asks the runtime to do next.
#[derive(Clone, Copy, Debug, PartialEq, Eq, Structural)]
pub enum WifiOp {
    /// Stop the radio if it runs, then wait for an apply request.
    IdleUntilApply,
    /// Set the IPv4 plan of the state's credentials, then stop the radio if
    /// it runs; reports `StopDone`.
    Reconfigure,
    /// Set the client configuration from the state's credentials; reports
    /// `ConfigDone`.
    Configure,
    /// Start the station; reports `StartDone`.
    Start,
    /// Connect; reports `ConnectDone`.
    Connect,
    /// Look at the IPv4 configuration; reports `IpPoll`.
    PollIp,
    /// Wait `ms` milliseconds (reports `Timer`), or less when an apply
    /// request comes first and `until_apply` holds (reports `Apply`).
    Wait { ms: u32, until_apply: bool },
    /// Wait for the link to drop (`LinkLost`) or an apply request.
    WaitLinkLoss,
    /// Read the stored credentials; reports `Credentials`.
    ReloadCredentials,
    /// Disconnect, whatever the outcome; reports `Disconnected`.
    Disconnect,
}

/// The outcome of an operation.
#[derive(Clone, Copy, Debug)]
pub enum WifiEvent {
    Timer,
    /// An apply request, with the stored credentials read at that moment.
    Apply(Option<WifiCredentials>),
    Credentials(Option<WifiCredentials>),
    StopDone(bool),
    ConfigDone(bool),
    StartDone(bool),
    ConnectDone(bool),
    /// Whether the IPv4 configuration is up, and its address and gateway
    /// (the unspecified address when there is none) when it can be read.
    IpPoll { up: bool, addr: Option<([u8; 4], [u8; 4])> },
    LinkLost,
    Disconnected,
}

/// The loop's state: its phase, the credentials in use, whether their IPv4
/// configuration is static, the station's MAC address, and what it publishes.
#[derive(Clone, Copy, Debug)]
pub struct WifiLoopState {
    pub phase: WifiPhase,
    pub credentials: Option<WifiCredentials>,
    pub is_static_ip: bool,
    pub mac: [u8; 6],
    pub published: WifiState,
}

impl WifiLoopState {
    /// The retry count stays within the limit.
    pub open spec fn wf(self) -> bool {
        match self.phase {
            WifiPhase::PollIp { retries } => retries <= DHCP_MAX_RETRIES,
            WifiPhase::IpRetryWait { retries } => 1 <= retries <= DHCP_MAX_RETRIES,
            _ => true,
        }
    }
}

/// The stored credentials carry a static IPv4 configuration whose netmask
/// is a valid one.
pub open spec fn spec_static_ip(credentials: Option<WifiCredentials>) -> bool {
    credentials matches Some(c) && c@.static_ipv4 matches Some(s) && exists|p: nat|
        p <= 32 && #[trigger] prefix_mask(p) == be_u32(s.netmask)
}

/// Whether the credentials' IPv4 plan is static.
pub fn static_ip_in_use(credentials: Option<WifiCredentials>) -> (b: bool)
    ensures
        b == spec_static_ip(credentials),
{
    let r = build_ipv4_config(credentials.as_ref());
    proof {
        match r.0 {
            crate::network::Ipv4Plan::Static { prefix, .. } => {
                let c = credentials->0;
                let s = c@.static_ipv4->0;
                assert(prefix as nat <= 32 && prefix_mask(prefix as nat) == be_u32(s.netmask));
            },
            crate::network::Ipv4Plan::Dhcp => {},
        }
    }
    r.1
}

/// The operation each phase waits on.
pub open spec fn phase_op(p: WifiPhase) -> WifiOp {
    match p {
        WifiPhase::Unconfigured => WifiOp::IdleUntilApply,
        WifiPhase::Stopping => WifiOp::Reconfigure,
        WifiPhase::StopBackoff => WifiOp::Wait { ms: 2000, until_apply: true },
        WifiPhase::Configuring => WifiOp::Configure,
        WifiPhase::Starting => WifiOp::Start,
        WifiPhase::SetupBackoff => WifiOp::Wait { ms: 10_000, until_apply: true },
        WifiPhase::Connecting => WifiOp::Connect,
        WifiPhase::ConnectBackoff => WifiOp::Wait { ms: 10_000, until_apply: true },
        WifiPhase::ReloadThenPause => WifiOp::ReloadCredentials,
        WifiPhase::PollIp { .. } => WifiOp::PollIp,
        WifiPhase::IpRetryWait { .. } => WifiOp::Wait { ms: 500, until_apply: true },
        WifiPhase::IpFinalCheck => WifiOp::PollIp,
        WifiPhase::IpTimeoutWait => WifiOp::Wait { ms: 5000, until_apply: true },
        WifiPhase::Up => WifiOp::WaitLinkLoss,
        WifiPhase::ReloadThenLinkWait => WifiOp::ReloadCredentials,
        WifiPhase::LinkLostWait => WifiOp::Wait { ms: 5000, until_apply: true },
        WifiPhase::DisconnectThenRestart => WifiOp::Disconnect,
        WifiPhase::DisconnectThenPause => WifiOp::Disconnect,
        WifiPhase::Pausing => WifiOp::Wait { ms: 100, until_apply: false },
    }
}

fn op_of(p: WifiPhase) -> (op: WifiOp)
    ensures
        op == phase_op(p),
{
    match p {
        WifiPhase::Unconfigured => WifiOp::IdleUntilApply,
        WifiPhase::Stopping => WifiOp::Reconfigure,
        WifiPhase::StopBackoff => WifiOp::Wait { ms: 2000, until_apply: true },
        WifiPhase::Configuring => WifiOp::Configure,
        WifiPhase::Starting => WifiOp::Start,
        WifiPhase::SetupBackoff => WifiOp::Wait { ms: 10_000, until_apply: true },
        WifiPhase::Connecting => WifiOp::Connect,
        WifiPhase::ConnectBackoff => WifiOp::Wait { ms: 10_000, until_apply: true },
        WifiPhase::ReloadThenPause => WifiOp::ReloadCredentials,
        WifiPhase::PollIp { .. } => WifiOp::PollIp,
        WifiPhase::IpRetryWait { .. } => WifiOp::Wait { ms: 500, until_apply: true },
        WifiPhase::IpFinalCheck => WifiOp::PollIp,
        WifiPhase::IpTimeoutWait => WifiOp::Wait { ms: 5000, until_apply: true },
        WifiPhase::Up => WifiOp::WaitLinkLoss,
        WifiPhase::ReloadThenLinkWait => WifiOp::ReloadCredentials,
        WifiPhase::LinkLostWait => WifiOp::Wait { ms: 5000, until_apply: true },
        WifiPhase::DisconnectThenRestart => WifiOp::Disconnect,
        WifiPhase::DisconnectThenPause => WifiOp::Disconnect,
        WifiPhase::Pausing => WifiOp::Wait { ms: 100, until_apply: false },
    }
}

/// The start of a round with the state's credentials: without them the
/// state is published as idle (no address, no error) and the loop waits for
/// an apply request; with them it is published as connecting and the radio
/// is reconfigured.
pub open spec fn spec_restart(s: WifiLoopState) -> WifiLoopState {
    match s.credentials {
        None => WifiLoopState {
            phase: WifiPhase::Unconfigured,
            published: WifiState {
                state: WifiConnectionState::Idle,
                ipv4: None,
                gateway: None,
                is_static: false,
                last_error: None,
                mac: Some(s.mac),
            },
            ..s
        },
        Some(_) => WifiLoopState {
            phase: WifiPhase::Stopping,
            is_static_ip: spec_static_ip(s.credentials),
            published: WifiState {
                state: WifiConnectionState::Connecting,
                ipv4: None,
                gateway: None,
                last_error: None,
                mac: Some(s.mac),
                ..s.published
            },
            ..s
        },
    }
}

/// A failure published with its kind, and the phase that follows.
pub open spec fn spec_fail(s: WifiLoopState, kind: WifiErrorKind, next: WifiPhase) -> WifiLoopState {
    WifiLoopState {
        phase: next,
        published: WifiState {
            state: WifiConnectionState::Error,
            last_error: Some(kind),
            ..s.published
        },
        ..s
    }
}

/// The link is up: its address and gateway are published when they could
/// be read.
pub open spec fn spec_link_up(s: WifiLoopState, addr: Option<([u8; 4], [u8; 4])>) -> WifiLoopState {
    match addr {
        Some((ip, gw)) => WifiLoopState {
            phase: WifiPhase::Up,
            published: WifiState {
                state: WifiConnectionState::Connected,
                ipv4: Some(ip),
                gateway: Some(gw),
                is_static: s.is_static_ip,
                last_error: None,
                mac: Some(s.mac),
            },
            ..s
        },
        None => WifiLoopState { phase: WifiPhase::Up, ..s },
    }
}

pub open spec fn with_phase(s: WifiLoopState, p: WifiPhase) -> WifiLoopState {
    WifiLoopState { phase: p, ..s }
}

pub open spec fn with_credentials(s: WifiLoopState, c: Option<WifiCredentials>) -> WifiLoopState {
    WifiLoopState { credentials: c, ..s }
}

/// The next state for an event; an event the phase does not wait for
/// changes nothing.
pub open spec fn spec_wifi_next(s: WifiLoopState, e: WifiEvent) -> WifiLoopState {
    match (s.phase, e) {
        (WifiPhase::Unconfigured, WifiEvent::Apply(c)) => spec_restart(with_credentials(s, c)),
        (WifiPhase::Stopping, WifiEvent::StopDone(ok)) => if ok {
            with_phase(s, WifiPhase::Configuring)
        } else {
            with_phase(s, WifiPhase::StopBackoff)
        },
        (WifiPhase::StopBackoff, WifiEvent::Timer) => spec_restart(s),
        (WifiPhase::StopBackoff, WifiEvent::Apply(c)) => spec_restart(with_credentials(s, c)),
        (WifiPhase::Configuring, WifiEvent::ConfigDone(ok)) => if ok {
            with_phase(s, WifiPhase::Starting)
        } else {
            spec_fail(s, WifiErrorKind::ConnectFailed, WifiPhase::SetupBackoff)
        },
        (WifiPhase::Starting, WifiEvent::StartDone(ok)) => if ok {
            with_phase(s, WifiPhase::Connecting)
        } else {
            spec_fail(s, WifiErrorKind::ConnectFailed, WifiPhase::SetupBackoff)
        },
        (WifiPhase::SetupBackoff, WifiEvent::Timer) => spec_restart(s),
        (WifiPhase::SetupBackoff, WifiEvent::Apply(c)) => spec_restart(with_credentials(s, c)),
        (WifiPhase::Connecting, WifiEvent::ConnectDone(ok)) => if ok {
            with_phase(s, WifiPhase::PollIp { retries: 0 })
        } else {
            spec_fail(s, WifiErrorKind::ConnectFailed, WifiPhase::ConnectBackoff)
        },
        (WifiPhase::ConnectBackoff, WifiEvent::Timer) => with_phase(s, WifiPhase::ReloadThenPause),
        (WifiPhase::ConnectBackoff, WifiEvent::Apply(c)) => with_phase(
            with_credentials(s, c),
            WifiPhase::Pausing,
        ),
        (WifiPhase::ReloadThenPause, WifiEvent::Credentials(c)) => with_phase(
            with_credentials(s, c),
            WifiPhase::Pausing,
        ),
        (WifiPhase::PollIp { retries }, WifiEvent::IpPoll { up, addr }) => if up {
            spec_link_up(s, addr)
        } else if retries >= DHCP_MAX_RETRIES {
            spec_fail(s, WifiErrorKind::DhcpTimeout, WifiPhase::IpFinalCheck)
        } else {
            with_phase(s, WifiPhase::IpRetryWait { retries: (retries + 1) as u8 })
        },
        (WifiPhase::IpRetryWait { retries }, WifiEvent::Timer) => with_phase(s, WifiPhase::PollIp { retries }),
        (WifiPhase::IpRetryWait { .. }, WifiEvent::Apply(c)) => with_phase(
            with_credentials(s, c),
            WifiPhase::DisconnectThenRestart,
        ),
        (WifiPhase::IpFinalCheck, WifiEvent::IpPoll { up, addr }) => if up {
            spec_link_up(s, addr)
        } else {
            with_phase(s, WifiPhase::IpTimeoutWait)
        },
        (WifiPhase::IpTimeoutWait, WifiEvent::Timer) => spec_restart(s),
        (WifiPhase::IpTimeoutWait, WifiEvent::Apply(c)) => with_phase(
            with_credentials(s, c),
            WifiPhase::DisconnectThenRestart,
        ),
        (WifiPhase::Up, WifiEvent::LinkLost) => spec_fail(s, WifiErrorKind::LinkLost, WifiPhase::ReloadThenLinkWait),
        (WifiPhase::Up, WifiEvent::Apply(c)) => with_phase(
            with_credentials(s, c),
            WifiPhase::DisconnectThenPause,
        ),
        (WifiPhase::ReloadThenLinkWait, WifiEvent::Credentials(c)) => with_phase(
            with_credentials(s, c),
            WifiPhase::LinkLostWait,
        ),
        (WifiPhase::LinkLostWait, WifiEvent::Timer) => with_phase(s, WifiPhase::Pausing),
        (WifiPhase::LinkLostWait, WifiEvent::Apply(c)) => spec_restart(with_credentials(s, c)),
        (WifiPhase::DisconnectThenRestart, WifiEvent::Disconnected) => spec_restart(s),
        (WifiPhase::DisconnectThenPause, WifiEvent::Disconnected) => with_phase(s, WifiPhase::Pausing),
        (WifiPhase::Pausing, WifiEvent::Timer) => spec_restart(s),
        _ => s,
    }
}

fn restart(s: WifiLoopState) -> (r: WifiLoopState)
    ensures
        r == spec_restart(s),
{
    match s.credentials {
        None => WifiLoopState {
            phase: WifiPhase::Unconfigured,
            published: WifiState {
                state: WifiConnectionState::Idle,
                ipv4: None,
                gateway: None,
                is_static: false,
                last_error: None,
                mac: Some(s.mac),
            },
            ..s
        },
        Some(_) => {
            let is_static_ip = static_ip_in_use(s.credentials);
            WifiLoopState {
                phase: WifiPhase::Stopping,
                is_static_ip,
                published: WifiState {
                    state: WifiConnectionState::Connecting,
                    ipv4: None,
                    gateway: None,
                    last_error: None,
                    mac: Some(s.mac),
                    ..s.published
                },
                ..s
            }
        },
    }
}

fn fail(s: WifiLoopState, kind: WifiErrorKind, next: WifiPhase) -> (r: WifiLoopState)
    ensures
        r == spec_fail(s, kind, next),
{
    WifiLoopState {
        phase: next,
        published: WifiState { state: WifiConnectionState::Error, last_error: Some(kind), ..s.published },
        ..s
    }
}

fn link_up(s: WifiLoopState, addr: Option<([u8; 4], [u8; 4])>) -> (r: WifiLoopState)
    ensures
        r == spec_link_up(s, addr),
{
    match addr {
        Some((ip, gw)) => WifiLoopState {
            phase: WifiPhase::Up,
            published: WifiState {
                state: WifiConnectionState::Connected,
                ipv4: Some(ip),
                gateway: Some(gw),
                is_static: s.is_static_ip,
                last_error: None,
                mac: Some(s.mac),
            },
            ..s
        },
        None => WifiLoopState { phase: WifiPhase::Up, ..s },
    }
}

fn next_state(s: WifiLoopState, e: WifiEvent) -> (r: WifiLoopState)
    ensures
        r == spec_wifi_next(s, e),
{
    match s.phase {
        WifiPhase::Unconfigured => match e {
            WifiEvent::Apply(c) => restart(WifiLoopState { credentials: c, ..s }),
            _ => s,
        },
        WifiPhase::Stopping => match e {
            WifiEvent::StopDone(ok) => if ok {
                WifiLoopState { phase: WifiPhase::Configuring, ..s }
            } else {
                WifiLoopState { phase: WifiPhase::StopBackoff, ..s }
            },
            _ => s,
        },
        WifiPhase::StopBackoff | WifiPhase::SetupBackoff => match e {
            WifiEvent::Timer => restart(s),
            WifiEvent::Apply(c) => restart(WifiLoopState { credentials: c, ..s }),
            _ => s,
        },
        WifiPhase::Configuring => match e {
            WifiEvent::ConfigDone(ok) => if ok {
                WifiLoopState { phase: WifiPhase::Starting, ..s }
            } else {
                fail(s, WifiErrorKind::ConnectFailed, WifiPhase::SetupBackoff)
            },
            _ => s,
        },
        WifiPhase::Starting => match e {
            WifiEvent::StartDone(ok) => if ok {
                WifiLoopState { phase: WifiPhase::Connecting, ..s }
            } else {
                fail(s, WifiErrorKind::ConnectFailed, WifiPhase::SetupBackoff)
            },
            _ => s,
        },
        WifiPhase::Connecting => match e {
            WifiEvent::ConnectDone(ok) => if ok {
                WifiLoopState { phase: WifiPhase::PollIp { retries: 0 }, ..s }
            } else {
                fail(s, WifiErrorKind::ConnectFailed, WifiPhase::ConnectBackoff)
            },
            _ => s,
        },
        WifiPhase::ConnectBackoff => match e {
            WifiEvent::Timer => WifiLoopState { phase: WifiPhase::ReloadThenPause, ..s },
            WifiEvent::Apply(c) => WifiLoopState { phase: WifiPhase::Pausing, credentials: c, ..s },
            _ => s,
        },
        WifiPhase::ReloadThenPause => match e {
            WifiEvent::Credentials(c) => WifiLoopState { phase: WifiPhase::Pausing, credentials: c, ..s },
            _ => s,
        },
        WifiPhase::PollIp { retries } => match e {
            WifiEvent::IpPoll { up, addr } => if up {
                link_up(s, addr)
            } else if retries >= DHCP_MAX_RETRIES {
                fail(s, WifiErrorKind::DhcpTimeout, WifiPhase::IpFinalCheck)
            } else {
                WifiLoopState { phase: WifiPhase::IpRetryWait { retries: retries + 1 }, ..s }
            },
            _ => s,
        },
        WifiPhase::IpRetryWait { retries } => match e {
            WifiEvent::Timer => WifiLoopState { phase: WifiPhase::PollIp { retries }, ..s },
            WifiEvent::Apply(c) => WifiLoopState {
                phase: WifiPhase::DisconnectThenRestart,
                credentials: c,
                ..s
            },
            _ => s,
        },
        WifiPhase::IpFinalCheck => match e {
            WifiEvent::IpPoll { up, addr } => if up {
                link_up(s, addr)
            } else {
                WifiLoopState { phase: WifiPhase::IpTimeoutWait, ..s }
            },
            _ => s,
        },
        WifiPhase::IpTimeoutWait => match e {
            WifiEvent::Timer => restart(s),
            WifiEvent::Apply(c) => WifiLoopState {
                phase: WifiPhase::DisconnectThenRestart,
                credentials: c,
                ..s
            },
            _ => s,
        },
        WifiPhase::Up => match e {
            WifiEvent::LinkLost => fail(s, WifiErrorKind::LinkLost, WifiPhase::ReloadThenLinkWait),
            WifiEvent::Apply(c) => WifiLoopState {
                phase: WifiPhase::DisconnectThenPause,
                credentials: c,
                ..s
            },
            _ => s,
        },
        WifiPhase::ReloadThenLinkWait => match e {
            WifiEvent::Credentials(c) => WifiLoopState {
                phase: WifiPhase::LinkLostWait,
                credentials: c,
                ..s
            },
            _ => s,
        },
        WifiPhase::LinkLostWait => match e {
            WifiEvent::Timer => WifiLoopState { phase: WifiPhase::Pausing, ..s },
            WifiEvent::Apply(c) => restart(WifiLoopState { credentials: c, ..s }),
            _ => s,
        },
        WifiPhase::DisconnectThenRestart => match e {
            WifiEvent::Disconnected => restart(s),
            _ => s,
        },
        WifiPhase::DisconnectThenPause => match e {
            WifiEvent::Disconnected => WifiLoopState { phase: WifiPhase::Pausing, ..s },
            _ => s,
        },
        WifiPhase::Pausing => match e {
            WifiEvent::Timer => restart(s),
            _ => s,
        },
    }
}

/// The loop's first state and operation: a round starts with the
/// credentials read at boot, from the initial published state.
pub fn wifi_start(credentials: Option<WifiCredentials>, mac: [u8; 6]) -> (r: (WifiLoopState, WifiOp))
    ensures
        r.0 == spec_restart(
            WifiLoopState {
                phase: WifiPhase::Unconfigured,
                credentials,
                is_static_ip: false,
                mac,
                published: WifiState::initial(),
            },
        ),
        r.0.wf(),
        r.1 == phase_op(r.0.phase),
{
    let s = restart(
        WifiLoopState {
            phase: WifiPhase::Unconfigured,
            credentials,
            is_static_ip: false,
            mac,
            published: WifiState::new(),
        },
    );
    (s, op_of(s.phase))
}

/// One transition: the next state for the outcome `e`, and the operation
/// that state waits on.
pub fn wifi_step(s: WifiLoopState, e: WifiEvent) -> (r: (WifiLoopState, WifiOp))
    ensures
        r.0 == spec_wifi_next(s, e),
        r.1 == phase_op(r.0.phase),
        s.wf() ==> r.0.wf(),
{
    let n = next_state(s, e);
    (n, op_of(n.phase))
}

/// Without credentials a round publishes the idle state (no address, no
/// error) and only waits for an apply request; with them it publishes
/// "connecting" and reconfigures the radio.
pub proof fn lemma_restart_by_credentials(s: WifiLoopState)
    ensures
        s.credentials is None ==> {
            &&& spec_restart(s).published.state == WifiConnectionState::Idle
            &&& spec_restart(s).published.ipv4 is None
            &&& spec_restart(s).published.last_error is None
            &&& phase_op(spec_restart(s).phase) == WifiOp::IdleUntilApply
        },
        s.credentials is Some ==> {
            &&& spec_restart(s).published.state == WifiConnectionState::Connecting
            &&& spec_restart(s).published.ipv4 is None
            &&& phase_op(spec_restart(s).phase) == WifiOp::Reconfigure
        },
        spec_restart(s).credentials == s.credentials,
{
}

/// A failed configuration, start or connect publishes the error as a failed
/// connect and waits ten seconds, or less when an apply request comes.
pub proof fn lemma_setup_failure_backs_off(s: WifiLoopState, e: WifiEvent)
    requires
        (s.phase == WifiPhase::Configuring && e == WifiEvent::ConfigDone(false))
            || (s.phase == WifiPhase::Starting && e == WifiEvent::StartDone(false))
            || (s.phase == WifiPhase::Connecting && e == WifiEvent::ConnectDone(false)),
    ensures
        spec_wifi_next(s, e).published.state == WifiConnectionState::Error,
        spec_wifi_next(s, e).published.last_error == Some(WifiErrorKind::ConnectFailed),
        phase_op(spec_wifi_next(s, e).phase) == (WifiOp::Wait { ms: 10_000, until_apply: true }),
{
}

/// The address is polled at most thirty-one times: after each poll that
/// finds no configuration the loop waits half a second and counts the wait,
/// and when thirty waits have passed it reports the DHCP timeout instead.
pub proof fn lemma_dhcp_polls_are_bounded(s: WifiLoopState, retries: u8)
    requires
        s.phase == (WifiPhase::PollIp { retries }),
        retries <= DHCP_MAX_RETRIES,
    ensures
        ({
            let n = spec_wifi_next(s, WifiEvent::IpPoll { up: false, addr: None });
            &&& retries < DHCP_MAX_RETRIES ==> n.phase == (WifiPhase::IpRetryWait {
                retries: (retries + 1) as u8,
            }) && phase_op(n.phase) == (WifiOp::Wait { ms: 500, until_apply: true })
                && n.published == s.published
            &&& retries == DHCP_MAX_RETRIES ==> n.published.state == WifiConnectionState::Error
                && n.published.last_error == Some(WifiErrorKind::DhcpTimeout)
        }),
{
}

/// Every transition keeps the retry count within the limit.
pub proof fn lemma_wifi_step_keeps_retry_bound(s: WifiLoopState, e: WifiEvent)
    requires
        s.wf(),
    ensures
        spec_wifi_next(s, e).wf(),
{
}

/// An apply request, in any phase that listens for one, adopts the
/// credentials read with it.
pub proof fn lemma_apply_adopts_credentials(s: WifiLoopState, c: Option<WifiCredentials>)
    requires
        phase_op(s.phase) == WifiOp::IdleUntilApply || phase_op(s.phase) == WifiOp::WaitLinkLoss
            || (phase_op(s.phase) is Wait && phase_op(s.phase)->until_apply),
    ensures
        spec_wifi_next(s, WifiEvent::Apply(c)).credentials == c,
{
}

/// A link that comes up with a readable address publishes it as connected,
/// with no error and the static flag of the credentials in use.
pub proof fn lemma_link_up_publishes_address(s: WifiLoopState, ip: [u8; 4], gw: [u8; 4])
    requires
        s.phase is PollIp || s.phase == WifiPhase::IpFinalCheck,
    ensures
        ({
            let n = spec_wifi_next(s, WifiEvent::IpPoll { up: true, addr: Some((ip, gw)) });
            &&& n.phase == WifiPhase::Up
            &&& n.published.state == WifiConnectionState::Connected
            &&& n.published.ipv4 == Some(ip)
            &&& n.published.gateway == Some(gw)
            &&& n.published.is_static == s.is_static_ip
            &&& n.published.last_error is None
        }),
{
}

} // verus!
