//! The device contract: what the hub reports about itself, its ports and its
//! Wi-Fi link, rendered as JSON for the HTTP API and the USB JSON-lines
//! protocol.
use vstd::prelude::*;
use vstd::utf8::{decode_utf8, valid_utf8};
use crate::device_identity::{
    fqdn_from_hostname, hostname_from_short_id, mac_to_string, short_id_from_mac,
    spec_hostname, spec_mac_text, spec_short_id, DEVICE_VARIANT, FIRMWARE_NAME,
};
use crate::text::{
    bounded_push, dec_chars, decimal, emit, escape_groups, lemma_push_is_write,
    lemma_render_groups_append, lemma_render_groups_push, pieces_view, render_groups, str_eq,
    str_from_utf8, TextBuf,
};

verus! {

/// The canonical id of each port, in port order.
pub open spec fn canonical_port_id(index: int) -> Seq<char> {
    if index == 0 {
        "port1"@
    } else if index == 1 {
        "port2"@
    } else if index == 2 {
        "port3"@
    } else {
        "port4"@
    }
}

/// The port a canonical id names; legacy and unknown ids name none.
pub open spec fn spec_port_index_from_id(id: Seq<char>) -> Option<usize> {
    if id == "port1"@ {
        Some(0)
    } else if id == "port2"@ {
        Some(1)
    } else if id == "port3"@ {
        Some(2)
    } else if id == "port4"@ {
        Some(3)
    } else {
        None
    }
}

pub fn port_index_from_id(port_id: &str) -> (r: Option<usize>)
    ensures
        r == spec_port_index_from_id(port_id@),
{
    if str_eq(port_id, "port1") {
        Some(0)
    } else if str_eq(port_id, "port2") {
        Some(1)
    } else if str_eq(port_id, "port3") {
        Some(2)
    } else if str_eq(port_id, "port4") {
        Some(3)
    } else {
        None
    }
}

/// A canonical id names exactly the port whose id it is.
pub proof fn lemma_port_ids_round_trip(index: int)
    requires
        0 <= index < 4,
    ensures
        spec_port_index_from_id(canonical_port_id(index)) == Some(index as usize),
{
    reveal_strlit("port1");
    reveal_strlit("port2");
    reveal_strlit("port3");
    reveal_strlit("port4");
    assert("port1"@[4] == '1' && "port2"@[4] == '2' && "port3"@[4] == '3' && "port4"@[4] == '4');
}

pub const WIFI_STORAGE_KIND: &'static str = "eeprom";
pub const WIFI_STORAGE_ADDRESS: &'static str = "0x50";

#[derive(Clone, Copy, Debug, PartialEq, Eq, Structural)]
pub enum WifiState {
    Idle,
    Connecting,
    Connected,
    Failed,
}

impl WifiState {
    pub open spec fn spec_as_str(self) -> Seq<char> {
        match self {
            WifiState::Idle => "idle"@,
            WifiState::Connecting => "connecting"@,
            WifiState::Connected => "connected"@,
            WifiState::Failed => "error"@,
        }
    }

    pub fn as_str(self) -> (s: &'static str)
        ensures
            s@ == self.spec_as_str(),
    {
        match self {
            WifiState::Idle => "idle",
            WifiState::Connecting => "connecting",
            WifiState::Connected => "connected",
            WifiState::Failed => "error",
        }
    }
}

/// What the runtime knows of the Wi-Fi link. The SSID is held as up to 32
/// bytes in `ssid`, of which the first `ssid_len` count.
#[derive(Clone, Copy, Debug, PartialEq, Eq)]
pub struct WifiSnapshot {
    pub configured: bool,
    pub psk_configured: bool,
    pub state: WifiState,
    pub ipv4: Option<[u8; 4]>,
    pub is_static: bool,
    pub ssid: [u8; 32],
    pub ssid_len: u8,
}

/// The SSID as text: none when empty or not valid UTF-8.
pub open spec fn spec_wifi_ssid(w: WifiSnapshot) -> Option<Seq<char>> {
    let bytes = w.ssid@.subrange(0, w.ssid_len as int);
    if w.ssid_len == 0 {
        None
    } else if valid_utf8(bytes) {
        Some(decode_utf8(bytes))
    } else {
        None
    }
}

/// Nothing configured, idle, no address, empty SSID.
pub open spec fn is_disconnected(w: WifiSnapshot) -> bool {
    &&& !w.configured
    &&& !w.psk_configured
    &&& w.state == WifiState::Idle
    &&& w.ipv4 is None
    &&& !w.is_static
    &&& w.ssid@ == Seq::new(32, |i: int| 0u8)
    &&& w.ssid_len == 0
}

impl WifiSnapshot {
    pub fn disconnected() -> (w: Self)
        ensures
            is_disconnected(w),
    {
        let w = WifiSnapshot {
            configured: false,
            psk_configured: false,
            state: WifiState::Idle,
            ipv4: None,
            is_static: false,
            ssid: [0u8; 32],
            ssid_len: 0,
        };
        assert(w.ssid@ =~= Seq::new(32, |i: int| 0u8));
        w
    }

    /// The SSID as text, when there is one and it is valid UTF-8.
    pub fn ssid(&self) -> (r: Option<&str>)
        requires
            self.ssid_len <= 32,
        ensures
            r matches Some(s) ==> spec_wifi_ssid(*self) == Some(s@),
            r is None ==> spec_wifi_ssid(*self) is None,
    {
        if self.ssid_len == 0 {
            return None;
        }
        let bytes = vstd::slice::slice_subrange(
            vstd::array::array_as_slice(&self.ssid),
            0,
            self.ssid_len as usize,
        );
        str_from_utf8(bytes)
    }
}

#[derive(Clone, Copy, Debug, PartialEq, Eq, Structural)]
pub enum PortTelemetryStatus {
    Nominal,
    Off,
    NotInserted,
    Fault,
    Overcurrent,
}

impl PortTelemetryStatus {
    pub open spec fn spec_as_str(self) -> Seq<char> {
        match self {
            PortTelemetryStatus::Nominal => "ok"@,
            PortTelemetryStatus::Off => "off"@,
            PortTelemetryStatus::NotInserted => "not_inserted"@,
            PortTelemetryStatus::Fault => "error"@,
            PortTelemetryStatus::Overcurrent => "overrange"@,
        }
    }

    pub fn as_str(self) -> (s: &'static str)
        ensures
            s@ == self.spec_as_str(),
    {
        match self {
            PortTelemetryStatus::Nominal => "ok",
            PortTelemetryStatus::Off => "off",
            PortTelemetryStatus::NotInserted => "not_inserted",
            PortTelemetryStatus::Fault => "error",
            PortTelemetryStatus::Overcurrent => "overrange",
        }
    }
}

#[derive(Clone, Copy, Debug, PartialEq, Eq)]
pub struct PortSnapshot {
    pub label: &'static str,
    pub status: PortTelemetryStatus,
    pub voltage_mv: u32,
    pub current_ma: u32,
    pub power_enabled: bool,
    pub data_connected: bool,
    pub replugging: bool,
    pub busy: bool,
    pub overcurrent: bool,
}

#[derive(Clone, Copy, Debug, PartialEq, Eq, Structural)]
pub struct HubSnapshot {
    pub upstream_connected: bool,
    pub isolated_usb_fault: bool,
    pub isolated_downstream_connected: bool,
    pub isolated_usb_ready: bool,
}

#[derive(Clone, Copy, Debug, PartialEq, Eq)]
pub struct RuntimeSnapshot {
    pub mac: [u8; 6],
    pub uptime_ms: u64,
    pub wifi: WifiSnapshot,
    pub hub: HubSnapshot,
    pub ports: [PortSnapshot; 4],
}

pub open spec fn bool_text(v: bool) -> Seq<char> {
    if v {
        "true"@
    } else {
        "false"@
    }
}

pub(crate) fn bool_str(v: bool) -> (s: &'static str)
    ensures
        s@ == bool_text(v),
{
    if v {
        "true"
    } else {
        "false"
    }
}

/// `"a.b.c.d"`, or `null`.
pub open spec fn ipv4_groups(ipv4: Option<[u8; 4]>) -> Seq<Seq<Seq<char>>> {
    match ipv4 {
        None => seq![seq!["null"@]],
        Some(a) => seq![
            seq![
                "\""@,
                dec_chars(a[0] as nat),
                "."@,
                dec_chars(a[1] as nat),
                "."@,
                dec_chars(a[2] as nat),
                "."@,
                dec_chars(a[3] as nat),
                "\""@,
            ],
        ],
    }
}

/// A JSON string (control characters escaped), or `null`.
pub open spec fn string_or_null_groups(value: Option<Seq<char>>) -> Seq<Seq<Seq<char>>> {
    match value {
        None => seq![seq!["null"@]],
        Some(v) => seq![seq![seq!['"']]] + escape_groups(v, true) + seq![seq![seq!['"']]],
    }
}

fn write_ipv4_or_null(
    out: &mut TextBuf,
    ipv4: Option<[u8; 4]>,
    Ghost(start): Ghost<Seq<char>>,
    Ghost(done): Ghost<Seq<Seq<Seq<char>>>>,
)
    requires
        old(out)@ == render_groups(start, done, old(out).capacity()),
    ensures
        final(out).capacity() == old(out).capacity(),
        final(out)@ == render_groups(start, done + ipv4_groups(ipv4), old(out).capacity()),
{
    match ipv4 {
        None => {
            let v = vec!["null"];
            emit(out, &v, Ghost(start), Ghost(done));
            assert(done.push(pieces_view(v@)) =~~= done + ipv4_groups(ipv4));
        },
        Some(a) => {
            let d0 = decimal(a[0] as u64);
            let d1 = decimal(a[1] as u64);
            let d2 = decimal(a[2] as u64);
            let d3 = decimal(a[3] as u64);
            let v = vec!["\"", d0.as_str(), ".", d1.as_str(), ".", d2.as_str(), ".", d3.as_str(), "\""];
            emit(out, &v, Ghost(start), Ghost(done));
            assert(pieces_view(v@) =~= ipv4_groups(ipv4)[0]);
            assert(done.push(pieces_view(v@)) =~~= done + ipv4_groups(ipv4));
        },
    }
}

fn write_json_string_or_null(
    out: &mut TextBuf,
    value: Option<&str>,
    Ghost(start): Ghost<Seq<char>>,
    Ghost(done): Ghost<Seq<Seq<Seq<char>>>>,
)
    requires
        old(out)@ == render_groups(start, done, old(out).capacity()),
    ensures
        final(out).capacity() == old(out).capacity(),
        final(out)@ == render_groups(
            start,
            done + string_or_null_groups(
                match value {
                    Some(s) => Some(s@),
                    None => None,
                },
            ),
            old(out).capacity(),
        ),
{
    let cap = Ghost(out.capacity());
    match value {
        None => {
            let v = vec!["null"];
            emit(out, &v, Ghost(start), Ghost(done));
            assert(done.push(pieces_view(v@)) =~~= done + seq![seq!["null"@]]);
        },
        Some(s) => {
            let ghost quote = seq![seq!['"']];
            let ghost mid = out@;
            out.push('"');
            proof {
                lemma_push_is_write(mid, seq!['"'], cap@);
                lemma_render_groups_push(start, done, seq![seq!['"']], cap@);
            }
            let ghost d1 = done.push(seq![seq!['"']]);
            let ghost mid2 = out@;
            out.push_json_escaped(s, true);
            proof {
                lemma_render_groups_append(start, d1, escape_groups(s@, true), cap@);
            }
            let ghost d2 = d1 + escape_groups(s@, true);
            let ghost mid3 = out@;
            out.push('"');
            proof {
                lemma_push_is_write(mid3, seq!['"'], cap@);
                lemma_render_groups_push(start, d2, seq![seq!['"']], cap@);
                assert(d2.push(seq![seq!['"']]) =~= done + string_or_null_groups(Some(s@)));
            }
        },
    }
}

/// The canonical id of a port, or none past the last port.
fn canonical_port_id_str(index: usize) -> (r: Option<&'static str>)
    ensures
        index < 4 ==> (r matches Some(s) && s@ == canonical_port_id(index as int)),
        index >= 4 ==> r is None,
{
    if index == 0 {
        Some("port1")
    } else if index == 1 {
        Some("port2")
    } else if index == 2 {
        Some("port3")
    } else if index == 3 {
        Some("port4")
    } else {
        None
    }
}

/// `voltage * current / 1000`, the product saturating at `u32::MAX`.
pub open spec fn power_mw(port: PortSnapshot) -> nat {
    let p = port.voltage_mv * port.current_ma;
    (if p > u32::MAX { u32::MAX as int } else { p }) as nat / 1000
}

/// The JSON object of one port; nothing for an index past the last port.
pub open spec fn port_groups(uptime_ms: u64, index: int, port: PortSnapshot) -> Seq<Seq<Seq<char>>> {
    if 0 <= index < 4 {
        seq![
            seq![
                "{\"portId\":\""@,
                canonical_port_id(index),
                "\",\"label\":\""@,
                port.label@,
                "\",\"telemetry\":{\"status\":\""@,
                port.status.spec_as_str(),
                "\",\"voltage_mv\":"@,
                dec_chars(port.voltage_mv as nat),
                ",\"current_ma\":"@,
                dec_chars(port.current_ma as nat),
                ",\"power_mw\":"@,
                dec_chars(power_mw(port)),
                ",\"sample_uptime_ms\":"@,
                dec_chars(uptime_ms as nat),
                "},\"state\":{\"power_enabled\":"@,
                bool_text(port.power_enabled),
                ",\"data_connected\":"@,
                bool_text(port.data_connected),
                ",\"replugging\":"@,
                bool_text(port.replugging),
                ",\"busy\":"@,
                bool_text(port.busy),
                ",\"overcurrent\":"@,
                bool_text(port.overcurrent),
                "},\"capabilities\":{\"data_replug\":true,\"power_set\":true}}"@,
            ],
        ]
    } else {
        Seq::empty()
    }
}

fn write_port_json(
    out: &mut TextBuf,
    uptime_ms: u64,
    index: usize,
    port: PortSnapshot,
    Ghost(start): Ghost<Seq<char>>,
    Ghost(done): Ghost<Seq<Seq<Seq<char>>>>,
)
    requires
        old(out)@ == render_groups(start, done, old(out).capacity()),
    ensures
        final(out).capacity() == old(out).capacity(),
        final(out)@ == render_groups(
            start,
            done + port_groups(uptime_ms, index as int, port),
            old(out).capacity(),
        ),
{
    let port_id = match canonical_port_id_str(index) {
        Some(id) => id,
        None => {
            assert(done + port_groups(uptime_ms, index as int, port) =~= done);
            return ;
        },
    };
    assert((port.voltage_mv as u64) * (port.current_ma as u64) <= 0xffff_ffffu64 * 0xffff_ffffu64)
        by (nonlinear_arith)
        requires
            port.voltage_mv <= 0xffff_ffffu32,
            port.current_ma <= 0xffff_ffffu32,
    ;
    let product = (port.voltage_mv as u64) * (port.current_ma as u64);
    let saturated: u32 = if product > 0xffff_ffffu64 {
        0xffff_ffffu32
    } else {
        product as u32
    };
    let power = saturated / 1000;
    let v_mv = decimal(port.voltage_mv as u64);
    let c_ma = decimal(port.current_ma as u64);
    let p_mw = decimal(power as u64);
    let up = decimal(uptime_ms);
    let v = vec![
        "{\"portId\":\"",
        port_id,
        "\",\"label\":\"",
        port.label,
        "\",\"telemetry\":{\"status\":\"",
        port.status.as_str(),
        "\",\"voltage_mv\":",
        v_mv.as_str(),
        ",\"current_ma\":",
        c_ma.as_str(),
        ",\"power_mw\":",
        p_mw.as_str(),
        ",\"sample_uptime_ms\":",
        up.as_str(),
        "},\"state\":{\"power_enabled\":",
        bool_str(port.power_enabled),
        ",\"data_connected\":",
        bool_str(port.data_connected),
        ",\"replugging\":",
        bool_str(port.replugging),
        ",\"busy\":",
        bool_str(port.busy),
        ",\"overcurrent\":",
        bool_str(port.overcurrent),
        "},\"capabilities\":{\"data_replug\":true,\"power_set\":true}}",
    ];
    emit(out, &v, Ghost(start), Ghost(done));
    assert(pieces_view(v@) =~= port_groups(uptime_ms, index as int, port)[0]);
    assert(done.push(pieces_view(v@)) =~= done + port_groups(uptime_ms, index as int, port));
}

/// The `info` result: identity made from the MAC, firmware, uptime and the
/// Wi-Fi link.
pub open spec fn info_groups(s: RuntimeSnapshot, version: Seq<char>) -> Seq<Seq<Seq<char>>> {
    let short_id = spec_short_id(s.mac@);
    let hostname = spec_hostname(short_id);
    let fqdn = bounded_push(bounded_push(Seq::empty(), hostname, 48), ".local"@, 48);
    seq![
        seq![
            "{\"device\":{\"device_id\":\""@,
            short_id,
            "\",\"hostname\":\""@,
            hostname,
            "\",\"fqdn\":\""@,
            fqdn,
            "\",\"mac\":\""@,
            spec_mac_text(s.mac@),
            "\",\"variant\":\""@,
            "v3"@,
            "\",\"firmware\":{\"name\":\""@,
            "iso-usb-hub"@,
            "\",\"version\":\""@,
            version,
            "\"},\"uptime_ms\":"@,
            dec_chars(s.uptime_ms as nat),
            ",\"wifi\":{\"state\":\""@,
            s.wifi.state.spec_as_str(),
            "\",\"ipv4\":"@,
        ],
    ] + ipv4_groups(s.wifi.ipv4) + seq![
        seq![",\"is_static\":"@],
        seq![bool_text(s.wifi.is_static)],
        seq!["}}}"@],
    ]
}

/// Renders the `info` result into 1536 bytes.
pub fn render_info_result(snapshot: RuntimeSnapshot, version: &str) -> (r: TextBuf)
    ensures
        r.capacity() == 1536,
        r@ == render_groups(Seq::empty(), info_groups(snapshot, version@), 1536),
{
    let mut out = TextBuf::with_capacity(1536);
    let ghost start = out@;
    let short_id = short_id_from_mac(snapshot.mac);
    let hostname = hostname_from_short_id(short_id.as_str());
    let fqdn = fqdn_from_hostname(hostname.as_str());
    let mac = mac_to_string(snapshot.mac);
    let up = decimal(snapshot.uptime_ms);
    let v = vec![
        "{\"device\":{\"device_id\":\"",
        short_id.as_str(),
        "\",\"hostname\":\"",
        hostname.as_str(),
        "\",\"fqdn\":\"",
        fqdn.as_str(),
        "\",\"mac\":\"",
        mac.as_str(),
        "\",\"variant\":\"",
        DEVICE_VARIANT,
        "\",\"firmware\":{\"name\":\"",
        FIRMWARE_NAME,
        "\",\"version\":\"",
        version,
        "\"},\"uptime_ms\":",
        up.as_str(),
        ",\"wifi\":{\"state\":\"",
        snapshot.wifi.state.as_str(),
        "\",\"ipv4\":",
    ];
    let ghost g0: Seq<Seq<Seq<char>>> = Seq::empty();
    emit(&mut out, &v, Ghost(start), Ghost(g0));
    let ghost g1 = g0.push(pieces_view(v@));
    write_ipv4_or_null(&mut out, snapshot.wifi.ipv4, Ghost(start), Ghost(g1));
    let ghost g2 = g1 + ipv4_groups(snapshot.wifi.ipv4);
    let v = vec![",\"is_static\":"];
    emit(&mut out, &v, Ghost(start), Ghost(g2));
    let ghost g3 = g2.push(pieces_view(v@));
    let v = vec![bool_str(snapshot.wifi.is_static)];
    emit(&mut out, &v, Ghost(start), Ghost(g3));
    let ghost g4 = g3.push(pieces_view(v@));
    let v = vec!["}}}"];
    emit(&mut out, &v, Ghost(start), Ghost(g4));
    let ghost g5 = g4.push(pieces_view(v@));
    proof {
        assert(g5 =~~= info_groups(snapshot, version@));
    }
    out
}

/// The hub state, then each port's object, separated by commas.
pub open spec fn ports_groups(s: RuntimeSnapshot) -> Seq<Seq<Seq<char>>> {
    seq![
        seq![
            "{\"hub\":{\"upstream_connected\":"@,
            bool_text(s.hub.upstream_connected),
            ",\"isolated_usb_fault\":"@,
            bool_text(s.hub.isolated_usb_fault),
            ",\"isolated_downstream_connected\":"@,
            bool_text(s.hub.isolated_downstream_connected),
            ",\"isolated_usb_ready\":"@,
            bool_text(s.hub.isolated_usb_ready),
            "},\"ports\":["@,
        ],
    ] + port_list_groups(s, 4) + seq![seq!["]}"@]]
}

/// The objects of the first `k` ports, separated by commas.
pub open spec fn port_list_groups(s: RuntimeSnapshot, k: nat) -> Seq<Seq<Seq<char>>>
    decreases k,
{
    if k == 0 {
        Seq::empty()
    } else if k == 1 {
        port_groups(s.uptime_ms, 0, s.ports@[0])
    } else {
        port_list_groups(s, (k - 1) as nat) + seq![seq![seq![','] ]] + port_groups(
            s.uptime_ms,
            k - 1,
            s.ports@[k - 1],
        )
    }
}

/// Renders the `ports` result into 2048 bytes.
pub fn render_ports_result(snapshot: RuntimeSnapshot) -> (r: TextBuf)
    ensures
        r.capacity() == 2048,
        r@ == render_groups(Seq::empty(), ports_groups(snapshot), 2048),
{
    let mut out = TextBuf::with_capacity(2048);
    let ghost start = out@;
    let v = vec![
        "{\"hub\":{\"upstream_connected\":",
        bool_str(snapshot.hub.upstream_connected),
        ",\"isolated_usb_fault\":",
        bool_str(snapshot.hub.isolated_usb_fault),
        ",\"isolated_downstream_connected\":",
        bool_str(snapshot.hub.isolated_downstream_connected),
        ",\"isolated_usb_ready\":",
        bool_str(snapshot.hub.isolated_usb_ready),
        "},\"ports\":[",
    ];
    let ghost g0: Seq<Seq<Seq<char>>> = Seq::empty();
    emit(&mut out, &v, Ghost(start), Ghost(g0));
    let ghost head = g0.push(pieces_view(v@));
    let mut index: usize = 0;
    while index < 4
        invariant
            0 <= index <= 4,
            out.capacity() == 2048,
            out@ == render_groups(start, head + port_list_groups(snapshot, index as nat), 2048),
        decreases 4 - index,
    {
        let ghost done = head + port_list_groups(snapshot, index as nat);
        if index > 0 {
            let ghost before = out@;
            out.push(',');
            proof {
                lemma_push_is_write(before, seq![','], 2048);
                lemma_render_groups_push(start, done, seq![seq![',']], 2048);
            }
            let ghost d1 = done.push(seq![seq![',']]);
            write_port_json(&mut out, snapshot.uptime_ms, index, snapshot.ports[index], Ghost(start), Ghost(d1));
            proof {
                assert(d1 + port_groups(snapshot.uptime_ms, index as int, snapshot.ports@[index as int])
                    =~= head + port_list_groups(snapshot, (index + 1) as nat));
            }
        } else {
            write_port_json(&mut out, snapshot.uptime_ms, index, snapshot.ports[index], Ghost(start), Ghost(done));
            proof {
                assert(done + port_groups(snapshot.uptime_ms, 0, snapshot.ports@[0])
                    =~= head + port_list_groups(snapshot, 1));
            }
        }
        index = index + 1;
    }
    let ghost done = head + port_list_groups(snapshot, 4);
    let v = vec!["]}"];
    emit(&mut out, &v, Ghost(start), Ghost(done));
    proof {
        assert(done.push(pieces_view(v@)) =~~= ports_groups(snapshot));
    }
    out
}

/// Renders one port's object into 768 bytes; none past the last port.
pub fn render_port_result(snapshot: RuntimeSnapshot, index: usize) -> (r: Option<TextBuf>)
    ensures
        index >= 4 ==> r is None,
        index < 4 ==> (r matches Some(t) && t.capacity() == 768 && t@ == render_groups(
            Seq::empty(),
            port_groups(snapshot.uptime_ms, index as int, snapshot.ports@[index as int]),
            768,
        )),
{
    if index >= 4 {
        return None;
    }
    let mut out = TextBuf::with_capacity(768);
    let ghost start = out@;
    let ghost g0: Seq<Seq<Seq<char>>> = Seq::empty();
    write_port_json(&mut out, snapshot.uptime_ms, index, snapshot.ports[index], Ghost(start), Ghost(g0));
    proof {
        assert(g0 + port_groups(snapshot.uptime_ms, index as int, snapshot.ports@[index as int])
            =~= port_groups(snapshot.uptime_ms, index as int, snapshot.ports@[index as int]));
    }
    Some(out)
}

/// The `wifi` result: stored configuration and link state.
pub open spec fn wifi_groups(w: WifiSnapshot) -> Seq<Seq<Seq<char>>> {
    seq![
        seq![
            "{\"configured\":"@,
            bool_text(w.configured),
            ",\"storage\":\""@,
            "eeprom"@,
            "\",\"address\":\""@,
            "0x50"@,
            "\",\"ssid\":"@,
        ],
    ] + string_or_null_groups(spec_wifi_ssid(w)) + seq![
        seq![
            ",\"psk_configured\":"@,
            bool_text(w.psk_configured),
            ",\"state\":\""@,
            w.state.spec_as_str(),
            "\",\"ipv4\":"@,
        ],
    ] + ipv4_groups(w.ipv4) + seq![
        seq![",\"is_static\":"@],
        seq![bool_text(w.is_static)],
        seq![seq!['}']],
    ]
}

/// Renders the `wifi` result into 512 bytes.
pub fn render_wifi_result(wifi: WifiSnapshot) -> (r: TextBuf)
    requires
        wifi.ssid_len <= 32,
    ensures
        r.capacity() == 512,
        r@ == render_groups(Seq::empty(), wifi_groups(wifi), 512),
{
    let mut out = TextBuf::with_capacity(512);
    let ghost start = out@;
    let v = vec![
        "{\"configured\":",
        bool_str(wifi.configured),
        ",\"storage\":\"",
        WIFI_STORAGE_KIND,
        "\",\"address\":\"",
        WIFI_STORAGE_ADDRESS,
        "\",\"ssid\":",
    ];
    let ghost g0: Seq<Seq<Seq<char>>> = Seq::empty();
    emit(&mut out, &v, Ghost(start), Ghost(g0));
    let ghost g1 = g0.push(pieces_view(v@));
    let ssid = wifi.ssid();
    write_json_string_or_null(&mut out, ssid, Ghost(start), Ghost(g1));
    let ghost g2 = g1 + string_or_null_groups(spec_wifi_ssid(wifi));
    let v = vec![
        ",\"psk_configured\":",
        bool_str(wifi.psk_configured),
        ",\"state\":\"",
        wifi.state.as_str(),
        "\",\"ipv4\":",
    ];
    emit(&mut out, &v, Ghost(start), Ghost(g2));
    let ghost g3 = g2.push(pieces_view(v@));
    write_ipv4_or_null(&mut out, wifi.ipv4, Ghost(start), Ghost(g3));
    let ghost g4 = g3 + ipv4_groups(wifi.ipv4);
    let v = vec![",\"is_static\":"];
    emit(&mut out, &v, Ghost(start), Ghost(g4));
    let ghost g5 = g4.push(pieces_view(v@));
    let v = vec![bool_str(wifi.is_static)];
    emit(&mut out, &v, Ghost(start), Ghost(g5));
    let ghost g6 = g5.push(pieces_view(v@));
    let ghost before = out@;
    out.push('}');
    proof {
        lemma_push_is_write(before, seq!['}'], 512);
        lemma_render_groups_push(start, g6, seq![seq!['}']], 512);
        assert(g6.push(seq![seq!['}']]) =~~= wifi_groups(wifi));
    }
    out
}

} // verus!
