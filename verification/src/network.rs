//! The network runtime's decisions: the static or DHCP IPv4 plan from the
//! stored credentials, the Wi-Fi state it publishes, the device names, and
//! the small HTTP server (routing, CORS for local origins, reply headers).
use vstd::prelude::*;
use vstd::utf8::encode_utf8;
use crate::device_contract::{
    info_groups, is_disconnected, ports_groups, render_info_result, render_ports_result,
    render_wifi_result, wifi_groups, RuntimeSnapshot, WifiSnapshot, WifiState,
};
use crate::device_identity::{
    fqdn_from_hostname, hostname_from_short_id, short_id_from_mac, spec_hostname, spec_short_id,
};
use crate::provisioning::{padded, WifiCredentials};
use crate::text::{
    bounded_push, dec_chars, decimal, emit, index_of, lemma_index_of, pieces_view, render_groups,
    split_once, split_once_str, str_eq, str_from_utf8, strip_prefix, strip_prefix_str, TextBuf,
};
use vstd::utf8::{decode_utf8, valid_utf8};

verus! {

pub const HTTP_PORT: u16 = 80;

/// What the network runtime shares with the rest of the firmware.
#[derive(Clone, Copy)]
pub struct NetworkState {
    pub wifi: WifiSnapshot,
}

impl NetworkState {
    pub fn new() -> (s: Self)
        ensures
            is_disconnected(s.wifi),
    {
        NetworkState { wifi: WifiSnapshot::disconnected() }
    }
}

/// The netmask with the first `p` bits set.
pub open spec fn prefix_mask(p: nat) -> u32 {
    if p == 0 {
        0
    } else {
        (0xffff_ffffu32 << ((32 - p) as u32)) as u32
    }
}

pub open spec fn be_u32(m: Seq<u8>) -> u32 {
    (m[0] * 16777216 + m[1] * 65536 + m[2] * 256 + m[3]) as u32
}

/// The prefix length of a netmask, when it is one: `Some(p)` exactly when the
/// mask is the first `p` bits set.
pub fn netmask_to_prefix(mask: [u8; 4]) -> (r: Option<u8>)
    ensures
        r matches Some(p) ==> p <= 32 && be_u32(mask@) == prefix_mask(p as nat),
        r is None ==> forall|p: nat| p <= 32 ==> be_u32(mask@) != prefix_mask(p),
{
    let value: u32 = (mask[0] as u32) * 16777216 + (mask[1] as u32) * 65536 + (mask[2] as u32) * 256
        + (mask[3] as u32);
    let mut p: u32 = 0;
    while p <= 32
        invariant
            p <= 33,
            value == be_u32(mask@),
            forall|q: nat| q < p ==> value != prefix_mask(q),
        decreases 33 - p,
    {
        let m: u32 = if p == 0 {
            0
        } else {
            0xffff_ffffu32 << (32 - p)
        };
        if m == value {
            return Some(p as u8);
        }
        p = p + 1;
    }
    None
}

/// How IPv4 is configured: the stored static configuration when its netmask
/// is a valid one, DHCP otherwise.
#[derive(Clone, Copy, Debug, PartialEq, Eq)]
pub enum Ipv4Plan {
    Static { address: [u8; 4], prefix: u8, gateway: [u8; 4], dns: Option<[u8; 4]> },
    Dhcp,
}

/// The IPv4 plan for the stored credentials, and whether it is static.
pub fn build_ipv4_config(credentials: Option<&WifiCredentials>) -> (r: (Ipv4Plan, bool))
    ensures
        r.1 == r.0 is Static,
        match r.0 {
            Ipv4Plan::Static { address, prefix, gateway, dns } => credentials matches Some(c)
                && c@.static_ipv4 matches Some(s) && s.address == address@ && s.gateway
                == gateway@ && prefix <= 32 && s.netmask.len() == 4 && be_u32(s.netmask)
                == prefix_mask(prefix as nat) && (match (dns, s.dns) {
                (Some(a), Some(b)) => a@ == b,
                (None, None) => true,
                _ => false,
            }),
            Ipv4Plan::Dhcp => match credentials {
                None => true,
                Some(c) => match c@.static_ipv4 {
                    None => true,
                    Some(s) => forall|p: nat| p <= 32 ==> be_u32(s.netmask) != prefix_mask(p),
                },
            },
        },
{
    if let Some(c) = credentials {
        if let Some(s) = c.static_ipv4() {
            if let Some(prefix) = netmask_to_prefix(s.netmask) {
                return (
                    Ipv4Plan::Static { address: s.address, prefix, gateway: s.gateway, dns: s.dns },
                    true,
                );
            }
        }
    }
    (Ipv4Plan::Dhcp, false)
}

/// The Wi-Fi snapshot published for the credentials in use: disconnected
/// without credentials, else configured with their SSID (empty when not
/// valid UTF-8).
pub fn wifi_snapshot_from_credentials(
    credentials: Option<&WifiCredentials>,
    state: WifiState,
    ipv4: Option<[u8; 4]>,
    is_static: bool,
) -> (w: WifiSnapshot)
    ensures
        match credentials {
            None => is_disconnected(w),
            Some(c) => {
                let ssid = if valid_utf8(c@.ssid) { c@.ssid } else { Seq::empty() };
                &&& w.configured
                &&& w.psk_configured == (c@.psk.len() > 0)
                &&& w.state == state
                &&& w.ipv4 == ipv4
                &&& w.is_static == is_static
                &&& w.ssid@ == padded(ssid, 32)
                &&& w.ssid_len == ssid.len()
            },
        },
{
    let c = match credentials {
        None => return WifiSnapshot::disconnected(),
        Some(c) => c,
    };
    let text = c.ssid();
    let bytes = text.as_bytes();
    proof {
        if valid_utf8(c@.ssid) {
            vstd::utf8::decode_utf8_encode_utf8(c@.ssid);
        }
        vstd::utf8::encode_utf8_decode_utf8(Seq::<char>::empty());
    }
    let mut ssid = [0u8; 32];
    let mut i: usize = 0;
    while i < 32
        invariant
            0 <= i <= 32,
            bytes@.len() <= 32,
            forall|j: int| 0 <= j < i ==> ssid@[j] == padded(bytes@, 32)[j],
            forall|j: int| i <= j < 32 ==> ssid@[j] == 0,
        decreases 32 - i,
    {
        if i < bytes.len() {
            ssid[i] = bytes[i];
        }
        i = i + 1;
    }
    assert(ssid@ =~= padded(bytes@, 32));
    WifiSnapshot {
        configured: true,
        psk_configured: c.psk_configured(),
        state,
        ipv4,
        is_static,
        ssid,
        ssid_len: bytes.len() as u8,
    }
}

/// What the Wi-Fi link reports as it goes.
#[derive(Clone, Copy, Debug, PartialEq, Eq)]
pub enum WifiLinkEvent {
    NoCredentials,
    Connecting,
    SetupFailed,
    ConnectFailed,
    DhcpTimeout,
    LinkUp([u8; 4]),
}

/// The state and address published for a link event.
pub fn wifi_link_state(event: WifiLinkEvent) -> (r: (WifiState, Option<[u8; 4]>))
    ensures
        r == match event {
            WifiLinkEvent::NoCredentials => (WifiState::Idle, None::<[u8; 4]>),
            WifiLinkEvent::Connecting => (WifiState::Connecting, None::<[u8; 4]>),
            WifiLinkEvent::LinkUp(ip) => (WifiState::Connected, Some(ip)),
            _ => (WifiState::Failed, None::<[u8; 4]>),
        },
{
    match event {
        WifiLinkEvent::NoCredentials => (WifiState::Idle, None),
        WifiLinkEvent::Connecting => (WifiState::Connecting, None),
        WifiLinkEvent::LinkUp(ip) => (WifiState::Connected, Some(ip)),
        _ => (WifiState::Failed, None),
    }
}

/// The hostname and `.local` name of the device.
pub struct NetworkNames {
    pub hostname: TextBuf,
    pub fqdn: TextBuf,
}

impl NetworkNames {
    pub fn from_mac(mac: [u8; 6]) -> (n: Self)
        ensures
            n.hostname@ == spec_hostname(spec_short_id(mac@)),
            n.fqdn@ == bounded_push(
                bounded_push(Seq::empty(), spec_hostname(spec_short_id(mac@)), 48),
                ".local"@,
                48,
            ),
    {
        let short_id = short_id_from_mac(mac);
        let hostname = hostname_from_short_id(short_id.as_str());
        let fqdn = fqdn_from_hostname(hostname.as_str());
        NetworkNames { hostname, fqdn }
    }
}

/// Browsers on this machine may call the API: `http://localhost` and
/// `http://127.0.0.1`, on any port.
pub open spec fn spec_allowed_origin(o: Seq<char>) -> bool {
    ||| o == "http://localhost"@
    ||| strip_prefix(o, "http://localhost:"@) is Some
    ||| o == "http://127.0.0.1"@
    ||| strip_prefix(o, "http://127.0.0.1:"@) is Some
}

pub fn is_allowed_origin(origin: &str) -> (b: bool)
    ensures
        b == spec_allowed_origin(origin@),
{
    str_eq(origin, "http://localhost") || strip_prefix_str(origin, "http://localhost:").is_some()
        || str_eq(origin, "http://127.0.0.1") || strip_prefix_str(origin, "http://127.0.0.1:").is_some()
}

/// `char::is_whitespace`: the Unicode White_Space characters.
pub open spec fn is_ws(c: char) -> bool {
    let u = c as u32;
    ||| 0x09 <= u <= 0x0d
    ||| u == 0x20
    ||| u == 0x85
    ||| u == 0xa0
    ||| u == 0x1680
    ||| 0x2000 <= u <= 0x200a
    ||| u == 0x2028
    ||| u == 0x2029
    ||| u == 0x202f
    ||| u == 0x205f
    ||| u == 0x3000
}

fn char_is_ws(c: char) -> (b: bool)
    ensures
        b == is_ws(c),
{
    let u = c as u32;
    (0x09 <= u && u <= 0x0d) || u == 0x20 || u == 0x85 || u == 0xa0 || u == 0x1680 || (0x2000 <= u
        && u <= 0x200a) || u == 0x2028 || u == 0x2029 || u == 0x202f || u == 0x205f || u == 0x3000
}

/// Number of leading whitespace characters.
pub open spec fn lead_ws(s: Seq<char>) -> nat
    decreases s.len(),
{
    if s.len() > 0 && is_ws(s[0]) {
        1 + lead_ws(s.drop_first())
    } else {
        0
    }
}

/// Number of trailing whitespace characters.
pub open spec fn trail_ws(s: Seq<char>) -> nat
    decreases s.len(),
{
    if s.len() > 0 && is_ws(s.last()) {
        1 + trail_ws(s.drop_last())
    } else {
        0
    }
}

/// `str::trim`: without leading and trailing whitespace.
pub open spec fn trim(s: Seq<char>) -> Seq<char> {
    let a = lead_ws(s) as int;
    let rest = s.subrange(a, s.len() as int);
    rest.subrange(0, rest.len() - trail_ws(rest))
}

proof fn lemma_lead_ws(s: Seq<char>, i: int)
    requires
        0 <= i <= s.len(),
        forall|j: int| 0 <= j < i ==> is_ws(s[j]),
        i == s.len() || !is_ws(s[i]),
    ensures
        lead_ws(s) == i,
    decreases s.len(),
{
    if i > 0 {
        assert forall|j: int| 0 <= j < i - 1 implies is_ws(s.drop_first()[j]) by {
            assert(s.drop_first()[j] == s[j + 1]);
        }
        lemma_lead_ws(s.drop_first(), i - 1);
    }
}

proof fn lemma_trail_ws(s: Seq<char>, k: int)
    requires
        0 <= k <= s.len(),
        forall|j: int| s.len() - k <= j < s.len() ==> is_ws(s[j]),
        k == s.len() || !is_ws(s[s.len() - k - 1]),
    ensures
        trail_ws(s) == k,
    decreases s.len(),
{
    if k > 0 {
        assert forall|j: int| s.len() - 1 - (k - 1) <= j < s.len() - 1 implies is_ws(
            s.drop_last()[j],
        ) by {
            assert(s.drop_last()[j] == s[j]);
        }
        lemma_trail_ws(s.drop_last(), k - 1);
    }
}

pub fn trim_str(s: &str) -> (r: &str)
    ensures
        r@ == trim(s@),
{
    let n = s.unicode_len();
    let mut a: usize = 0;
    while a < n && char_is_ws(s.get_char(a))
        invariant
            0 <= a <= n,
            n == s@.len(),
            forall|j: int| 0 <= j < a ==> is_ws(s@[j]),
        decreases n - a,
    {
        a = a + 1;
    }
    proof {
        lemma_lead_ws(s@, a as int);
    }
    let rest = s.substring_char(a, n);
    let m = rest.unicode_len();
    let mut k: usize = 0;
    while k < m && char_is_ws(rest.get_char(m - k - 1))
        invariant
            0 <= k <= m,
            m == rest@.len(),
            forall|j: int| m - k <= j < m ==> is_ws(rest@[j]),
        decreases m - k,
    {
        k = k + 1;
    }
    proof {
        lemma_trail_ws(rest@, k as int);
    }
    rest.substring_char(0, m - k)
}

/// ASCII case-insensitive equality (`str::eq_ignore_ascii_case`).
pub open spec fn ascii_lower(c: char) -> char {
    if 'A' <= c <= 'Z' {
        ((c as u32) + 32) as char
    } else {
        c
    }
}

pub open spec fn eq_ignore_ascii_case(a: Seq<char>, b: Seq<char>) -> bool {
    a.len() == b.len() && forall|i: int| 0 <= i < a.len() ==> ascii_lower(a[i]) == ascii_lower(b[i])
}

fn lower(c: char) -> (r: char)
    ensures
        r == ascii_lower(c),
{
    if 'A' <= c && c <= 'Z' {
        ((c as u32) + 32) as u8 as char
    } else {
        c
    }
}

pub fn str_eq_ignore_ascii_case(a: &str, b: &str) -> (r: bool)
    ensures
        r == eq_ignore_ascii_case(a@, b@),
{
    let n = a.unicode_len();
    if n != b.unicode_len() {
        return false;
    }
    let mut i: usize = 0;
    while i < n
        invariant
            0 <= i <= n,
            n == a@.len() && n == b@.len(),
            forall|j: int| 0 <= j < i ==> ascii_lower(a@[j]) == ascii_lower(b@[j]),
        decreases n - i,
    {
        if lower(a.get_char(i)) != lower(b.get_char(i)) {
            return false;
        }
        i = i + 1;
    }
    true
}

/// `str::lines`: pieces between line feeds, a carriage return before a line
/// feed dropped, no piece after a final line feed.
pub open spec fn lines_of(s: Seq<char>) -> Seq<Seq<char>>
    decreases s.len(),
{
    if s.len() == 0 {
        Seq::empty()
    } else {
        match index_of(s, '\n') {
            None => seq![s],
            Some(i) => {
                proof {
                    lemma_index_of(s, '\n');
                }
                let line = s.subrange(0, i);
                let line = if line.len() > 0 && line.last() == '\r' {
                    line.drop_last()
                } else {
                    line
                };
                seq![line] + lines_of(s.subrange(i + 1, s.len() as int))
            },
        }
    }
}

/// The value of the first header (a line after the first with a `:`) whose
/// trimmed name equals `key` ignoring ASCII case, trimmed.
pub open spec fn header_in(lines: Seq<Seq<char>>, key: Seq<char>) -> Option<Seq<char>>
    decreases lines.len(),
{
    if lines.len() == 0 {
        None
    } else {
        match split_once(lines[0], ':') {
            Some((name, value)) => if eq_ignore_ascii_case(trim(name), key) {
                Some(trim(value))
            } else {
                header_in(lines.drop_first(), key)
            },
            None => header_in(lines.drop_first(), key),
        }
    }
}

pub open spec fn spec_header_value(request: Seq<char>, key: Seq<char>) -> Option<Seq<char>> {
    let lines = lines_of(request);
    if lines.len() == 0 {
        None
    } else {
        header_in(lines.drop_first(), key)
    }
}

/// Splits off the first line: the line, and what follows its line feed (none
/// when it is the last).
fn next_line(s: &str) -> (r: (&str, Option<&str>))
    requires
        s@.len() > 0,
    ensures
        lines_of(s@) == seq![r.0@] + match r.1 {
            Some(rest) => lines_of(rest@),
            None => Seq::empty(),
        },
        r.1 matches Some(rest) ==> rest@.len() < s@.len(),
{
    proof {
        lemma_index_of(s@, '\n');
    }
    match split_once_str(s, '\n') {
        Some((line, rest)) => {
            let m = line.unicode_len();
            let line = if m > 0 && line.get_char(m - 1) == '\r' {
                line.substring_char(0, m - 1)
            } else {
                line
            };
            (line, Some(rest))
        },
        None => (s, None),
    }
}

/// The value of a request header (see `spec_header_value`).
pub fn header_value<'a>(request: &'a str, key: &str) -> (r: Option<&'a str>)
    ensures
        match r {
            Some(v) => spec_header_value(request@, key@) == Some(v@),
            None => spec_header_value(request@, key@) is None,
        },
{
    if request.unicode_len() == 0 {
        return None;
    }
    let (first, mut rest) = next_line(request);
    proof {
        let ls = lines_of(request@);
        assert(ls.drop_first() =~= match rest {
            Some(n) => lines_of(n@),
            None => Seq::<Seq<char>>::empty(),
        });
    }
    loop
        invariant
            header_in(lines_of(request@).drop_first(), key@) == match rest {
                Some(t) => header_in(lines_of(t@), key@),
                None => None,
            },
            lines_of(request@).len() > 0,
        decreases match rest {
            Some(t) => t@.len() + 1,
            None => 0,
        },
    {
        let t = match rest {
            None => return None,
            Some(t) => t,
        };
        if t.unicode_len() == 0 {
            return None;
        }
        let (line, next) = next_line(t);
        proof {
            let ls = lines_of(t@);
            assert(ls[0] == line@);
            assert(ls.drop_first() =~= match next {
                Some(n) => lines_of(n@),
                None => Seq::<Seq<char>>::empty(),
            });
        }
        match split_once_str(line, ':') {
            Some((name, value)) => {
                if str_eq_ignore_ascii_case(trim_str(name), key) {
                    return Some(trim_str(value));
                }
            },
            None => {},
        }
        proof {
            let ls = lines_of(t@);
            assert(ls.len() > 0);
            assert(header_in(ls, key@) == header_in(ls.drop_first(), key@));
            if next is None {
                assert(header_in(Seq::<Seq<char>>::empty(), key@) is None);
            }
        }
        rest = next;
    }
}

/// The CORS headers for a request's origin: granted to allowed origins only.
pub open spec fn cors_groups(origin: Option<Seq<char>>) -> Seq<Seq<Seq<char>>> {
    match origin {
        Some(o) => if spec_allowed_origin(o) {
            seq![
                seq!["Access-Control-Allow-Origin: "@, o, "\r\nVary: Origin\r\n"@],
                seq!["Access-Control-Allow-Private-Network: true\r\n"@],
            ]
        } else {
            Seq::empty()
        },
        None => Seq::empty(),
    }
}

pub open spec fn opt_str(v: Option<&str>) -> Option<Seq<char>> {
    match v {
        Some(s) => Some(s@),
        None => None,
    }
}

fn write_cors_headers(
    out: &mut TextBuf,
    origin: Option<&str>,
    Ghost(start): Ghost<Seq<char>>,
    Ghost(done): Ghost<Seq<Seq<Seq<char>>>>,
)
    requires
        old(out)@ == render_groups(start, done, old(out).capacity()),
    ensures
        final(out).capacity() == old(out).capacity(),
        final(out)@ == render_groups(start, done + cors_groups(opt_str(origin)), old(out).capacity()),
{
    match origin {
        Some(o) => {
            if is_allowed_origin(o) {
                let v = vec!["Access-Control-Allow-Origin: ", o, "\r\nVary: Origin\r\n"];
                emit(out, &v, Ghost(start), Ghost(done));
                let ghost d1 = done.push(pieces_view(v@));
                let v2 = vec!["Access-Control-Allow-Private-Network: true\r\n"];
                emit(out, &v2, Ghost(start), Ghost(d1));
                assert(d1.push(pieces_view(v2@)) =~~= done + cors_groups(opt_str(origin)));
            } else {
                assert(done + cors_groups(opt_str(origin)) =~= done);
            }
        },
        None => {
            assert(done + cors_groups(opt_str(origin)) =~= done);
        },
    }
}

pub open spec fn preflight_groups(origin: Option<Seq<char>>) -> Seq<Seq<Seq<char>>> {
    seq![seq!["HTTP/1.1 204 No Content\r\n"@]] + cors_groups(origin) + seq![
        seq![
            "Access-Control-Allow-Methods: GET, OPTIONS\r\nAccess-Control-Allow-Headers: Content-Type\r\nAccess-Control-Allow-Private-Network: true\r\nContent-Length: 0\r\nConnection: close\r\n\r\n"@,
        ],
    ]
}

/// The reply to a CORS preflight request, in 384 bytes.
pub fn render_preflight(origin: Option<&str>) -> (r: TextBuf)
    ensures
        r.capacity() == 384,
        r@ == render_groups(Seq::empty(), preflight_groups(opt_str(origin)), 384),
{
    let mut out = TextBuf::with_capacity(384);
    let ghost start = out@;
    let ghost g0: Seq<Seq<Seq<char>>> = Seq::empty();
    let v = vec!["HTTP/1.1 204 No Content\r\n"];
    emit(&mut out, &v, Ghost(start), Ghost(g0));
    let ghost g1 = g0.push(pieces_view(v@));
    write_cors_headers(&mut out, origin, Ghost(start), Ghost(g1));
    let ghost g2 = g1 + cors_groups(opt_str(origin));
    let v = vec![
        "Access-Control-Allow-Methods: GET, OPTIONS\r\nAccess-Control-Allow-Headers: Content-Type\r\nAccess-Control-Allow-Private-Network: true\r\nContent-Length: 0\r\nConnection: close\r\n\r\n",
    ];
    emit(&mut out, &v, Ghost(start), Ghost(g2));
    assert(g2.push(pieces_view(v@)) =~~= preflight_groups(opt_str(origin)));
    out
}

pub open spec fn json_header_groups(status: Seq<char>, origin: Option<Seq<char>>, body_len: nat) -> Seq<
    Seq<Seq<char>>,
> {
    seq![seq!["HTTP/1.1 "@, status, "\r\n"@]] + cors_groups(origin) + seq![
        seq![
            "Content-Type: application/json\r\nContent-Length: "@,
            dec_chars(body_len),
            "\r\nConnection: close\r\n\r\n"@,
        ],
    ]
}

/// The header of a JSON reply of `body_len` bytes, in 512 bytes.
pub fn render_json_header(status: &str, origin: Option<&str>, body_len: usize) -> (r: TextBuf)
    ensures
        r.capacity() == 512,
        r@ == render_groups(
            Seq::empty(),
            json_header_groups(status@, opt_str(origin), body_len as nat),
            512,
        ),
{
    let mut out = TextBuf::with_capacity(512);
    let ghost start = out@;
    let ghost g0: Seq<Seq<Seq<char>>> = Seq::empty();
    let v = vec!["HTTP/1.1 ", status, "\r\n"];
    emit(&mut out, &v, Ghost(start), Ghost(g0));
    let ghost g1 = g0.push(pieces_view(v@));
    write_cors_headers(&mut out, origin, Ghost(start), Ghost(g1));
    let ghost g2 = g1 + cors_groups(opt_str(origin));
    let len_text = decimal(body_len as u64);
    let v = vec![
        "Content-Type: application/json\r\nContent-Length: ",
        len_text.as_str(),
        "\r\nConnection: close\r\n\r\n",
    ];
    emit(&mut out, &v, Ghost(start), Ghost(g2));
    assert(g2.push(pieces_view(v@)) =~~= json_header_groups(status@, opt_str(origin), body_len as nat));
    out
}

/// How many leading characters of `s` are not whitespace.
pub open spec fn word_len(s: Seq<char>) -> nat
    decreases s.len(),
{
    if s.len() > 0 && !is_ws(s[0]) {
        1 + word_len(s.drop_first())
    } else {
        0
    }
}

/// The first whitespace-separated word of `s` and what follows it.
pub open spec fn first_word(s: Seq<char>) -> Option<(Seq<char>, Seq<char>)> {
    let t = s.subrange(lead_ws(s) as int, s.len() as int);
    if t.len() == 0 {
        None
    } else {
        Some((t.subrange(0, word_len(t) as int), t.subrange(word_len(t) as int, t.len() as int)))
    }
}

proof fn lemma_word_len(s: Seq<char>, i: int)
    requires
        0 <= i <= s.len(),
        forall|j: int| 0 <= j < i ==> !is_ws(s[j]),
        i == s.len() || is_ws(s[i]),
    ensures
        word_len(s) == i,
    decreases s.len(),
{
    if i > 0 {
        assert forall|j: int| 0 <= j < i - 1 implies !is_ws(s.drop_first()[j]) by {
            assert(s.drop_first()[j] == s[j + 1]);
        }
        lemma_word_len(s.drop_first(), i - 1);
    }
}

proof fn lemma_lead_ws_bound(s: Seq<char>)
    ensures
        lead_ws(s) <= s.len(),
    decreases s.len(),
{
    if s.len() > 0 && is_ws(s[0]) {
        lemma_lead_ws_bound(s.drop_first());
    }
}

proof fn lemma_word_len_bound(s: Seq<char>)
    ensures
        word_len(s) <= s.len(),
    decreases s.len(),
{
    if s.len() > 0 && !is_ws(s[0]) {
        lemma_word_len_bound(s.drop_first());
    }
}

fn next_word(s: &str) -> (r: Option<(&str, &str)>)
    ensures
        match r {
            Some((w, rest)) => first_word(s@) == Some((w@, rest@)),
            None => first_word(s@) is None,
        },
{
    let n = s.unicode_len();
    let mut a: usize = 0;
    while a < n && char_is_ws(s.get_char(a))
        invariant
            0 <= a <= n,
            n == s@.len(),
            forall|j: int| 0 <= j < a ==> is_ws(s@[j]),
        decreases n - a,
    {
        a = a + 1;
    }
    proof {
        lemma_lead_ws(s@, a as int);
    }
    if a == n {
        return None;
    }
    let t = s.substring_char(a, n);
    let m = t.unicode_len();
    let mut k: usize = 0;
    while k < m && !char_is_ws(t.get_char(k))
        invariant
            0 <= k <= m,
            m == t@.len(),
            forall|j: int| 0 <= j < k ==> !is_ws(t@[j]),
        decreases m - k,
    {
        k = k + 1;
    }
    proof {
        lemma_word_len(t@, k as int);
    }
    Some((t.substring_char(0, k), t.substring_char(k, m)))
}

/// What the HTTP server sends back.
pub enum HttpReply<'a> {
    Preflight { origin: Option<&'a str> },
    Json { status: &'static str, origin: Option<&'a str>, body: TextBuf },
}

pub open spec fn reply_view(r: HttpReply) -> (bool, Seq<char>, Option<Seq<char>>, Seq<char>) {
    match r {
        HttpReply::Preflight { origin } => (true, Seq::empty(), opt_str(origin), Seq::empty()),
        HttpReply::Json { status, origin, body } => (false, status@, opt_str(origin), body@),
    }
}

/// The request text: the bytes read, or nothing when not UTF-8.
pub open spec fn request_text(bytes: Seq<u8>) -> Seq<char> {
    if valid_utf8(bytes) {
        decode_utf8(bytes)
    } else {
        Seq::empty()
    }
}

pub open spec fn request_method_and_path(request: Seq<char>) -> (Seq<char>, Seq<char>) {
    let lines = lines_of(request);
    let line = if lines.len() > 0 { lines[0] } else { Seq::empty() };
    match first_word(line) {
        None => (Seq::empty(), "/"@),
        Some((method, rest)) => match first_word(rest) {
            None => (method, "/"@),
            Some((path, _)) => (method, path),
        },
    }
}

pub open spec fn not_ready_body() -> Seq<char> {
    "{\"error\":{\"code\":\"not_ready\",\"message\":\"runtime snapshot is not ready\",\"retryable\":true}}"@
}

/// The reply to a request: a preflight for `OPTIONS`, 405 for other methods
/// than `GET`, else by path (query dropped): health, info and ports from the
/// runtime snapshot (503 until there is one), Wi-Fi from the network state,
/// 404 otherwise. Nothing is sent for an empty read.
pub open spec fn spec_route(
    bytes: Seq<u8>,
    snapshot: Option<RuntimeSnapshot>,
    wifi: WifiSnapshot,
    version: Seq<char>,
) -> Option<(bool, Seq<char>, Option<Seq<char>>, Seq<char>)> {
    let request = request_text(bytes);
    let (method, path) = request_method_and_path(request);
    let origin = spec_header_value(request, "Origin"@);
    let path_only = match split_once(path, '?') {
        Some((p, _)) => p,
        None => path,
    };
    if bytes.len() == 0 {
        None
    } else if method == "OPTIONS"@ {
        Some((true, Seq::empty(), origin, Seq::empty()))
    } else if method != "GET"@ {
        Some((
            false,
            "405 Method Not Allowed"@,
            origin,
            "{\"error\":{\"code\":\"method_not_allowed\",\"message\":\"method not allowed\",\"retryable\":false}}"@,
        ))
    } else {
        let (status, body) = spec_route_get(path_only, snapshot, wifi, version);
        Some((false, status, origin, body))
    }
}

fn body_of(text: &str) -> (b: TextBuf)
    requires
        vstd::utf8::encode_utf8(text@).len() <= 2048,
    ensures
        b@ == text@,
{
    let mut b = TextBuf::with_capacity(2048);
    b.push_str(text);
    proof {
        vstd::utf8::is_ascii_chars_encode_utf8(Seq::<char>::empty());
        assert(Seq::<char>::empty() + text@ =~= text@);
    }
    b
}

fn const_body(text: &'static str) -> (b: TextBuf)
    requires
        text@.len() <= 512,
        vstd::utf8::is_ascii_chars(text@),
    ensures
        b@ == text@,
{
    proof {
        vstd::utf8::is_ascii_chars_encode_utf8(text@);
    }
    body_of(text)
}

fn method_not_allowed_body() -> (b: TextBuf)
    ensures
        b@ == "{\"error\":{\"code\":\"method_not_allowed\",\"message\":\"method not allowed\",\"retryable\":false}}"@,
{
    proof {
        reveal_strlit("{\"error\":{\"code\":\"method_not_allowed\",\"message\":\"method not allowed\",\"retryable\":false}}");
    }
    const_body("{\"error\":{\"code\":\"method_not_allowed\",\"message\":\"method not allowed\",\"retryable\":false}}")
}

fn health_body() -> (b: TextBuf)
    ensures
        b@ == "{\"ok\":true}"@,
{
    proof {
        reveal_strlit("{\"ok\":true}");
    }
    const_body("{\"ok\":true}")
}

fn not_ready_text_body() -> (b: TextBuf)
    ensures
        b@ == not_ready_body(),
{
    proof {
        reveal_strlit("{\"error\":{\"code\":\"not_ready\",\"message\":\"runtime snapshot is not ready\",\"retryable\":true}}");
    }
    const_body("{\"error\":{\"code\":\"not_ready\",\"message\":\"runtime snapshot is not ready\",\"retryable\":true}}")
}

fn not_found_body() -> (b: TextBuf)
    ensures
        b@ == "{\"error\":{\"code\":\"not_found\",\"message\":\"not found\",\"retryable\":false}}"@,
{
    proof {
        reveal_strlit("{\"error\":{\"code\":\"not_found\",\"message\":\"not found\",\"retryable\":false}}");
    }
    const_body("{\"error\":{\"code\":\"not_found\",\"message\":\"not found\",\"retryable\":false}}")
}

/// The reply to a `GET` of `path_only`.
pub open spec fn spec_route_get(
    path_only: Seq<char>,
    snapshot: Option<RuntimeSnapshot>,
    wifi: WifiSnapshot,
    version: Seq<char>,
) -> (Seq<char>, Seq<char>) {
    if path_only == "/"@ || path_only == "/api/v1/health"@ {
        ("200 OK"@, "{\"ok\":true}"@)
    } else if path_only == "/api/v1/info"@ {
        match snapshot {
            Some(s) => ("200 OK"@, render_groups(Seq::empty(), info_groups(s, version), 1536)),
            None => ("503 Service Unavailable"@, not_ready_body()),
        }
    } else if path_only == "/api/v1/ports"@ {
        match snapshot {
            Some(s) => ("200 OK"@, render_groups(Seq::empty(), ports_groups(s), 2048)),
            None => ("503 Service Unavailable"@, not_ready_body()),
        }
    } else if path_only == "/api/v1/wifi"@ {
        ("200 OK"@, render_groups(Seq::empty(), wifi_groups(wifi), 512))
    } else {
        (
            "404 Not Found"@,
            "{\"error\":{\"code\":\"not_found\",\"message\":\"not found\",\"retryable\":false}}"@,
        )
    }
}

fn route_get(path_only: &str, snapshot: Option<RuntimeSnapshot>, wifi: WifiSnapshot, version: &str) -> (r: (&'static str, TextBuf))
    requires
        wifi.ssid_len <= 32,
    ensures
        (r.0@, r.1@) == spec_route_get(path_only@, snapshot, wifi, version@),
{
    if str_eq(path_only, "/") || str_eq(path_only, "/api/v1/health") {
        ("200 OK", health_body())
    } else if str_eq(path_only, "/api/v1/info") {
        match snapshot {
            Some(s) => {
                let rendered = render_info_result(s, version);
                ("200 OK", body_of(rendered.as_str()))
            },
            None => ("503 Service Unavailable", not_ready_text_body()),
        }
    } else if str_eq(path_only, "/api/v1/ports") {
        match snapshot {
            Some(s) => {
                let rendered = render_ports_result(s);
                ("200 OK", body_of(rendered.as_str()))
            },
            None => ("503 Service Unavailable", not_ready_text_body()),
        }
    } else if str_eq(path_only, "/api/v1/wifi") {
        let rendered = render_wifi_result(wifi);
        ("200 OK", body_of(rendered.as_str()))
    } else {
        ("404 Not Found", not_found_body())
    }
}

fn method_and_path(request: &str) -> (r: (&str, &str))
    ensures
        (r.0@, r.1@) == request_method_and_path(request@),
{
    let line = if request.unicode_len() == 0 {
        ""
    } else {
        next_line(request).0
    };
    proof {
        reveal_strlit("");
        reveal_strlit("/");
        let lines = lines_of(request@);
        assert(line@ == if lines.len() > 0 { lines[0] } else { Seq::<char>::empty() });
    }
    match next_word(line) {
        None => ("", "/"),
        Some((m, rest)) => match next_word(rest) {
            None => (m, "/"),
            Some((p, _)) => (m, p),
        },
    }
}

/// Decides the reply to one HTTP request (see `spec_route`).
pub fn route_request<'a>(
    bytes: &'a [u8],
    snapshot: Option<RuntimeSnapshot>,
    wifi: WifiSnapshot,
    version: &str,
) -> (r: Option<HttpReply<'a>>)
    requires
        wifi.ssid_len <= 32,
    ensures
        match r {
            Some(reply) => spec_route(bytes@, snapshot, wifi, version@) == Some(reply_view(reply)),
            None => spec_route(bytes@, snapshot, wifi, version@) is None,
        },
{
    if bytes.len() == 0 {
        return None;
    }
    let request = match str_from_utf8(bytes) {
        Some(text) => text,
        None => {
            proof {
                reveal_strlit("");
            }
            ""
        },
    };
    assert(request@ == request_text(bytes@));
    let (method, path) = method_and_path(request);
    let origin = header_value(request, "Origin");
    if str_eq(method, "OPTIONS") {
        return Some(HttpReply::Preflight { origin });
    }
    if !str_eq(method, "GET") {
        return Some(
            HttpReply::Json { status: "405 Method Not Allowed", origin, body: method_not_allowed_body() },
        );
    }
    let path_only = match split_once_str(path, '?') {
        Some((p, _)) => p,
        None => path,
    };
    let (status, body) = route_get(path_only, snapshot, wifi, version);
    Some(HttpReply::Json { status, origin, body })
}

} // verus!
