//! Network names and IPv4 settings: dotted-quad text, hostname clean-up,
//! address parsing, and the choice between a static address (from the stored
//! credentials, else from build-time settings) and DHCP.
use vstd::prelude::*;
use crate::device_identity::{
    ascii_lower, fqdn_from_hostname, hostname_from_short_id, is_ascii_alnum, mac_to_string,
    short_id_from_mac, spec_hostname, spec_mac_text, spec_short_id, truncated,
};
use crate::network::{be_u32, build_ipv4_config, netmask_to_prefix, prefix_mask, Ipv4Plan};
use crate::provisioning::WifiCredentials;
use crate::text::{
    bounded_push, dec_chars, decimal, lemma_ascii_utf8_len, lemma_dec_chars_ascii,
    lemma_utf8_len_append, lemma_write_fold_fits, split_once, split_once_str, utf8_len, TextBuf,
};

verus! {

/// `a.b.c.d` in decimal.
pub open spec fn ipv4_text(ip: Seq<u8>) -> Seq<char> {
    dec_chars(ip[0] as nat) + "."@ + dec_chars(ip[1] as nat) + "."@ + dec_chars(ip[2] as nat) + "."@
        + dec_chars(ip[3] as nat)
}

proof fn lemma_byte_dec_len(n: nat)
    requires
        n < 256,
    ensures
        dec_chars(n).len() <= 3,
        utf8_len(dec_chars(n)) == dec_chars(n).len(),
{
    reveal_with_fuel(dec_chars, 3);
    lemma_dec_chars_ascii(n);
    lemma_ascii_utf8_len(dec_chars(n));
}

/// The address as dotted-quad text, in 16 bytes (it always fits).
pub fn format_ipv4(ip: [u8; 4]) -> (r: TextBuf)
    ensures
        r.capacity() == 16,
        r@ == ipv4_text(ip@),
{
    let mut out = TextBuf::with_capacity(16);
    let d0 = decimal(ip[0] as u64);
    let d1 = decimal(ip[1] as u64);
    let d2 = decimal(ip[2] as u64);
    let d3 = decimal(ip[3] as u64);
    let pieces = vec![d0.as_str(), ".", d1.as_str(), ".", d2.as_str(), ".", d3.as_str()];
    proof {
        reveal_strlit(".");
        let v = pieces@.map_values(|p: &str| p@);
        assert(v.flatten() =~= ipv4_text(ip@)) by {
            reveal_with_fuel(Seq::<Seq<char>>::flatten, 8);
        }
        lemma_byte_dec_len(ip[0] as nat);
        lemma_byte_dec_len(ip[1] as nat);
        lemma_byte_dec_len(ip[2] as nat);
        lemma_byte_dec_len(ip[3] as nat);
        let t0 = dec_chars(ip[0] as nat);
        let t1 = dec_chars(ip[1] as nat);
        let t2 = dec_chars(ip[2] as nat);
        let t3 = dec_chars(ip[3] as nat);
        lemma_ascii_utf8_len("."@);
        lemma_utf8_len_append(t0, "."@);
        lemma_utf8_len_append(t0 + "."@, t1);
        lemma_utf8_len_append(t0 + "."@ + t1, "."@);
        lemma_utf8_len_append(t0 + "."@ + t1 + "."@, t2);
        lemma_utf8_len_append(t0 + "."@ + t1 + "."@ + t2, "."@);
        lemma_utf8_len_append(t0 + "."@ + t1 + "."@ + t2 + "."@, t3);
        assert(Seq::<char>::empty() + v.flatten() =~= v.flatten());
        lemma_write_fold_fits(Seq::empty(), v, 16);
    }
    out.write_all(&pieces);
    out
}

/// The MAC address as lower-case `aa:bb:cc:dd:ee:ff`.
pub fn format_mac_lower(mac: [u8; 6]) -> (r: TextBuf)
    ensures
        r.capacity() == 17,
        r@ == spec_mac_text(mac@),
{
    mac_to_string(mac)
}

/// A character a hostname keeps: ASCII letters and digits, and `-`.
pub open spec fn hostname_char_ok(c: char) -> bool {
    is_ascii_alnum(c) || c == '-'
}

/// The kept characters of `s`, letters in lower case.
pub open spec fn hostname_chars(s: Seq<char>) -> Seq<char>
    decreases s.len(),
{
    if s.len() == 0 {
        Seq::empty()
    } else if hostname_char_ok(s.last()) {
        hostname_chars(s.drop_last()).push(ascii_lower(s.last()))
    } else {
        hostname_chars(s.drop_last())
    }
}

proof fn lemma_hostname_chars_ascii(s: Seq<char>)
    ensures
        vstd::utf8::is_ascii_chars(hostname_chars(s)),
    decreases s.len(),
{
    if s.len() > 0 {
        lemma_hostname_chars_ascii(s.drop_last());
    }
}

/// A hostname from free text: the kept characters, lower-cased, at most 32.
pub open spec fn spec_sanitize_hostname(raw: Seq<char>) -> Seq<char> {
    truncated(hostname_chars(raw), 32)
}

pub fn sanitize_hostname(raw: &str) -> (r: TextBuf)
    ensures
        r.capacity() == 32,
        r@ == spec_sanitize_hostname(raw@),
{
    let mut out = TextBuf::with_capacity(32);
    let n = raw.unicode_len();
    let mut i: usize = 0;
    assert(hostname_chars(raw@.subrange(0, 0)) =~= Seq::<char>::empty());
    while i < n
        invariant
            0 <= i <= n,
            n == raw@.len(),
            out.capacity() == 32,
            out@ == truncated(hostname_chars(raw@.subrange(0, i as int)), 32),
            vstd::utf8::is_ascii_chars(out@),
        decreases n - i,
    {
        let c = raw.get_char(i);
        let ghost prev = hostname_chars(raw@.subrange(0, i as int));
        proof {
            let next = raw@.subrange(0, i + 1);
            assert(next.drop_last() =~= raw@.subrange(0, i as int));
            assert(next.last() == c);
            lemma_hostname_chars_ascii(raw@.subrange(0, i as int));
            lemma_ascii_utf8_len(out@);
        }
        if ('0' <= c && c <= '9') || ('a' <= c && c <= 'z') || ('A' <= c && c <= 'Z') || c == '-' {
            let lc = if 'A' <= c && c <= 'Z' {
                ((c as u32) + 32) as u8 as char
            } else {
                c
            };
            assert(lc == ascii_lower(c));
            proof {
                lemma_ascii_utf8_len(seq![lc]);
                assert(prev.push(lc) =~= hostname_chars(raw@.subrange(0, i + 1)));
                if prev.len() < 32 {
                    assert(truncated(prev.push(lc), 32) =~= prev.push(lc));
                } else {
                    assert(truncated(prev.push(lc), 32) =~= truncated(prev, 32));
                }
            }
            out.push(lc);
            proof {
                assert(out@ == truncated(prev.push(lc), 32));
            }
        } else {
            assert(prev =~= hostname_chars(raw@.subrange(0, i + 1)));
        }
        i = i + 1;
    }
    assert(raw@.subrange(0, n as int) =~= raw@);
    out
}

pub open spec fn is_digit(c: char) -> bool {
    '0' <= c <= '9'
}

/// The value of a string of decimal digits.
pub open spec fn digits_value(s: Seq<char>) -> nat
    decreases s.len(),
{
    if s.len() == 0 {
        0
    } else {
        digits_value(s.drop_last()) * 10 + ((s.last() as nat) - 48) as nat
    }
}

/// The digits of an unsigned number: one leading `+` is dropped.
pub open spec fn unsigned_digits(s: Seq<char>) -> Seq<char> {
    if s.len() > 0 && s[0] == '+' {
        s.drop_first()
    } else {
        s
    }
}

/// `s.parse::<u8>()`: an optional `+` and at least one digit, of value at most 255.
pub open spec fn spec_parse_u8(s: Seq<char>) -> Option<u8> {
    let d = unsigned_digits(s);
    if d.len() > 0 && (forall|i: int| 0 <= i < d.len() ==> is_digit(#[trigger] d[i])) && digits_value(d)
        <= 255 {
        Some(digits_value(d) as u8)
    } else {
        None
    }
}

proof fn lemma_digits_value_grows(s: Seq<char>, i: int, j: int)
    requires
        0 <= i <= j <= s.len(),
        forall|k: int| 0 <= k < s.len() ==> is_digit(#[trigger] s[k]),
    ensures
        digits_value(s.subrange(0, i)) <= digits_value(s.subrange(0, j)),
    decreases j - i,
{
    if i < j {
        lemma_digits_value_grows(s, i, j - 1);
        assert(s.subrange(0, j).drop_last() =~= s.subrange(0, j - 1));
        assert(s.subrange(0, j).last() == s[j - 1]);
    }
}

pub fn parse_u8(s: &str) -> (r: Option<u8>)
    ensures
        r == spec_parse_u8(s@),
{
    let n = s.unicode_len();
    if n == 0 {
        return None;
    }
    let start: usize = if s.get_char(0) == '+' {
        1
    } else {
        0
    };
    let ghost d = unsigned_digits(s@);
    assert(d =~= s@.subrange(start as int, n as int));
    if start == n {
        return None;
    }
    let mut value: u32 = 0;
    let mut i: usize = start;
    assert(d.subrange(0, 0) =~= Seq::<char>::empty());
    while i < n
        invariant
            start <= i <= n,
            n == s@.len(),
            d == s@.subrange(start as int, n as int),
            d == unsigned_digits(s@),
            forall|k: int| 0 <= k < i - start ==> is_digit(#[trigger] d[k]),
            value == digits_value(d.subrange(0, i - start)),
            value <= 255,
        decreases n - i,
    {
        let c = s.get_char(i);
        let ghost k = i - start;
        assert(d[k] == c);
        if !('0' <= c && c <= '9') {
            assert(!is_digit(d[k]));
            assert(!(forall|k2: int| 0 <= k2 < d.len() ==> is_digit(#[trigger] d[k2])));
            assert(spec_parse_u8(s@) is None);
            return None;
        }
        proof {
            assert(d.subrange(0, k + 1).drop_last() =~= d.subrange(0, k));
            assert(d.subrange(0, k + 1).last() == c);
        }
        value = value * 10 + (c as u32 - 48);
        assert(value == digits_value(d.subrange(0, k + 1)));
        if value > 255 {
            proof {
                if forall|k2: int| 0 <= k2 < d.len() ==> is_digit(#[trigger] d[k2]) {
                    lemma_digits_value_grows(d, k + 1, d.len() as int);
                    assert(d.subrange(0, d.len() as int) =~= d);
                }
            }
            assert(spec_parse_u8(s@) is None);
            return None;
        }
        i = i + 1;
    }
    assert(d.subrange(0, d.len() as int) =~= d);
    Some(value as u8)
}

/// `s.split(c)`: the parts between occurrences of `c`.
pub open spec fn split_char(s: Seq<char>, c: char) -> Seq<Seq<char>>
    decreases s.len(),
{
    match split_once(s, c) {
        Some((a, b)) => if b.len() < s.len() {
            seq![a] + split_char(b, c)
        } else {
            seq![s]
        },
        None => seq![s],
    }
}

/// Dotted-quad text: exactly four parts, each a byte.
pub open spec fn spec_parse_ipv4(s: Seq<char>) -> Option<Seq<u8>> {
    let parts = split_char(s, '.');
    if parts.len() == 4 && (forall|k: int| 0 <= k < 4 ==> #[trigger] spec_parse_u8(parts[k]) is Some) {
        Some(Seq::new(4, |k: int| spec_parse_u8(parts[k])->0))
    } else {
        None
    }
}

proof fn lemma_split_step(s: Seq<char>, c: char)
    ensures
        match split_once(s, c) {
            Some((a, b)) => b.len() < s.len() && split_char(s, c) == seq![a] + split_char(b, c),
            None => split_char(s, c) == seq![s],
        },
{
    crate::text::lemma_index_of(s, c);
}

pub fn parse_ipv4(s: &str) -> (r: Option<[u8; 4]>)
    ensures
        match r {
            Some(a) => spec_parse_ipv4(s@) == Some(a@),
            None => spec_parse_ipv4(s@) is None,
        },
{
    let mut parts = [0u8; 4];
    let mut rest: &str = s;
    let mut idx: usize = 0;
    proof {
        lemma_split_step(s@, '.');
    }
    let ghost all = split_char(s@, '.');
    while idx < 3
        invariant
            0 <= idx <= 3,
            all == split_char(s@, '.'),
            all.len() >= idx + 1,
            all.subrange(idx as int, all.len() as int) == split_char(rest@, '.'),
            forall|k: int| 0 <= k < idx ==> spec_parse_u8(all[k]) == Some(#[trigger] parts@[k]),
        decreases 3 - idx,
    {
        proof {
            lemma_split_step(rest@, '.');
        }
        let ghost later = all.subrange(idx as int, all.len() as int);
        match split_once_str(rest, '.') {
            Some((part, tail)) => {
                assert(later[0] == all[idx as int]);
                assert(later == seq![part@] + split_char(tail@, '.'));
                assert(all[idx as int] == part@);
                match parse_u8(part) {
                    Some(b) => {
                        parts[idx] = b;
                    },
                    None => {
                        return None;
                    },
                }
                proof {
                    assert(all.subrange(idx + 1, all.len() as int) =~= later.subrange(1, later.len() as int));
                    assert(later.subrange(1, later.len() as int) =~= split_char(tail@, '.'));
                }
                rest = tail;
            },
            None => {
                assert(later == seq![rest@]);
                assert(later.len() == all.len() - idx);
                return None;
            },
        }
        idx = idx + 1;
    }
    proof {
        lemma_split_step(rest@, '.');
    }
    let ghost later = all.subrange(3, all.len() as int);
    assert(later.len() == all.len() - 3);
    match split_once_str(rest, '.') {
        Some((_, tail)) => {
            assert(later == seq![rest@.subrange(0, 0)] + split_char(tail@, '.') || true);
            assert(later.len() >= 1 + split_char(tail@, '.').len());
            proof {
                lemma_split_step(tail@, '.');
            }
            return None;
        },
        None => {},
    }
    assert(later == seq![rest@]);
    assert(all.len() == 4);
    assert(later[0] == all[3]);
    match parse_u8(rest) {
        Some(b) => {
            parts[3] = b;
        },
        None => {
            return None;
        },
    }
    proof {
        assert(spec_parse_u8(all[0]) == Some(parts@[0]));
        assert(spec_parse_u8(all[1]) == Some(parts@[1]));
        assert(spec_parse_u8(all[2]) == Some(parts@[2]));
        assert(spec_parse_u8(all[3]) == Some(parts@[3]));
        let want = Seq::new(4, |k: int| spec_parse_u8(all[k])->0);
        assert(parts@ =~= want);
    }
    Some(parts)
}

/// A netmask: the first `p` bits set, for some `p` up to 32.
pub open spec fn is_netmask(m: Seq<u8>) -> bool {
    exists|p: nat| p <= 32 && be_u32(m) == prefix_mask(p)
}

/// A static plan with exactly these address, gateway and DNS server, and the
/// prefix of this netmask.
pub open spec fn static_plan_of(
    plan: Ipv4Plan,
    address: Seq<u8>,
    netmask: Seq<u8>,
    gateway: Seq<u8>,
    dns: Option<Seq<u8>>,
) -> bool {
    match plan {
        Ipv4Plan::Static { address: a, prefix, gateway: g, dns: d } => {
            &&& a@ == address
            &&& g@ == gateway
            &&& prefix <= 32
            &&& be_u32(netmask) == prefix_mask(prefix as nat)
            &&& match (d, dns) {
                (Some(x), Some(y)) => x@ == y,
                (None, None) => true,
                _ => false,
            }
        },
        Ipv4Plan::Dhcp => false,
    }
}

/// The stored static configuration, when there is one with a valid netmask.
pub open spec fn stored_static(credentials: Option<&WifiCredentials>) -> Option<crate::provisioning::Ipv4Model> {
    match credentials {
        Some(c) => match c@.static_ipv4 {
            Some(s) => if is_netmask(s.netmask) {
                Some(s)
            } else {
                None
            },
            None => None,
        },
        None => None,
    }
}

/// The build-time address, netmask and gateway, when all three are given,
/// parse, and the netmask is valid.
pub open spec fn env_static(
    static_ip: Option<&str>,
    netmask: Option<&str>,
    gateway: Option<&str>,
) -> Option<(Seq<u8>, Seq<u8>, Seq<u8>)> {
    match (static_ip, netmask, gateway) {
        (Some(a), Some(m), Some(g)) => match (
            spec_parse_ipv4(a@),
            spec_parse_ipv4(m@),
            spec_parse_ipv4(g@),
        ) {
            (Some(x), Some(y), Some(z)) => if is_netmask(y) {
                Some((x, y, z))
            } else {
                None
            },
            _ => None,
        },
        _ => None,
    }
}

/// The build-time DNS server, when given and valid.
pub open spec fn env_dns(dns: Option<&str>) -> Option<Seq<u8>> {
    match dns {
        Some(t) => spec_parse_ipv4(t@),
        None => None,
    }
}

/// DHCP, not static.
pub fn build_net_config_dhcp() -> (r: (Ipv4Plan, bool))
    ensures
        r == (Ipv4Plan::Dhcp, false),
{
    (Ipv4Plan::Dhcp, false)
}

/// The IPv4 plan: the stored static configuration when its netmask is
/// valid; else the build-time settings when all parse and the netmask is
/// valid (with the build-time DNS server when it parses); else DHCP.
pub fn build_net_config_from_env(
    credentials: Option<&WifiCredentials>,
    static_ip: Option<&str>,
    netmask: Option<&str>,
    gateway: Option<&str>,
    dns: Option<&str>,
) -> (r: (Ipv4Plan, bool))
    ensures
        r.1 == r.0 is Static,
        match stored_static(credentials) {
            Some(s) => static_plan_of(r.0, s.address, s.netmask, s.gateway, s.dns),
            None => match env_static(static_ip, netmask, gateway) {
                Some((a, m, g)) => static_plan_of(r.0, a, m, g, env_dns(dns)),
                None => r.0 is Dhcp,
            },
        },
{
    let stored = build_ipv4_config(credentials);
    if stored.1 {
        proof {
            if let Ipv4Plan::Static { prefix, .. } = stored.0 {
                let c = credentials.unwrap();
                let s = c@.static_ipv4.unwrap();
                assert(be_u32(s.netmask) == prefix_mask(prefix as nat));
                assert(is_netmask(s.netmask));
            }
        }
        return stored;
    }
    proof {
        if let Some(c) = credentials {
            if let Some(s) = c@.static_ipv4 {
                assert(!is_netmask(s.netmask));
            }
        }
    }
    if let (Some(ip_s), Some(mask_s), Some(gw_s)) = (static_ip, netmask, gateway) {
        let ip = parse_ipv4(ip_s);
        let mask = parse_ipv4(mask_s);
        let gw = parse_ipv4(gw_s);
        if let (Some(ip), Some(mask), Some(gw)) = (ip, mask, gw) {
            match netmask_to_prefix(mask) {
                Some(prefix) => {
                    let dns_ip = match dns {
                        Some(d) => parse_ipv4(d),
                        None => None,
                    };
                    assert(is_netmask(mask@));
                    return (Ipv4Plan::Static { address: ip, prefix, gateway: gw, dns: dns_ip }, true);
                },
                None => {
                    assert(!is_netmask(mask@));
                },
            }
        }
    }
    build_net_config_dhcp()
}

/// The names a device goes by.
pub struct DeviceNames {
    pub mac: [u8; 6],
    pub short_id: TextBuf,
    pub hostname: TextBuf,
    pub hostname_fqdn: TextBuf,
}

/// The hostname: the configured one, cleaned up, when that leaves anything;
/// else the one made from the short id.
pub open spec fn chosen_hostname(mac: Seq<u8>, configured: Option<&str>) -> Seq<char> {
    match configured {
        Some(h) => if spec_sanitize_hostname(h@).len() > 0 {
            spec_sanitize_hostname(h@)
        } else {
            spec_hostname(spec_short_id(mac))
        },
        None => spec_hostname(spec_short_id(mac)),
    }
}

pub fn derive_device_names(mac: [u8; 6], configured_hostname: Option<&str>) -> (n: DeviceNames)
    ensures
        n.mac == mac,
        n.short_id@ == spec_short_id(mac@),
        n.hostname@ == chosen_hostname(mac@, configured_hostname),
        n.hostname_fqdn@ == bounded_push(bounded_push(Seq::empty(), n.hostname@, 48), ".local"@, 48),
{
    let short_id = short_id_from_mac(mac);
    let hostname = match configured_hostname {
        Some(h) => {
            let cleaned = sanitize_hostname(h);
            if cleaned.is_empty() {
                hostname_from_short_id(short_id.as_str())
            } else {
                cleaned
            }
        },
        None => hostname_from_short_id(short_id.as_str()),
    };
    let hostname_fqdn = fqdn_from_hostname(hostname.as_str());
    DeviceNames { mac, short_id, hostname, hostname_fqdn }
}

/// An ASCII hexadecimal digit.
pub open spec fn is_hex_digit(c: char) -> bool {
    ('0' <= c <= '9') || ('a' <= c <= 'f') || ('A' <= c <= 'F')
}

pub open spec fn ascii_upper(c: char) -> char {
    if 'a' <= c <= 'z' {
        ((c as u32) - 32) as char
    } else {
        c
    }
}

/// The hexadecimal digits of `s`, in upper case.
pub open spec fn hex_upper_chars(s: Seq<char>) -> Seq<char>
    decreases s.len(),
{
    if s.len() == 0 {
        Seq::empty()
    } else if is_hex_digit(s.last()) {
        hex_upper_chars(s.drop_last()).push(ascii_upper(s.last()))
    } else {
        hex_upper_chars(s.drop_last())
    }
}

proof fn lemma_hex_upper_chars_ascii(s: Seq<char>)
    ensures
        vstd::utf8::is_ascii_chars(hex_upper_chars(s)),
    decreases s.len(),
{
    if s.len() > 0 {
        lemma_hex_upper_chars_ascii(s.drop_last());
    }
}

/// A 20-column line of the status toast: the text, then spaces.
pub open spec fn toast_line(text: Seq<char>) -> Seq<u8> {
    Seq::new(20, |i: int| if i < text.len() { text[i] as u8 } else { 0x20u8 })
}

/// The first line: `ID` and the device's short id (hex digits only, upper
/// case), when it has one that is not blank; `NO WIFI` otherwise.
pub open spec fn toast_id_text(short_id: Option<Seq<char>>) -> Seq<char> {
    match short_id {
        Some(s) => if crate::network::trim(s).len() > 0 {
            truncated("ID "@ + hex_upper_chars(crate::network::trim(s)), 20)
        } else {
            "NO WIFI"@
        },
        None => "NO WIFI"@,
    }
}

/// The second line: `IP` and the address, or `NO IP`.
pub open spec fn toast_ip_text(ip: Option<[u8; 4]>) -> Seq<char> {
    match ip {
        Some(a) => "IP "@ + ipv4_text(a@),
        None => "NO IP"@,
    }
}

fn toast_line_of(text: &str) -> (line: [u8; 20])
    requires
        vstd::utf8::is_ascii_chars(text@),
        text@.len() <= 20,
    ensures
        line@ == toast_line(text@),
{
    proof {
        vstd::utf8::is_ascii_chars_encode_utf8(text@);
    }
    let bytes = text.as_bytes();
    let mut line = [0x20u8; 20];
    let mut i: usize = 0;
    while i < bytes.len()
        invariant
            0 <= i <= bytes@.len(),
            bytes@ == vstd::utf8::encode_utf8(text@),
            bytes@.len() == text@.len(),
            text@.len() <= 20,
            vstd::utf8::is_ascii_chars(text@),
            forall|j: int| 0 <= j < 20 ==> #[trigger] line@[j] == if j < i {
                text@[j] as u8
            } else {
                0x20u8
            },
        decreases bytes@.len() - i,
    {
        proof {
            vstd::utf8::is_ascii_chars_encode_utf8(text@);
        }
        line[i] = bytes[i];
        i = i + 1;
    }
    assert(line@ =~= toast_line(text@));
    line
}

/// The three lines of the network status toast: the device id, the
/// address, and a blank line.
pub fn format_network_toast_lines(short_id: Option<&str>, ip: Option<[u8; 4]>) -> (lines: [[u8; 20]; 3])
    ensures
        lines@[0]@ == toast_line(toast_id_text(opt_text(short_id))),
        lines@[1]@ == toast_line(toast_ip_text(ip)),
        lines@[2]@ == toast_line(Seq::empty()),
{
    let id_line = match short_id {
        Some(v) => {
            let id = crate::network::trim_str(v);
            if id.unicode_len() > 0 {
                let mut out = TextBuf::with_capacity(20);
                proof {
                    reveal_strlit("ID ");
                    lemma_ascii_utf8_len("ID "@);
                    assert(Seq::<char>::empty() + "ID "@ =~= "ID "@);
                }
                out.push_str("ID ");
                let n = id.unicode_len();
                let mut i: usize = 0;
                assert(hex_upper_chars(id@.subrange(0, 0)) =~= Seq::<char>::empty());
                assert("ID "@ + Seq::<char>::empty() =~= "ID "@);
                while i < n
                    invariant
                        0 <= i <= n,
                        n == id@.len(),
                        out.capacity() == 20,
                        out@ == truncated("ID "@ + hex_upper_chars(id@.subrange(0, i as int)), 20),
                        vstd::utf8::is_ascii_chars(out@),
                    decreases n - i,
                {
                    let c = id.get_char(i);
                    let ghost prev = "ID "@ + hex_upper_chars(id@.subrange(0, i as int));
                    proof {
                        reveal_strlit("ID ");
                        let next = id@.subrange(0, i + 1);
                        assert(next.drop_last() =~= id@.subrange(0, i as int));
                        assert(next.last() == c);
                        lemma_ascii_utf8_len(out@);
                    }
                    if ('0' <= c && c <= '9') || ('a' <= c && c <= 'f') || ('A' <= c && c <= 'F') {
                        let uc = if 'a' <= c && c <= 'z' {
                            ((c as u32) - 32) as u8 as char
                        } else {
                            c
                        };
                        assert(uc == ascii_upper(c));
                        proof {
                            lemma_ascii_utf8_len(seq![uc]);
                            assert(prev.push(uc) =~= "ID "@ + hex_upper_chars(id@.subrange(0, i + 1)));
                            if prev.len() < 20 {
                                assert(truncated(prev.push(uc), 20) =~= prev.push(uc));
                            } else {
                                assert(truncated(prev.push(uc), 20) =~= truncated(prev, 20));
                            }
                        }
                        out.push(uc);
                    } else {
                        assert(prev =~= "ID "@ + hex_upper_chars(id@.subrange(0, i + 1)));
                    }
                    i = i + 1;
                }
                assert(id@.subrange(0, n as int) =~= id@);
                proof {
                    lemma_ascii_utf8_len(out@);
                }
                toast_line_of(out.as_str())
            } else {
                proof {
                    reveal_strlit("NO WIFI");
                }
                toast_line_of("NO WIFI")
            }
        },
        None => {
            proof {
                reveal_strlit("NO WIFI");
            }
            toast_line_of("NO WIFI")
        },
    };
    let ip_line = match ip {
        Some(a) => {
            let text = format_ipv4(a);
            let mut out = TextBuf::with_capacity(20);
            proof {
                reveal_strlit("IP ");
                reveal_strlit(".");
                lemma_ascii_utf8_len("IP "@);
                assert(Seq::<char>::empty() + "IP "@ =~= "IP "@);
                lemma_byte_dec_len(a[0] as nat);
                lemma_byte_dec_len(a[1] as nat);
                lemma_byte_dec_len(a[2] as nat);
                lemma_byte_dec_len(a[3] as nat);
                lemma_dec_chars_ascii(a[0] as nat);
                lemma_dec_chars_ascii(a[1] as nat);
                lemma_dec_chars_ascii(a[2] as nat);
                lemma_dec_chars_ascii(a[3] as nat);
                let t = ipv4_text(a@);
                assert(vstd::utf8::is_ascii_chars(t));
                lemma_ascii_utf8_len(t);
                lemma_ascii_utf8_len("IP "@ + t);
            }
            out.push_str("IP ");
            out.push_str(text.as_str());
            toast_line_of(out.as_str())
        },
        None => {
            proof {
                reveal_strlit("NO IP");
            }
            toast_line_of("NO IP")
        },
    };
    proof {
        reveal_strlit("");
    }
    let blank = toast_line_of("");
    [id_line, ip_line, blank]
}

pub open spec fn opt_text(v: Option<&str>) -> Option<Seq<char>> {
    match v {
        Some(s) => Some(s@),
        None => None,
    }
}

proof fn lemma_dec_chars_parse(n: nat)
    ensures
        dec_chars(n).len() >= 1,
        forall|i: int| 0 <= i < dec_chars(n).len() ==> is_digit(#[trigger] dec_chars(n)[i]),
        digits_value(dec_chars(n)) == n,
    decreases n,
{
    if n >= 10 {
        lemma_dec_chars_parse(n / 10);
        let d = dec_chars(n);
        assert(d.drop_last() =~= dec_chars(n / 10));
        assert(d.last() == crate::text::digit_char(n % 10));
        assert((crate::text::digit_char(n % 10) as nat) == n % 10 + 48);
        assert(digits_value(d) == digits_value(d.drop_last()) * 10 + ((d.last() as nat) - 48) as nat);
        assert(digits_value(d.drop_last()) == n / 10);
        assert(n == (n / 10) * 10 + n % 10);
    } else {
        let d = dec_chars(n);
        assert((crate::text::digit_char(n) as nat) == n + 48);
        assert(d.drop_last() =~= Seq::<char>::empty());
        assert(digits_value(d) == digits_value(d.drop_last()) * 10 + ((d.last() as nat) - 48) as nat);
    }
}

proof fn lemma_split_at_dot(a: Seq<char>, rest: Seq<char>)
    requires
        forall|i: int| 0 <= i < a.len() ==> is_digit(#[trigger] a[i]),
    ensures
        split_once(a + seq!['.'] + rest, '.') == Some((a, rest)),
{
    let s = a + seq!['.'] + rest;
    assert forall|j: int| 0 <= j < a.len() implies s[j] != '.' by {
        assert(s[j] == a[j]);
        assert(is_digit(a[j]));
    }
    crate::text::lemma_index_of_unique(s, '.', a.len() as int);
    assert(s.subrange(0, a.len() as int) =~= a);
    assert(s.subrange(a.len() as int + 1, s.len() as int) =~= rest);
}

proof fn lemma_parse_dec_byte(b: u8)
    ensures
        spec_parse_u8(dec_chars(b as nat)) == Some(b),
{
    lemma_dec_chars_parse(b as nat);
    let d = dec_chars(b as nat);
    assert(is_digit(d[0]));
    assert(unsigned_digits(d) == d);
}

/// Dotted-quad text reads back as the address it was made from.
pub proof fn lemma_ipv4_text_round_trip(ip: [u8; 4])
    ensures
        spec_parse_ipv4(ipv4_text(ip@)) == Some(ip@),
{
    reveal_strlit(".");
    let t0 = dec_chars(ip[0] as nat);
    let t1 = dec_chars(ip[1] as nat);
    let t2 = dec_chars(ip[2] as nat);
    let t3 = dec_chars(ip[3] as nat);
    lemma_dec_chars_parse(ip[0] as nat);
    lemma_dec_chars_parse(ip[1] as nat);
    lemma_dec_chars_parse(ip[2] as nat);
    lemma_dec_chars_parse(ip[3] as nat);
    let s = ipv4_text(ip@);
    let r1 = t1 + seq!['.'] + t2 + seq!['.'] + t3;
    let r2 = t2 + seq!['.'] + t3;
    assert(s =~= t0 + seq!['.'] + r1);
    assert(r1 =~= t1 + seq!['.'] + r2);
    lemma_split_at_dot(t0, r1);
    lemma_split_at_dot(t1, r2);
    lemma_split_at_dot(t2, t3);
    lemma_split_step(s, '.');
    lemma_split_step(r1, '.');
    lemma_split_step(r2, '.');
    lemma_split_step(t3, '.');
    assert forall|j: int| 0 <= j < t3.len() implies t3[j] != '.' by {
        assert(is_digit(t3[j]));
    }
    crate::text::lemma_index_of(t3, '.');
    let parts = split_char(s, '.');
    assert(parts =~= seq![t0, t1, t2, t3]);
    lemma_parse_dec_byte(ip[0]);
    lemma_parse_dec_byte(ip[1]);
    lemma_parse_dec_byte(ip[2]);
    lemma_parse_dec_byte(ip[3]);
    assert(Seq::new(4, |k: int| spec_parse_u8(parts[k])->0) =~= ip@);
}

} // verus!
