//! Wi-Fi credentials and the 160-byte EEPROM record they are stored in.
//!
//! Layout of the record: magic `IPWIFI1\0` at 0..8, version 2 at 8, flags at
//! 9 (bit 0 a static IPv4 configuration, bit 1 a static DNS server), SSID
//! length at 12, passphrase length at 13, SSID at 16..48, passphrase at
//! 48..112, address, netmask, gateway and DNS server at 112..128, and at
//! 156..160 the FNV-1a checksum (little-endian) of the record with those four
//! bytes zeroed. A record of only `0x00` and `0xff` bytes holds no
//! credentials.
use vstd::prelude::*;
use vstd::utf8::{decode_utf8, encode_utf8, valid_utf8};
use crate::text::str_from_utf8;

verus! {

pub const WIFI_EEPROM_ADDR_7BIT: u8 = 0x50;
pub const RECORD_LEN: usize = 160;
pub const RECORD_VERSION: u8 = 2;
pub const EEPROM_PAGE_SIZE: usize = 16;
pub const FLAG_STATIC_IPV4: u8 = 1;
pub const FLAG_STATIC_DNS: u8 = 2;

#[derive(Clone, Copy, Debug, PartialEq, Eq)]
pub struct StaticIpv4Config {
    pub address: [u8; 4],
    pub netmask: [u8; 4],
    pub gateway: [u8; 4],
    pub dns: Option<[u8; 4]>,
}

/// A static IPv4 configuration as byte sequences.
pub struct Ipv4Model {
    pub address: Seq<u8>,
    pub netmask: Seq<u8>,
    pub gateway: Seq<u8>,
    pub dns: Option<Seq<u8>>,
}

pub open spec fn ipv4_model(c: StaticIpv4Config) -> Ipv4Model {
    Ipv4Model {
        address: c.address@,
        netmask: c.netmask@,
        gateway: c.gateway@,
        dns: match c.dns {
            Some(d) => Some(d@),
            None => None,
        },
    }
}

pub open spec fn ipv4_model_opt(c: Option<StaticIpv4Config>) -> Option<Ipv4Model> {
    match c {
        Some(c) => Some(ipv4_model(c)),
        None => None,
    }
}

/// What a set of credentials holds: the SSID and passphrase bytes and the
/// optional static IPv4 configuration.
pub struct CredentialsModel {
    pub ssid: Seq<u8>,
    pub psk: Seq<u8>,
    pub static_ipv4: Option<Ipv4Model>,
}

/// Credentials a record can hold: an SSID of 1 to 32 bytes, a passphrase of
/// at most 64, and four-byte addresses.
pub open spec fn storable(m: CredentialsModel) -> bool {
    &&& 1 <= m.ssid.len() <= 32
    &&& m.psk.len() <= 64
    &&& m.static_ipv4 matches Some(s) ==> {
        &&& s.address.len() == 4
        &&& s.netmask.len() == 4
        &&& s.gateway.len() == 4
        &&& s.dns matches Some(d) ==> d.len() == 4
    }
}

#[derive(Clone, Copy, Debug, PartialEq, Eq)]
pub struct WifiCredentials {
    ssid: [u8; 32],
    ssid_len: u8,
    psk: [u8; 64],
    psk_len: u8,
    static_ipv4: Option<StaticIpv4Config>,
}

impl View for WifiCredentials {
    type V = CredentialsModel;

    closed spec fn view(&self) -> CredentialsModel {
        CredentialsModel {
            ssid: self.ssid@.take(self.ssid_len as int),
            psk: self.psk@.take(self.psk_len as int),
            static_ipv4: ipv4_model_opt(self.static_ipv4),
        }
    }
}

#[derive(Clone, Copy, Debug, PartialEq, Eq)]
pub enum ProvisioningError<E> {
    Bus(E),
    InvalidInput,
    InvalidRecord,
}

/// Zero-padded copy of `bytes` into `n` bytes.
pub open spec fn padded(bytes: Seq<u8>, n: nat) -> Seq<u8> {
    Seq::new(n, |i: int| if i < bytes.len() { bytes[i] } else { 0u8 })
}

impl WifiCredentials {
    #[verifier::type_invariant]
    closed spec fn well_formed(&self) -> bool {
        &&& 1 <= self.ssid_len <= 32
        &&& self.psk_len <= 64
        &&& forall|i: int| self.ssid_len <= i < 32 ==> self.ssid@[i] == 0
        &&& forall|i: int| self.psk_len <= i < 64 ==> self.psk@[i] == 0
    }

    /// Credentials with an SSID of 1 to 32 bytes and a passphrase that is
    /// empty or of 8 to 64 bytes; other inputs are `InvalidInput`.
    pub fn new(ssid: &str, psk: &str) -> (r: Result<Self, ProvisioningError<()>>)
        ensures
            ({
                let s = encode_utf8(ssid@);
                let p = encode_utf8(psk@);
                if s.len() == 0 || s.len() > 32 || (p.len() != 0 && p.len() < 8) || p.len() > 64 {
                    r == Err::<Self, ProvisioningError<()>>(ProvisioningError::InvalidInput)
                } else {
                    r matches Ok(c) && c@ == (CredentialsModel {
                        ssid: s,
                        psk: p,
                        static_ipv4: None,
                    })
                }
            }),
    {
        let ssid_b = ssid.as_bytes();
        let psk_b = psk.as_bytes();
        if ssid_b.len() == 0 || ssid_b.len() > 32 || (psk_b.len() != 0 && psk_b.len() < 8)
            || psk_b.len() > 64 {
            return Err(ProvisioningError::InvalidInput);
        }
        let mut ssid_arr = [0u8; 32];
        let mut i: usize = 0;
        while i < 32
            invariant
                0 <= i <= 32,
                ssid_b@.len() <= 32,
                forall|j: int| 0 <= j < i ==> ssid_arr@[j] == padded(ssid_b@, 32)[j],
                forall|j: int| i <= j < 32 ==> ssid_arr@[j] == 0,
            decreases 32 - i,
        {
            if i < ssid_b.len() {
                ssid_arr[i] = ssid_b[i];
            }
            i = i + 1;
        }
        let mut psk_arr = [0u8; 64];
        let mut i: usize = 0;
        while i < 64
            invariant
                0 <= i <= 64,
                psk_b@.len() <= 64,
                forall|j: int| 0 <= j < i ==> psk_arr@[j] == padded(psk_b@, 64)[j],
                forall|j: int| i <= j < 64 ==> psk_arr@[j] == 0,
            decreases 64 - i,
        {
            if i < psk_b.len() {
                psk_arr[i] = psk_b[i];
            }
            i = i + 1;
        }
        let c = WifiCredentials {
            ssid: ssid_arr,
            ssid_len: ssid_b.len() as u8,
            psk: psk_arr,
            psk_len: psk_b.len() as u8,
            static_ipv4: None,
        };
        assert(c.ssid@.take(c.ssid_len as int) =~= ssid_b@);
        assert(c.psk@.take(c.psk_len as int) =~= psk_b@);
        Ok(c)
    }

    /// The SSID as text; empty when its bytes are not valid UTF-8.
    pub fn ssid(&self) -> (s: &str)
        ensures
            1 <= self@.ssid.len() <= 32,
            s@ == if valid_utf8(self@.ssid) {
                decode_utf8(self@.ssid)
            } else {
                Seq::empty()
            },
    {
        proof {
            use_type_invariant(self);
        }
        let bytes = vstd::slice::slice_subrange(
            vstd::array::array_as_slice(&self.ssid),
            0,
            self.ssid_len as usize,
        );
        assert(bytes@ =~= self@.ssid);
        match str_from_utf8(bytes) {
            Some(s) => s,
            None => {
                proof {
                    reveal_strlit("");
                }
                ""
            },
        }
    }

    /// The passphrase as text; empty when its bytes are not valid UTF-8.
    pub fn psk(&self) -> (s: &str)
        ensures
            s@ == if valid_utf8(self@.psk) {
                decode_utf8(self@.psk)
            } else {
                Seq::empty()
            },
    {
        proof {
            use_type_invariant(self);
        }
        let bytes = vstd::slice::slice_subrange(
            vstd::array::array_as_slice(&self.psk),
            0,
            self.psk_len as usize,
        );
        assert(bytes@ =~= self@.psk);
        match str_from_utf8(bytes) {
            Some(s) => s,
            None => {
                proof {
                    reveal_strlit("");
                }
                ""
            },
        }
    }

    /// Whether a passphrase is set (an open network has none).
    pub fn psk_configured(&self) -> (b: bool)
        ensures
            b == (self@.psk.len() > 0),
    {
        proof {
            use_type_invariant(self);
        }
        self.psk_len > 0
    }

    pub fn static_ipv4(&self) -> (r: Option<StaticIpv4Config>)
        ensures
            ipv4_model_opt(r) == self@.static_ipv4,
    {
        self.static_ipv4
    }

    /// The same credentials with a static IPv4 configuration.
    pub fn with_static_ipv4(self, static_ipv4: StaticIpv4Config) -> (r: Self)
        ensures
            r@ == (CredentialsModel { static_ipv4: Some(ipv4_model(static_ipv4)), ..self@ }),
    {
        proof {
            use_type_invariant(&self);
        }
        WifiCredentials { static_ipv4: Some(static_ipv4), ..self }
    }
}

/// FNV-1a over `bytes`.
pub open spec fn fnv1a(bytes: Seq<u8>) -> u32
    decreases bytes.len(),
{
    if bytes.len() == 0 {
        0x811c_9dc5u32
    } else {
        vstd::wrapping::u32_specs::wrapping_mul(
            fnv1a(bytes.drop_last()) ^ (bytes.last() as u32),
            0x0100_0193u32,
        )
    }
}

/// FNV-1a (32-bit) over the bytes.
pub fn checksum(bytes: &[u8]) -> (h: u32)
    ensures
        h == fnv1a(bytes@),
{
    let mut h: u32 = 0x811c_9dc5;
    let mut i: usize = 0;
    while i < bytes.len()
        invariant
            0 <= i <= bytes@.len(),
            h == fnv1a(bytes@.take(i as int)),
        decreases bytes@.len() - i,
    {
        assert(bytes@.take(i + 1).drop_last() =~= bytes@.take(i as int));
        h = (h ^ (bytes[i] as u32)).wrapping_mul(0x0100_0193);
        i = i + 1;
    }
    assert(bytes@.take(i as int) =~= bytes@);
    h
}

pub open spec fn record_magic() -> Seq<u8> {
    seq![0x49u8, 0x50u8, 0x57u8, 0x49u8, 0x46u8, 0x49u8, 0x31u8, 0u8]
}

pub open spec fn record_flags(c: Option<Ipv4Model>) -> u8 {
    match c {
        None => 0,
        Some(s) => if s.dns is Some {
            3
        } else {
            1
        },
    }
}

/// Byte `i` of the record of `m`, with the checksum bytes still zero.
pub open spec fn body_byte(m: CredentialsModel, i: int) -> u8 {
    if i < 8 {
        record_magic()[i]
    } else if i == 8 {
        2
    } else if i == 9 {
        record_flags(m.static_ipv4)
    } else if i == 12 {
        m.ssid.len() as u8
    } else if i == 13 {
        m.psk.len() as u8
    } else if 16 <= i < 16 + m.ssid.len() {
        m.ssid[i - 16]
    } else if 48 <= i < 48 + m.psk.len() {
        m.psk[i - 48]
    } else if 112 <= i < 124 && m.static_ipv4 is Some {
        let s = m.static_ipv4.unwrap();
        if i < 116 {
            s.address[i - 112]
        } else if i < 120 {
            s.netmask[i - 116]
        } else {
            s.gateway[i - 120]
        }
    } else if 124 <= i < 128 && m.static_ipv4 is Some && m.static_ipv4.unwrap().dns is Some {
        m.static_ipv4.unwrap().dns.unwrap()[i - 124]
    } else {
        0
    }
}

pub open spec fn record_body(m: CredentialsModel) -> Seq<u8> {
    Seq::new(160, |i: int| body_byte(m, i))
}

pub open spec fn le_bytes(v: u32) -> Seq<u8> {
    seq![
        (v % 256) as u8,
        ((v / 256) % 256) as u8,
        ((v / 65536) % 256) as u8,
        (v / 16777216) as u8,
    ]
}

pub open spec fn le_u32(b0: u8, b1: u8, b2: u8, b3: u8) -> u32 {
    (b0 + b1 * 256 + b2 * 65536 + b3 * 16777216) as u32
}

/// The record that stores `m`.
pub open spec fn spec_encode(m: CredentialsModel) -> Seq<u8> {
    record_body(m).take(156) + le_bytes(fnv1a(record_body(m)))
}

pub open spec fn is_blank(r: Seq<u8>) -> bool {
    forall|i: int| 0 <= i < r.len() ==> r[i] == 0 || r[i] == 0xff
}

/// What a record holds: nothing when blank, the credentials when it is a
/// well-formed record with a matching checksum, otherwise an invalid record.
pub open spec fn spec_decode(r: Seq<u8>) -> Result<Option<CredentialsModel>, ()> {
    let ssid_len = r[12] as int;
    let psk_len = r[13] as int;
    let flags = r[9];
    let cleared = r.take(156) + seq![0u8, 0u8, 0u8, 0u8];
    if is_blank(r) {
        Ok(None)
    } else if r.take(8) != record_magic() || r[8] != 2 {
        Err(())
    } else if ssid_len == 0 || ssid_len > 32 || psk_len > 64 {
        Err(())
    } else if fnv1a(cleared) != le_u32(r[156], r[157], r[158], r[159]) {
        Err(())
    } else {
        Ok(
            Some(
                CredentialsModel {
                    ssid: r.subrange(16, 16 + ssid_len),
                    psk: r.subrange(48, 48 + psk_len),
                    static_ipv4: if flags & 1 != 0 {
                        Some(
                            Ipv4Model {
                                address: r.subrange(112, 116),
                                netmask: r.subrange(116, 120),
                                gateway: r.subrange(120, 124),
                                dns: if flags & 2 != 0 {
                                    Some(r.subrange(124, 128))
                                } else {
                                    None
                                },
                            },
                        )
                    } else {
                        None
                    },
                },
            ),
        )
    }
}

fn record_byte(c: &WifiCredentials, i: usize) -> (b: u8)
    requires
        i < 160,
    ensures
        b == body_byte(c@, i as int),
{
    proof {
        use_type_invariant(c);
    }
    let ssid_len = c.ssid_len as usize;
    let psk_len = c.psk_len as usize;
    assert(1u8 | 2u8 == 3u8) by (bit_vector);
    if i < 8 {
        let magic: [u8; 8] = [0x49, 0x50, 0x57, 0x49, 0x46, 0x49, 0x31, 0];
        assert(magic@ =~= record_magic());
        magic[i]
    } else if i == 8 {
        RECORD_VERSION
    } else if i == 9 {
        match c.static_ipv4 {
            None => 0,
            Some(s) => if s.dns.is_some() {
                FLAG_STATIC_IPV4 | FLAG_STATIC_DNS
            } else {
                FLAG_STATIC_IPV4
            },
        }
    } else if i == 12 {
        c.ssid_len
    } else if i == 13 {
        c.psk_len
    } else if 16 <= i && i < 16 + ssid_len {
        c.ssid[i - 16]
    } else if 48 <= i && i < 48 + psk_len {
        c.psk[i - 48]
    } else if 112 <= i && i < 124 && c.static_ipv4.is_some() {
        let s = c.static_ipv4.unwrap();
        if i < 116 {
            s.address[i - 112]
        } else if i < 120 {
            s.netmask[i - 116]
        } else {
            s.gateway[i - 120]
        }
    } else if 124 <= i && i < 128 && c.static_ipv4.is_some() && c.static_ipv4.unwrap().dns.is_some() {
        c.static_ipv4.unwrap().dns.unwrap()[i - 124]
    } else {
        0
    }
}

/// The record that stores the credentials.
pub fn encode_wifi_record(credentials: &WifiCredentials) -> (r: [u8; 160])
    ensures
        r@ == spec_encode(credentials@),
{
    proof {
        assert(3u8 == (1u8 | 2u8)) by (bit_vector);
    }
    let mut record = [0u8; 160];
    let mut i: usize = 0;
    while i < 160
        invariant
            0 <= i <= 160,
            record@.len() == 160,
            forall|j: int| 0 <= j < i ==> record@[j] == body_byte(credentials@, j),
        decreases 160 - i,
    {
        record[i] = record_byte(credentials, i);
        i = i + 1;
    }
    assert(record@ =~= record_body(credentials@));
    let crc = checksum(vstd::array::array_as_slice(&record));
    record[156] = (crc % 256) as u8;
    record[157] = ((crc / 256) % 256) as u8;
    record[158] = ((crc / 65536) % 256) as u8;
    record[159] = (crc / 16777216) as u8;
    assert(record@ =~= spec_encode(credentials@));
    record
}

/// Reads a record: `Ok(None)` for a blank record, the credentials for a
/// well-formed one whose checksum matches, `InvalidRecord` otherwise.
pub fn decode_wifi_record<E>(record: &[u8; 160]) -> (r: Result<Option<WifiCredentials>, ProvisioningError<E>>)
    ensures
        match spec_decode(record@) {
            Ok(None) => r matches Ok(None),
            Ok(Some(m)) => r matches Ok(Some(c)) && c@ == m,
            Err(()) => r matches Err(ProvisioningError::InvalidRecord),
        },
{
    let mut blank = true;
    let mut i: usize = 0;
    while i < 160
        invariant
            0 <= i <= 160,
            record@.len() == 160,
            blank <==> forall|j: int| 0 <= j < i ==> record@[j] == 0 || record@[j] == 0xff,
        decreases 160 - i,
    {
        if record[i] != 0 && record[i] != 0xff {
            blank = false;
        }
        i = i + 1;
    }
    if blank {
        return Ok(None);
    }
    let magic: [u8; 8] = [0x49, 0x50, 0x57, 0x49, 0x46, 0x49, 0x31, 0];
    assert(magic@ =~= record_magic());
    let mut i: usize = 0;
    while i < 8
        invariant
            0 <= i <= 8,
            record@.len() == 160,
            magic@ == record_magic(),
            !is_blank(record@),
            forall|j: int| 0 <= j < i ==> record@[j] == magic@[j],
        decreases 8 - i,
    {
        if record[i] != magic[i] {
            assert(record@.take(8)[i as int] != record_magic()[i as int]);
            return Err(ProvisioningError::InvalidRecord);
        }
        i = i + 1;
    }
    assert(record@.take(8) =~= record_magic());
    if record[8] != RECORD_VERSION {
        return Err(ProvisioningError::InvalidRecord);
    }
    let ssid_len = record[12] as usize;
    let psk_len = record[13] as usize;
    if ssid_len == 0 || ssid_len > 32 || psk_len > 64 {
        return Err(ProvisioningError::InvalidRecord);
    }
    let flags = record[9];
    let expected = (record[156] as u32) + (record[157] as u32) * 256 + (record[158] as u32) * 65536
        + (record[159] as u32) * 16777216;
    let mut cleared = *record;
    cleared[156] = 0;
    cleared[157] = 0;
    cleared[158] = 0;
    cleared[159] = 0;
    assert(cleared@ =~= record@.take(156) + seq![0u8, 0u8, 0u8, 0u8]);
    if checksum(vstd::array::array_as_slice(&cleared)) != expected {
        return Err(ProvisioningError::InvalidRecord);
    }
    let mut ssid = [0u8; 32];
    let mut i: usize = 0;
    while i < 32
        invariant
            0 <= i <= 32,
            1 <= ssid_len <= 32,
            record@.len() == 160,
            forall|j: int| 0 <= j < i ==> ssid@[j] == padded(record@.subrange(16, 16 + ssid_len), 32)[j],
            forall|j: int| i <= j < 32 ==> ssid@[j] == 0,
        decreases 32 - i,
    {
        if i < ssid_len {
            ssid[i] = record[16 + i];
        }
        i = i + 1;
    }
    let mut psk = [0u8; 64];
    let mut i: usize = 0;
    while i < 64
        invariant
            0 <= i <= 64,
            psk_len <= 64,
            record@.len() == 160,
            forall|j: int| 0 <= j < i ==> psk@[j] == padded(record@.subrange(48, 48 + psk_len), 64)[j],
            forall|j: int| i <= j < 64 ==> psk@[j] == 0,
        decreases 64 - i,
    {
        if i < psk_len {
            psk[i] = record[48 + i];
        }
        i = i + 1;
    }
    let static_ipv4 = if flags & FLAG_STATIC_IPV4 != 0 {
        let address = [record[112], record[113], record[114], record[115]];
        let netmask = [record[116], record[117], record[118], record[119]];
        let gateway = [record[120], record[121], record[122], record[123]];
        let dns = if flags & FLAG_STATIC_DNS != 0 {
            let d = [record[124], record[125], record[126], record[127]];
            assert(d@ =~= record@.subrange(124, 128));
            Some(d)
        } else {
            None
        };
        assert(address@ =~= record@.subrange(112, 116));
        assert(netmask@ =~= record@.subrange(116, 120));
        assert(gateway@ =~= record@.subrange(120, 124));
        Some(StaticIpv4Config { address, netmask, gateway, dns })
    } else {
        None
    };
    let c = WifiCredentials {
        ssid,
        ssid_len: ssid_len as u8,
        psk,
        psk_len: psk_len as u8,
        static_ipv4,
    };
    assert(c.ssid@.take(ssid_len as int) =~= record@.subrange(16, 16 + ssid_len));
    assert(c.psk@.take(psk_len as int) =~= record@.subrange(48, 48 + psk_len));
    Ok(Some(c))
}

proof fn lemma_le_round_trip(v: u32)
    ensures
        le_u32(le_bytes(v)[0], le_bytes(v)[1], le_bytes(v)[2], le_bytes(v)[3]) == v,
{
    let b0 = v % 256;
    let b1 = (v / 256) % 256;
    let b2 = (v / 65536) % 256;
    let b3 = v / 16777216;
    assert(b0 + b1 * 256 + b2 * 65536 + b3 * 16777216 == v) by (nonlinear_arith)
        requires
            b0 == v % 256,
            b1 == (v / 256) % 256,
            b2 == (v / 65536) % 256,
            b3 == v / 16777216,
    ;
}

/// What is stored is read back: the record of storable credentials decodes
/// to those same credentials.
pub proof fn lemma_record_round_trip(m: CredentialsModel)
    requires
        storable(m),
    ensures
        spec_decode(spec_encode(m)) == Ok::<Option<CredentialsModel>, ()>(Some(m)),
{
    let body = record_body(m);
    let r = spec_encode(m);
    let crc = fnv1a(body);
    assert(r.len() == 160);
    assert(r[0] == 0x49u8);
    assert(!is_blank(r));
    assert(r.take(8) =~= record_magic());
    assert(r.take(156) + seq![0u8, 0u8, 0u8, 0u8] =~= body);
    lemma_le_round_trip(crc);
    assert(r[156] == le_bytes(crc)[0] && r[157] == le_bytes(crc)[1] && r[158] == le_bytes(crc)[2]
        && r[159] == le_bytes(crc)[3]);
    assert(r.subrange(16, 16 + m.ssid.len() as int) =~= m.ssid);
    assert(r.subrange(48, 48 + m.psk.len() as int) =~= m.psk);
    assert(0u8 & 1u8 == 0u8) by (bit_vector);
    assert(1u8 & 1u8 == 1u8) by (bit_vector);
    assert(3u8 & 1u8 == 1u8) by (bit_vector);
    assert(1u8 & 2u8 == 0u8) by (bit_vector);
    assert(3u8 & 2u8 == 2u8) by (bit_vector);
    match m.static_ipv4 {
        Some(s) => {
            assert(r.subrange(112, 116) =~= s.address);
            assert(r.subrange(116, 120) =~= s.netmask);
            assert(r.subrange(120, 124) =~= s.gateway);
            match s.dns {
                Some(d) => {
                    assert(r.subrange(124, 128) =~= d);
                },
                None => {},
            }
        },
        None => {},
    }
    let decoded = spec_decode(r).unwrap().unwrap();
    assert(decoded.ssid == m.ssid);
    assert(decoded.psk == m.psk);
    assert(decoded.static_ipv4 == m.static_ipv4);
}

/// An erased record, all zeros or all `0xff`, holds no credentials.
pub proof fn lemma_erased_record_is_empty(fill: u8)
    requires
        fill == 0 || fill == 0xff,
    ensures
        spec_decode(Seq::new(160, |i: int| fill)) == Ok::<Option<CredentialsModel>, ()>(None),
{
}

/// The number of bytes of the next EEPROM page write at `offset`: what is
/// left, but never past the end of the 16-byte page.
pub fn eeprom_chunk_len(offset: u16, remaining: usize) -> (n: usize)
    ensures
        n == if remaining < 16 - (offset as int % 16) {
            remaining as int
        } else {
            16 - (offset as int % 16)
        },
        remaining > 0 ==> n > 0,
        (offset as int % 16) + n <= 16,
{
    let page_room = EEPROM_PAGE_SIZE - (offset as usize % EEPROM_PAGE_SIZE);
    if remaining < page_room {
        remaining
    } else {
        page_room
    }
}

} // verus!
