//! The device's network identity, made from its MAC address.
use vstd::prelude::*;
use crate::text::{
    bounded_push, hex_chars, hex_fixed, lemma_ascii_utf8_len, lemma_hex_chars_ascii,
    lemma_utf8_len_append, utf8_len, TextBuf,
};

verus! {

pub const DEVICE_VARIANT: &'static str = "v3";
pub const FIRMWARE_NAME: &'static str = "iso-usb-hub";
pub const HOSTNAME_PREFIX: &'static str = "isohub-";

/// Two lower-case hex digits of a byte.
pub open spec fn hex2(b: u8) -> Seq<char> {
    hex_chars(b as nat, 2, false)
}

/// The 6-character short id: the last three MAC bytes in lower-case hex.
pub open spec fn spec_short_id(mac: Seq<u8>) -> Seq<char> {
    hex2(mac[3]) + hex2(mac[4]) + hex2(mac[5])
}

/// `aa:bb:cc:dd:ee:ff`, lower-case hex.
pub open spec fn spec_mac_text(mac: Seq<u8>) -> Seq<char> {
    hex2(mac[0]) + seq![':'] + hex2(mac[1]) + seq![':'] + hex2(mac[2]) + seq![':'] + hex2(mac[3])
        + seq![':'] + hex2(mac[4]) + seq![':'] + hex2(mac[5])
}

pub open spec fn is_ascii_alnum(c: char) -> bool {
    ('0' <= c <= '9') || ('a' <= c <= 'z') || ('A' <= c <= 'Z')
}

pub open spec fn ascii_lower(c: char) -> char {
    if 'A' <= c <= 'Z' {
        ((c as u32) + 32) as char
    } else {
        c
    }
}

/// The ASCII letters and digits of `s`, lower-cased; everything else dropped.
pub open spec fn lower_alnum(s: Seq<char>) -> Seq<char>
    decreases s.len(),
{
    if s.len() == 0 {
        Seq::empty()
    } else if is_ascii_alnum(s.last()) {
        lower_alnum(s.drop_last()).push(ascii_lower(s.last()))
    } else {
        lower_alnum(s.drop_last())
    }
}

/// The first `n` characters of `s`, or all of it when shorter.
pub open spec fn truncated(s: Seq<char>, n: nat) -> Seq<char> {
    if s.len() <= n {
        s
    } else {
        s.take(n as int)
    }
}

/// The hostname for a short id: `isohub-` and the id's lower-cased letters
/// and digits, cut at 32 characters.
pub open spec fn spec_hostname(short_id: Seq<char>) -> Seq<char> {
    truncated("isohub-"@ + lower_alnum(short_id), 32)
}

proof fn lemma_lower_alnum_ascii(s: Seq<char>)
    ensures
        vstd::utf8::is_ascii_chars(lower_alnum(s)),
    decreases s.len(),
{
    if s.len() > 0 {
        lemma_lower_alnum_ascii(s.drop_last());
    }
}

fn push_hex2(out: &mut TextBuf, b: u8)
    requires
        utf8_len(old(out)@) + 2 <= old(out).capacity(),
    ensures
        final(out)@ == old(out)@ + hex2(b),
        final(out).capacity() == old(out).capacity(),
{
    let h = hex_fixed(b as u64, 2, false);
    proof {
        lemma_hex_chars_ascii(b as nat, 2, false);
        lemma_ascii_utf8_len(h@);
    }
    out.push_str(h.as_str());
}

/// Lower-case hex short id from the last 3 bytes of the MAC.
pub fn short_id_from_mac(mac: [u8; 6]) -> (r: TextBuf)
    ensures
        r@ == spec_short_id(mac@),
        r.capacity() == 6,
{
    let mut out = TextBuf::with_capacity(6);
    proof {
        lemma_hex_chars_ascii(mac[3] as nat, 2, false);
        lemma_hex_chars_ascii(mac[4] as nat, 2, false);
        lemma_ascii_utf8_len(hex2(mac[3]));
        lemma_ascii_utf8_len(hex2(mac[4]));
        lemma_utf8_len_append(hex2(mac[3]), hex2(mac[4]));
        assert(utf8_len(Seq::<char>::empty()) == 0) by {
            lemma_ascii_utf8_len(Seq::<char>::empty());
        }
        assert(Seq::<char>::empty() + hex2(mac[3]) =~= hex2(mac[3]));
    }
    push_hex2(&mut out, mac[3]);
    push_hex2(&mut out, mac[4]);
    push_hex2(&mut out, mac[5]);
    out
}

/// `isohub-<short_id>`: the prefix, then the short id's ASCII letters and
/// digits in lower case, each appended while it fits in 32 bytes.
pub fn hostname_from_short_id(short_id: &str) -> (r: TextBuf)
    ensures
        r@ == spec_hostname(short_id@),
        r.capacity() == 32,
{
    let mut out = TextBuf::with_capacity(32);
    proof {
        reveal_strlit("isohub-");
        lemma_ascii_utf8_len(Seq::<char>::empty());
        lemma_ascii_utf8_len("isohub-"@);
        assert(Seq::<char>::empty() + "isohub-"@ =~= "isohub-"@);
    }
    out.push_str(HOSTNAME_PREFIX);
    let n = short_id.unicode_len();
    let mut i: usize = 0;
    assert(lower_alnum(short_id@.subrange(0, 0)) =~= Seq::<char>::empty());
    assert("isohub-"@ + Seq::<char>::empty() =~= "isohub-"@);
    while i < n
        invariant
            0 <= i <= n,
            n == short_id@.len(),
            out.capacity() == 32,
            out@ == truncated("isohub-"@ + lower_alnum(short_id@.subrange(0, i as int)), 32),
            vstd::utf8::is_ascii_chars(out@),
        decreases n - i,
    {
        let c = short_id.get_char(i);
        let ghost prev = "isohub-"@ + lower_alnum(short_id@.subrange(0, i as int));
        proof {
            let next = short_id@.subrange(0, i + 1);
            assert(next.drop_last() =~= short_id@.subrange(0, i as int));
            assert(next.last() == c);
            lemma_lower_alnum_ascii(short_id@.subrange(0, i as int));
            lemma_ascii_utf8_len(out@);
        }
        if ('0' <= c && c <= '9') || ('a' <= c && c <= 'z') || ('A' <= c && c <= 'Z') {
            let lc = if 'A' <= c && c <= 'Z' {
                ((c as u32) + 32) as u8 as char
            } else {
                c
            };
            assert(lc == ascii_lower(c));
            proof {
                lemma_ascii_utf8_len(seq![lc]);
                assert(prev.push(lc) =~= "isohub-"@ + lower_alnum(short_id@.subrange(0, i + 1)));
                if prev.len() < 32 {
                    assert(truncated(prev.push(lc), 32) =~= prev.push(lc));
                } else {
                    assert(truncated(prev.push(lc), 32) =~= truncated(prev, 32));
                }
            }
            out.push(lc);
            proof {
                assert(out@ == truncated(prev.push(lc), 32));
            }
        } else {
            assert(prev =~= "isohub-"@ + lower_alnum(short_id@.subrange(0, i + 1)));
        }
        i = i + 1;
    }
    assert(short_id@.subrange(0, n as int) =~= short_id@);
    out
}

/// The hostname, then `.local`, each appended whole while it fits in 48
/// bytes.
pub fn fqdn_from_hostname(hostname: &str) -> (r: TextBuf)
    ensures
        r@ == bounded_push(bounded_push(Seq::empty(), hostname@, 48), ".local"@, 48),
        r.capacity() == 48,
        utf8_len(hostname@) <= 42 ==> r@ == hostname@ + ".local"@,
{
    let mut out = TextBuf::with_capacity(48);
    out.push_str(hostname);
    out.push_str(".local");
    proof {
        reveal_strlit(".local");
        lemma_ascii_utf8_len(".local"@);
        lemma_ascii_utf8_len(Seq::<char>::empty());
        assert(Seq::<char>::empty() + hostname@ =~= hostname@);
    }
    out
}

/// The MAC as six lower-case hex pairs separated by colons.
pub fn mac_to_string(mac: [u8; 6]) -> (r: TextBuf)
    ensures
        r@ == spec_mac_text(mac@),
        r.capacity() == 17,
{
    let mut out = TextBuf::with_capacity(17);
    let mut i: usize = 0;
    proof {
        lemma_ascii_utf8_len(Seq::<char>::empty());
    }
    while i < 6
        invariant
            0 <= i <= 6,
            out.capacity() == 17,
            vstd::utf8::is_ascii_chars(out@),
            out@.len() == if i == 0 { 0 } else { 3 * i - 1 },
            i == 0 ==> out@ == Seq::<char>::empty(),
            i >= 1 ==> out@ == mac_prefix_text(mac@, (i - 1) as nat),
        decreases 6 - i,
    {
        proof {
            lemma_ascii_utf8_len(out@);
            lemma_hex_chars_ascii(mac[i as int] as nat, 2, false);
        }
        if i > 0 {
            proof {
                lemma_ascii_utf8_len(seq![':']);
            }
            out.push(':');
            proof {
                lemma_ascii_utf8_len(out@);
            }
        }
        let ghost before = out@;
        push_hex2(&mut out, mac[i]);
        proof {
            if i == 0 {
                assert(out@ =~= hex2(mac@[0]));
            } else {
                assert(out@ =~= mac_prefix_text(mac@, (i - 1) as nat) + seq![':'] + hex2(mac@[i as int]));
            }
        }
        i = i + 1;
    }
    proof {
        reveal_with_fuel(mac_prefix_text, 6);
        assert(spec_mac_text(mac@) =~= mac_prefix_text(mac@, 5));
    }
    out
}

/// `hex2(mac[0]) : ... : hex2(mac[k])`.
pub open spec fn mac_prefix_text(mac: Seq<u8>, k: nat) -> Seq<char>
    decreases k,
{
    if k == 0 {
        hex2(mac[0])
    } else {
        mac_prefix_text(mac, (k - 1) as nat) + seq![':'] + hex2(mac[k as int])
    }
}

} // verus!
