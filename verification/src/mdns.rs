//! mDNS responder codec: the answers that announce the device's HTTP
//! service, and the reading of incoming questions.
//!
//! Every writer puts its bytes at an offset of a buffer and returns the
//! offset after them, or none when they do not fit (or a name cannot be
//! encoded); the bytes before the offset are never touched.
use vstd::prelude::*;
use crate::network::{eq_ignore_ascii_case, str_eq_ignore_ascii_case};
use crate::text::{bounded_push, TextBuf};

verus! {

pub const MDNS_PORT: u16 = 5353;
pub const MDNS_RESPONSE_TTL_SECS: u32 = 120;
pub const HTTP_SERVICE_TYPE: &'static str = "_http._tcp.local";
pub const HTTP_TXT_PATH: &'static str = "path=/";

/// `bytes` written into `buf` at `off`.
#[verifier::opaque]
pub open spec fn write_at(buf: Seq<u8>, off: int, bytes: Seq<u8>) -> Seq<u8> {
    buf.subrange(0, off) + bytes + buf.subrange(off + bytes.len(), buf.len() as int)
}

pub open spec fn be16(v: u16) -> Seq<u8> {
    seq![(v / 256) as u8, (v % 256) as u8]
}

pub open spec fn be32(v: u32) -> Seq<u8> {
    seq![(v / 16777216) as u8, ((v / 65536) % 256) as u8, ((v / 256) % 256) as u8, (v % 256) as u8]
}

/// `name` without its trailing dots.
pub open spec fn trim_dots(name: Seq<u8>) -> Seq<u8>
    decreases name.len(),
{
    if name.len() > 0 && name.last() == 46 {
        trim_dots(name.drop_last())
    } else {
        name
    }
}

proof fn lemma_trim_dots(name: Seq<u8>)
    ensures
        trim_dots(name).len() <= name.len(),
        trim_dots(name) == name.subrange(0, trim_dots(name).len() as int),
        trim_dots(name).len() > 0 ==> trim_dots(name).last() != 46,
    decreases name.len(),
{
    if name.len() > 0 && name.last() == 46 {
        lemma_trim_dots(name.drop_last());
        assert(name.drop_last().subrange(0, trim_dots(name).len() as int) =~= name.subrange(
            0,
            trim_dots(name).len() as int,
        ));
    } else {
        assert(name.subrange(0, name.len() as int) =~= name);
    }
}

/// Index of the first `.` in `s`, or its length.
pub open spec fn dot_pos(s: Seq<u8>) -> nat
    decreases s.len(),
{
    if s.len() == 0 || s[0] == 46 {
        0
    } else {
        1 + dot_pos(s.drop_first())
    }
}

proof fn lemma_dot_pos(s: Seq<u8>, i: int)
    requires
        0 <= i <= s.len(),
        forall|j: int| 0 <= j < i ==> s[j] != 46,
        i == s.len() || s[i] == 46,
    ensures
        dot_pos(s) == i,
    decreases s.len(),
{
    if i > 0 {
        assert forall|j: int| 0 <= j < i - 1 implies s.drop_first()[j] != 46 by {
            assert(s.drop_first()[j] == s[j + 1]);
        }
        lemma_dot_pos(s.drop_first(), i - 1);
    }
}

pub proof fn lemma_dot_pos_bound(s: Seq<u8>)
    ensures
        dot_pos(s) <= s.len(),
    decreases s.len(),
{
    if s.len() > 0 && s[0] != 46 {
        lemma_dot_pos_bound(s.drop_first());
    }
}

/// The labels of a non-empty dotted name, each as a length byte and its
/// bytes; none when a label is empty or longer than 63 bytes.
pub open spec fn encode_labels(s: Seq<u8>) -> Option<Seq<u8>>
    decreases s.len(),
{
    let k = dot_pos(s);
    if k == 0 || k > 63 {
        None
    } else if k >= s.len() {
        Some(seq![k as u8] + s)
    } else {
        proof {
            lemma_dot_pos_bound(s);
        }
        match encode_labels(s.subrange(k + 1 as int, s.len() as int)) {
            None => None,
            Some(rest) => Some(seq![k as u8] + s.subrange(0, k as int) + rest),
        }
    }
}

/// The wire form of a name: its labels and a zero byte; none for an empty
/// name (trailing dots aside) or an empty or over-long label.
pub open spec fn encoded_name(name: Seq<u8>) -> Option<Seq<u8>> {
    let t = trim_dots(name);
    if t.len() == 0 {
        None
    } else {
        match encode_labels(t) {
            None => None,
            Some(l) => Some(l + seq![0u8]),
        }
    }
}

/// The outcome of a writer: the new buffer and the end offset when `bytes`
/// (if encodable) fit at `off`.
pub open spec fn written(buf: Seq<u8>, off: int, bytes: Option<Seq<u8>>, r: Option<usize>, after: Seq<u8>) -> bool {
    &&& after.len() == buf.len()
    &&& after.subrange(0, off) == buf.subrange(0, off)
    &&& match bytes {
        Some(b) => if off + b.len() <= buf.len() {
            r matches Some(o) && o == off + b.len() && after == write_at(buf, off, b)
        } else {
            r is None
        },
        None => r is None,
    }
}

proof fn lemma_write_at_index(buf: Seq<u8>, off: int, bytes: Seq<u8>, j: int)
    requires
        0 <= off,
        off + bytes.len() <= buf.len(),
        0 <= j < buf.len(),
    ensures
        write_at(buf, off, bytes).len() == buf.len(),
        write_at(buf, off, bytes)[j] == if j < off {
            buf[j]
        } else if j < off + bytes.len() {
            bytes[j - off]
        } else {
            buf[j]
        },
{
    reveal(write_at);
}

fn put_byte(buf: &mut [u8], off: usize, b: u8)
    requires
        off < old(buf)@.len(),
    ensures
        final(buf)@ == write_at(old(buf)@, off as int, seq![b]),
        final(buf)@.len() == old(buf)@.len(),
{
    reveal(write_at);
    buf[off] = b;
    assert(buf@ =~= write_at(old(buf)@, off as int, seq![b]));
}

fn put_u16(buf: &mut [u8], off: usize, v: u16)
    requires
        off + 2 <= old(buf)@.len(),
    ensures
        final(buf)@ == write_at(old(buf)@, off as int, be16(v)),
        final(buf)@.len() == old(buf)@.len(),
{
    reveal(write_at);
    buf[off] = (v / 256) as u8;
    buf[off + 1] = (v % 256) as u8;
    assert(buf@ =~= write_at(old(buf)@, off as int, be16(v)));
}

fn put_u32(buf: &mut [u8], off: usize, v: u32)
    requires
        off + 4 <= old(buf)@.len(),
    ensures
        final(buf)@ == write_at(old(buf)@, off as int, be32(v)),
        final(buf)@.len() == old(buf)@.len(),
{
    reveal(write_at);
    buf[off] = (v / 16777216) as u8;
    buf[off + 1] = ((v / 65536) % 256) as u8;
    buf[off + 2] = ((v / 256) % 256) as u8;
    buf[off + 3] = (v % 256) as u8;
    assert(buf@ =~= write_at(old(buf)@, off as int, be32(v)));
}

proof fn lemma_write_at_twice(buf: Seq<u8>, off: int, a: Seq<u8>, b: Seq<u8>)
    requires
        0 <= off,
        off + a.len() + b.len() <= buf.len(),
    ensures
        write_at(write_at(buf, off, a), off + a.len(), b) == write_at(buf, off, a + b),
{
    reveal(write_at);
    assert(write_at(write_at(buf, off, a), off + a.len(), b) =~= write_at(buf, off, a + b));
}

/// Writes the wire form of `name` at `offset`.
pub fn encode_dotted_name(buf: &mut [u8], offset: usize, name: &str) -> (r: Option<usize>)
    requires
        offset <= old(buf)@.len(),
    ensures
        written(old(buf)@, offset as int, encoded_name(vstd::utf8::encode_utf8(name@)), r, final(buf)@),
{
    reveal(write_at);
    let bytes = name.as_bytes();
    let blen = buf.len();
    let mut end = bytes.len();
    assert(bytes@.subrange(0, end as int) =~= bytes@);
    while end > 0 && bytes[end - 1] == 46
        invariant
            end <= bytes@.len(),
            trim_dots(bytes@) == trim_dots(bytes@.subrange(0, end as int)),
        decreases end,
    {
        reveal(write_at);
        assert(bytes@.subrange(0, end as int).drop_last() =~= bytes@.subrange(0, end - 1));
        end = end - 1;
    }
    let ghost t = bytes@.subrange(0, end as int);
    assert(trim_dots(bytes@) == t);
    proof {
        lemma_trim_dots(bytes@);
    }
    if end == 0 {
        return None;
    }
    let ghost start = buf@;
    assert(t.subrange(0, end as int) =~= t);
    let mut off = offset;
    let mut pos: usize = 0;
    let ghost mut done: Seq<u8> = Seq::empty();
    loop
        invariant
            0 <= pos < end <= bytes@.len(),
            bytes@ == vstd::utf8::encode_utf8(name@),
            t == bytes@.subrange(0, end as int),
            t.len() > 0,
            t.last() != 46,
            buf@.len() == start.len(),
            start == old(buf)@,
            buf@.len() == blen,
            offset <= off,
            off == offset + done.len(),
            off <= buf@.len(),
            buf@.subrange(0, offset as int) == start.subrange(0, offset as int),
            buf@ == write_at(start, offset as int, done) || done.len() == 0 && buf@ == start,
            encoded_name(bytes@) == match encode_labels(t.subrange(pos as int, end as int)) {
                None => None,
                Some(l) => Some(done + l + seq![0u8]),
            },
        decreases end - pos,
    {
        reveal(write_at);
        let ghost s = t.subrange(pos as int, end as int);
        let mut k: usize = 0;
        while pos + k < end && bytes[pos + k] != 46
            invariant
                pos + k <= end,
                end <= bytes@.len(),
                s == bytes@.subrange(pos as int, end as int),
                forall|j: int| 0 <= j < k ==> s[j] != 46,
            decreases end - pos - k,
        {
            reveal(write_at);
            k = k + 1;
        }
        proof {
            lemma_dot_pos(s, k as int);
        }
        proof {
            lemma_dot_pos_bound(s);
            if k != 0 && k <= 63 {
                if k >= s.len() {
                    assert(encode_labels(s) == Some(seq![k as u8] + s));
                } else {
                    let rest = encode_labels(s.subrange(k + 1, s.len() as int));
                    if rest is Some {
                        assert(encode_labels(s) == Some(
                            seq![k as u8] + s.subrange(0, k as int) + rest.unwrap(),
                        ));
                    } else {
                        assert(encode_labels(s) is None);
                    }
                }
            } else {
                assert(encode_labels(s) is None);
            }
        }
        if k == 0 || k > 63 || off >= blen || k > blen - off - 1 {
            proof {
                assert(bytes@ == vstd::utf8::encode_utf8(name@));
                let l = encode_labels(s);
                if l is Some {
                    assert(l.unwrap().len() >= 1 + k);
                    let b = done + l.unwrap() + seq![0u8];
                    assert(encoded_name(bytes@) == Some(b));
                    assert(b.len() == done.len() + l.unwrap().len() + 1);
                    assert(offset + b.len() > blen);
                }
            }
            return None;
        }
        let ghost before = buf@;
        put_byte(buf, off, k as u8);
        let mut j: usize = 0;
        while j < k
            invariant
                j <= k,
                off + 1 + k <= blen,
                buf@.len() == blen,
                pos + k <= end <= bytes@.len(),
                buf@.len() == before.len(),
                buf@ == write_at(before, off as int, seq![k as u8] + bytes@.subrange(pos as int, (pos + j) as int)),
            decreases k - j,
        {
            reveal(write_at);
            let ghost b1 = buf@;
            buf[off + 1 + j] = bytes[pos + j];
            assert(buf@ =~= write_at(before, off as int, seq![k as u8] + bytes@.subrange(pos as int, (pos + j + 1) as int)));
            j = j + 1;
        }
        let ghost label = seq![k as u8] + s.subrange(0, k as int);
        assert(bytes@.subrange(pos as int, (pos + k) as int) =~= s.subrange(0, k as int));
        proof {
            if done.len() == 0 {
                assert(buf@ == write_at(start, offset as int, done + label)) by {
                    assert(done + label =~= label);
                }
            } else {
                lemma_write_at_twice(start, offset as int, done, label);
            }
            done = done + label;
        }
        off = off + 1 + k;
        if pos + k >= end {
            proof {
                assert(s.len() == k);
                assert(s.subrange(0, k as int) =~= s);
            }
            if off >= blen {
                proof {
                    assert(bytes@ == vstd::utf8::encode_utf8(name@));
                    assert(encode_labels(s) == Some(seq![k as u8] + s));
                    assert(encoded_name(bytes@) == Some(done + seq![0u8]));
                    assert(off == offset + done.len());
                    assert(offset + (done + seq![0u8]).len() > blen);
                    assert(buf@.subrange(0, offset as int) == start.subrange(0, offset as int));
                }
                return None;
            }
            let ghost b1 = buf@;
            assert(b1 == write_at(start, offset as int, done));
            put_byte(buf, off, 0);
            proof {
                lemma_write_at_twice(start, offset as int, done, seq![0u8]);
                assert(encoded_name(bytes@) == Some(done + seq![0u8]));
                assert(buf@ == write_at(start, offset as int, done + seq![0u8]));
                assert(buf@.subrange(0, offset as int) =~= start.subrange(0, offset as int));
            }
            return Some(off + 1);
        }
        proof {
            assert(s.subrange(k + 1, s.len() as int) =~= t.subrange(pos + k + 1, end as int));
            assert(t[pos + k] == 46);
            assert(pos + k + 1 < end);
        }
        pos = pos + k + 1;
    }
}

/// Both parts, when both can be encoded.
pub open spec fn cat(a: Option<Seq<u8>>, b: Option<Seq<u8>>) -> Option<Seq<u8>> {
    match (a, b) {
        (Some(x), Some(y)) => Some(x + y),
        _ => None,
    }
}

/// Two writers in a row write the two parts one after the other.
proof fn lemma_written_then(
    buf0: Seq<u8>,
    off: int,
    a: Option<Seq<u8>>,
    r1: Option<usize>,
    buf1: Seq<u8>,
    b: Option<Seq<u8>>,
    r2: Option<usize>,
    buf2: Seq<u8>,
)
    requires
        0 <= off <= buf0.len(),
        written(buf0, off, a, r1, buf1),
        r1 matches Some(o1) ==> written(buf1, o1 as int, b, r2, buf2),
        r1 is None ==> r2 is None && buf2.len() == buf1.len() && buf2.subrange(0, off) == buf1.subrange(0, off),
    ensures
        written(buf0, off, cat(a, b), r2, buf2),
{
    reveal(write_at);
    match r1 {
        Some(o1) => {
            let x = a.unwrap();
            assert(o1 == off + x.len());
            assert(o1 <= buf1.len());
            let p2 = buf2.subrange(0, o1 as int);
            let p1 = buf1.subrange(0, o1 as int);
            assert(p2 == p1);
            assert forall|i: int| 0 <= i < off implies buf2[i] == buf1[i] by {
                assert(p2[i] == buf2[i]);
                assert(p1[i] == buf1[i]);
            }
            assert(buf2.subrange(0, off) =~= buf1.subrange(0, off));
            assert(buf1.subrange(0, off) =~= buf0.subrange(0, off));
            match b {
                Some(y) => {
                    if off + x.len() + y.len() <= buf0.len() {
                        lemma_write_at_twice(buf0, off, x, y);
                    }
                },
                None => {},
            }
        },
        None => {
            match (a, b) {
                (Some(x), Some(y)) => {},
                _ => {},
            }
        },
    }
}

/// A fixed run of bytes written at `off` when they fit.
fn put_fixed(buf: &mut [u8], off: usize, bytes: &[u8]) -> (r: Option<usize>)
    requires
        off <= old(buf)@.len(),
    ensures
        written(old(buf)@, off as int, Some(bytes@), r, final(buf)@),
{
    reveal(write_at);
    let blen = buf.len();
    let n = bytes.len();
    if n > blen - off {
        return None;
    }
    let ghost start = buf@;
    let mut i: usize = 0;
    while i < n
        invariant
            i <= n,
            n == bytes@.len(),
            off + n <= blen,
            blen == buf@.len(),
            buf@ == write_at(start, off as int, bytes@.subrange(0, i as int)),
            start == old(buf)@,
            start.len() == blen,
        decreases n - i,
    {
        reveal(write_at);
        let ghost prev = buf@;
        buf[off + i] = bytes[i];
        proof {
            let w = write_at(start, off as int, bytes@.subrange(0, i + 1));
            assert forall|j: int| 0 <= j < buf@.len() implies buf@[j] == w[j] by {
                lemma_write_at_index(start, off as int, bytes@.subrange(0, i as int), j);
                lemma_write_at_index(start, off as int, bytes@.subrange(0, i + 1), j);
            }
            assert(buf@ =~= w);
        }
        i = i + 1;
    }
    assert(bytes@.subrange(0, n as int) =~= bytes@);
    assert(buf@.subrange(0, off as int) =~= start.subrange(0, off as int));
    Some(off + n)
}

pub open spec fn dns_header(qdcount: u16, ancount: u16, nscount: u16, arcount: u16) -> Seq<u8> {
    seq![0u8, 0u8, 0x84u8, 0u8] + be16(qdcount) + be16(ancount) + be16(nscount) + be16(arcount)
}

/// The message header: id 0, a response with the authoritative bit, and the
/// four section counts.
pub fn write_header(buf: &mut [u8], qdcount: u16, ancount: u16, nscount: u16, arcount: u16) -> (r: Option<usize>)
    ensures
        written(old(buf)@, 0, Some(dns_header(qdcount, ancount, nscount, arcount)), r, final(buf)@),
{
    reveal(write_at);
    if buf.len() < 12 {
        return None;
    }
    let ghost start = buf@;
    put_byte(buf, 0, 0);
    put_byte(buf, 1, 0);
    put_byte(buf, 2, 0x84);
    put_byte(buf, 3, 0);
    put_u16(buf, 4, qdcount);
    put_u16(buf, 6, ancount);
    put_u16(buf, 8, nscount);
    put_u16(buf, 10, arcount);
    assert(buf@ =~= write_at(start, 0, dns_header(qdcount, ancount, nscount, arcount)));
    assert(buf@.subrange(0, 0) =~= start.subrange(0, 0));
    Some(12)
}

/// The fixed part of a resource record after its name: type, class (with the
/// cache-flush bit when asked), TTL and data length.
pub open spec fn rr_fixed(rr_type: u16, cache_flush: bool, rdlen: u16) -> Seq<u8> {
    be16(rr_type) + be16(if cache_flush { 0x8001u16 } else { 0x0001u16 }) + be32(
        MDNS_RESPONSE_TTL_SECS,
    ) + be16(rdlen)
}

fn write_rr_fixed_header(buf: &mut [u8], offset: usize, rr_type: u16, cache_flush: bool, rdlen: u16) -> (r: Option<usize>)
    requires
        offset <= old(buf)@.len(),
    ensures
        written(old(buf)@, offset as int, Some(rr_fixed(rr_type, cache_flush, rdlen)), r, final(buf)@),
{
    reveal(write_at);
    if buf.len() - offset < 10 {
        return None;
    }
    let ghost start = buf@;
    put_u16(buf, offset, rr_type);
    let class: u16 = if cache_flush {
        0x8001
    } else {
        0x0001
    };
    put_u16(buf, offset + 2, class);
    put_u32(buf, offset + 4, MDNS_RESPONSE_TTL_SECS);
    put_u16(buf, offset + 8, rdlen);
    assert(buf@ =~= write_at(start, offset as int, rr_fixed(rr_type, cache_flush, rdlen)));
    assert(buf@.subrange(0, offset as int) =~= start.subrange(0, offset as int));
    Some(offset + 10)
}

pub open spec fn chars_name(s: Seq<char>) -> Option<Seq<u8>> {
    encoded_name(vstd::utf8::encode_utf8(s))
}

/// An A record of `name` for `ip`.
pub open spec fn a_record(name: Seq<char>, ip: [u8; 4]) -> Option<Seq<u8>> {
    cat(cat(chars_name(name), Some(rr_fixed(1, true, 4))), Some(ip@))
}

pub fn write_a_record(buf: &mut [u8], offset: usize, name: &str, ip: [u8; 4]) -> (r: Option<usize>)
    requires
        offset <= old(buf)@.len(),
    ensures
        written(old(buf)@, offset as int, a_record(name@, ip), r, final(buf)@),
{
    let ghost b0 = buf@;
    let r1 = encode_dotted_name(buf, offset, name);
    let ghost b1 = buf@;
    let o1 = match r1 {
        Some(o) => o,
        None => {
            proof {
                lemma_written_then(b0, offset as int, chars_name(name@), r1, b1, Some(rr_fixed(1, true, 4)), None, b1);
                lemma_written_then(b0, offset as int, cat(chars_name(name@), Some(rr_fixed(1, true, 4))), None, b1, Some(ip@), None, b1);
            }
            return None;
        },
    };
    let r2 = write_rr_fixed_header(buf, o1, 1, true, 4);
    let ghost b2 = buf@;
    proof {
        lemma_written_then(b0, offset as int, chars_name(name@), r1, b1, Some(rr_fixed(1, true, 4)), r2, b2);
    }
    let o2 = match r2 {
        Some(o) => o,
        None => {
            proof {
                lemma_written_then(b0, offset as int, cat(chars_name(name@), Some(rr_fixed(1, true, 4))), None, b2, Some(ip@), None, b2);
            }
            return None;
        },
    };
    let r3 = put_fixed(buf, o2, vstd::array::array_as_slice(&ip));
    proof {
        lemma_written_then(b0, offset as int, cat(chars_name(name@), Some(rr_fixed(1, true, 4))), r2, b2, Some(ip@), r3, buf@);
    }
    r3
}

/// Writing `x`, then (after a gap of `g.len()` bytes) `t`, then `g` in the
/// gap, writes `x`, `g` and `t` in a row.
proof fn lemma_fill_gap(buf: Seq<u8>, p: int, x: Seq<u8>, g: Seq<u8>, t: Seq<u8>)
    requires
        0 <= p,
        p + x.len() + g.len() + t.len() <= buf.len(),
    ensures
        write_at(
            write_at(write_at(buf, p, x), p + x.len() + g.len(), t),
            p + x.len(),
            g,
        ) == write_at(buf, p, x + g + t),
{
    let b1 = write_at(buf, p, x);
    let b2 = write_at(b1, p + x.len() + g.len(), t);
    let b3 = write_at(b2, p + x.len(), g);
    let w = write_at(buf, p, x + g + t);
    assert forall|j: int| 0 <= j < buf.len() implies b3[j] == w[j] by {
        lemma_write_at_index(buf, p, x, j);
        lemma_write_at_index(b1, p + x.len() + g.len(), t, j);
        lemma_write_at_index(b2, p + x.len(), g, j);
        lemma_write_at_index(buf, p, x + g + t, j);
    }
    reveal(write_at);
    assert(b3 =~= w);
}

/// Writing at or after `p` leaves the first `p` bytes alone.
proof fn lemma_write_at_prefix(buf: Seq<u8>, off: int, bytes: Seq<u8>, p: int)
    requires
        0 <= p <= off,
        off + bytes.len() <= buf.len(),
    ensures
        write_at(buf, off, bytes).len() == buf.len(),
        write_at(buf, off, bytes).subrange(0, p) == buf.subrange(0, p),
{
    reveal(write_at);
    assert(write_at(buf, off, bytes).subrange(0, p) =~= buf.subrange(0, p));
}

/// A write whose prefix is untouched keeps a shorter prefix untouched.
proof fn lemma_prefix_shrinks(a: Seq<u8>, b: Seq<u8>, p: int, q: int)
    requires
        0 <= q <= p <= a.len(),
        a.len() == b.len(),
        a.subrange(0, p) == b.subrange(0, p),
    ensures
        a.subrange(0, q) == b.subrange(0, q),
{
    assert(a.subrange(0, q) =~= a.subrange(0, p).subrange(0, q));
    assert(b.subrange(0, q) =~= b.subrange(0, p).subrange(0, q));
}

/// Type, class and TTL of a record.
pub open spec fn rr_head(rr_type: u16, class: u16) -> Seq<u8> {
    be16(rr_type) + be16(class) + be32(MDNS_RESPONSE_TTL_SECS)
}

fn write_rr_head(buf: &mut [u8], off: usize, rr_type: u16, class: u16)
    requires
        off + 8 <= old(buf)@.len(),
    ensures
        final(buf)@ == write_at(old(buf)@, off as int, rr_head(rr_type, class)),
        final(buf)@.len() == old(buf)@.len(),
{
    reveal(write_at);
    let ghost b0 = buf@;
    let _len = buf.len();
    put_u16(buf, off, rr_type);
    put_u16(buf, off + 2, class);
    put_u32(buf, off + 4, MDNS_RESPONSE_TTL_SECS);
    assert(buf@ =~= write_at(b0, off as int, rr_head(rr_type, class)));
}

/// A PTR record from `name` to `target` (no cache-flush).
pub open spec fn ptr_record(name: Seq<char>, target: Seq<char>) -> Option<Seq<u8>> {
    match (chars_name(name), chars_name(target)) {
        (Some(n), Some(t)) => Some(n + rr_head(12, 1) + be16(t.len() as u16) + t),
        _ => None,
    }
}

/// An SRV record of `name` for `port` on `target` (priority and weight 0).
pub open spec fn srv_record(name: Seq<char>, port: u16, target: Seq<char>) -> Option<Seq<u8>> {
    match (chars_name(name), chars_name(target)) {
        (Some(n), Some(t)) => Some(
            n + rr_head(33, 0x8001) + be16((6 + t.len()) as u16) + (be16(0) + be16(0) + be16(port)
                + t),
        ),
        _ => None,
    }
}

/// A TXT record of `name` holding one string (of at most 255 bytes).
pub open spec fn txt_record(name: Seq<char>, txt: Seq<char>) -> Option<Seq<u8>> {
    let tb = vstd::utf8::encode_utf8(txt);
    match chars_name(name) {
        Some(n) => if tb.len() <= 255 {
            Some(n + rr_head(16, 0x8001) + be16((1 + tb.len()) as u16) + (seq![tb.len() as u8] + tb))
        } else {
            None
        },
        None => None,
    }
}

/// Writes a record made of a name, a head, a length and data, the data
/// written by `encode` after a gap that the length then fills.
fn finish_record(
    buf: &mut [u8],
    offset: usize,
    o1: usize,
    rdlen: u16,
    end: usize,
    Ghost(b0): Ghost<Seq<u8>>,
    Ghost(n): Ghost<Seq<u8>>,
    Ghost(head): Ghost<Seq<u8>>,
    Ghost(data): Ghost<Seq<u8>>,
)
    requires
        o1 == offset + n.len(),
        head.len() == 8,
        end == o1 + 10 + data.len(),
        end <= b0.len(),
        old(buf)@.len() == b0.len(),
        old(buf)@ == write_at(write_at(b0, offset as int, n + head), o1 + 10, data),
    ensures
        final(buf)@ == write_at(b0, offset as int, n + head + be16(rdlen) + data),
        final(buf)@.subrange(0, offset as int) == b0.subrange(0, offset as int),
        final(buf)@.len() == b0.len(),
{
    let _len = buf.len();
    put_u16(buf, o1 + 8, rdlen);
    proof {
        lemma_fill_gap(b0, offset as int, n + head, be16(rdlen), data);
        lemma_write_at_prefix(b0, offset as int, n + head + be16(rdlen) + data, offset as int);
    }
}

fn write_ptr_record(buf: &mut [u8], offset: usize, name: &str, target: &str) -> (r: Option<usize>)
    requires
        offset <= old(buf)@.len(),
    ensures
        written(old(buf)@, offset as int, ptr_record(name@, target@), r, final(buf)@),
{
    let ghost b0 = buf@;
    let blen = buf.len();
    let o1 = match encode_dotted_name(buf, offset, name) {
        Some(o) => o,
        None => return None,
    };
    let ghost n = chars_name(name@).unwrap();
    if blen - o1 < 10 {
        return None;
    }
    write_rr_head(buf, o1, 12, 1);
    let ghost b2 = buf@;
    proof {
        lemma_write_at_twice(b0, offset as int, n, rr_head(12, 1));
        lemma_write_at_prefix(b0, offset as int, n + rr_head(12, 1), offset as int);
    }
    let rdata_start = o1 + 10;
    let o3 = match encode_dotted_name(buf, rdata_start, target) {
        Some(o) => o,
        None => {
            proof {
                lemma_prefix_shrinks(buf@, b2, rdata_start as int, offset as int);
            }
            return None;
        },
    };
    let ghost t = chars_name(target@).unwrap();
    finish_record(buf, offset, o1, (o3 - rdata_start) as u16, o3, Ghost(b0), Ghost(n), Ghost(rr_head(12, 1)), Ghost(t));
    Some(o3)
}

fn write_srv_record(buf: &mut [u8], offset: usize, name: &str, port: u16, target: &str) -> (r: Option<usize>)
    requires
        offset <= old(buf)@.len(),
    ensures
        written(old(buf)@, offset as int, srv_record(name@, port, target@), r, final(buf)@),
{
    let ghost b0 = buf@;
    let blen = buf.len();
    let o1 = match encode_dotted_name(buf, offset, name) {
        Some(o) => o,
        None => return None,
    };
    let ghost n = chars_name(name@).unwrap();
    if blen - o1 < 10 {
        return None;
    }
    write_rr_head(buf, o1, 33, 0x8001);
    let ghost b2 = buf@;
    proof {
        lemma_write_at_twice(b0, offset as int, n, rr_head(33, 0x8001));
        lemma_write_at_prefix(b0, offset as int, n + rr_head(33, 0x8001), offset as int);
    }
    let rdata_start = o1 + 10;
    if blen - rdata_start < 6 {
        return None;
    }
    put_u16(buf, rdata_start, 0);
    put_u16(buf, rdata_start + 2, 0);
    put_u16(buf, rdata_start + 4, port);
    let ghost s6 = be16(0) + be16(0) + be16(port);
    proof {
        lemma_write_at_twice(b2, rdata_start as int, be16(0), be16(0));
        lemma_write_at_twice(b2, rdata_start as int, be16(0) + be16(0), be16(port));
        lemma_write_at_prefix(b2, rdata_start as int, s6, rdata_start as int);
    }
    let ghost b3 = buf@;
    let o3 = match encode_dotted_name(buf, rdata_start + 6, target) {
        Some(o) => o,
        None => {
            proof {
                lemma_prefix_shrinks(buf@, b3, rdata_start + 6, offset as int);
                lemma_prefix_shrinks(b3, b2, rdata_start as int, offset as int);
            }
            return None;
        },
    };
    let ghost t = chars_name(target@).unwrap();
    proof {
        lemma_write_at_twice(b2, rdata_start as int, s6, t);
    }
    finish_record(buf, offset, o1, (o3 - rdata_start) as u16, o3, Ghost(b0), Ghost(n), Ghost(rr_head(33, 0x8001)), Ghost(s6 + t));
    Some(o3)
}

fn write_txt_record(buf: &mut [u8], offset: usize, name: &str, txt: &str) -> (r: Option<usize>)
    requires
        offset <= old(buf)@.len(),
    ensures
        written(old(buf)@, offset as int, txt_record(name@, txt@), r, final(buf)@),
{
    let ghost b0 = buf@;
    let blen = buf.len();
    let o1 = match encode_dotted_name(buf, offset, name) {
        Some(o) => o,
        None => return None,
    };
    let ghost n = chars_name(name@).unwrap();
    if blen - o1 < 10 {
        return None;
    }
    write_rr_head(buf, o1, 16, 0x8001);
    let ghost b2 = buf@;
    proof {
        lemma_write_at_twice(b0, offset as int, n, rr_head(16, 0x8001));
        lemma_write_at_prefix(b0, offset as int, n + rr_head(16, 0x8001), offset as int);
    }
    let txt_bytes = txt.as_bytes();
    if txt_bytes.len() > 255 {
        return None;
    }
    let rdlen: u16 = (1 + txt_bytes.len()) as u16;
    let data_start = o1 + 10;
    if blen - data_start < rdlen as usize {
        proof {
            lemma_write_at_prefix(b2, o1 + 8, be16(rdlen), o1 + 8);
        }
        put_u16(buf, o1 + 8, rdlen);
        proof {
            lemma_write_at_prefix(b2, o1 + 8, be16(rdlen), offset as int);
        }
        return None;
    }
    put_byte(buf, data_start, txt_bytes.len() as u8);
    let ghost b4 = buf@;
    let r = put_fixed(buf, data_start + 1, txt_bytes);
    proof {
        lemma_write_at_twice(b2, data_start as int, seq![txt_bytes@.len() as u8], txt_bytes@);
    }
    finish_record(buf, offset, o1, rdlen, data_start + 1 + txt_bytes.len(), Ghost(b0), Ghost(n), Ghost(rr_head(16, 0x8001)), Ghost(seq![txt_bytes@.len() as u8] + txt_bytes@));
    r
}

/// A question read from a query: the name in lower case, the type, and
/// whether a unicast answer was asked for.
pub struct Query {
    pub name: TextBuf,
    pub qtype: u16,
    pub unicast_response: bool,
}

/// The names the responder answers for.
pub struct MdnsConfig {
    pub hostname: TextBuf,
    pub hostname_fqdn: TextBuf,
    pub instance_name: TextBuf,
    pub port: u16,
}

/// A question echoed back: its name, type and class IN.
pub open spec fn question_bytes(name: Seq<char>, qtype: u16) -> Option<Seq<u8>> {
    cat(chars_name(name), Some(be16(qtype) + seq![0u8, 1u8]))
}

fn write_question(buf: &mut [u8], offset: usize, q: &Query) -> (r: Option<usize>)
    requires
        offset <= old(buf)@.len(),
    ensures
        written(old(buf)@, offset as int, question_bytes(q.name@, q.qtype), r, final(buf)@),
{
    let ghost b0 = buf@;
    let r1 = encode_dotted_name(buf, offset, q.name.as_str());
    let ghost b1 = buf@;
    let o1 = match r1 {
        Some(o) => o,
        None => {
            proof {
                lemma_written_then(b0, offset as int, chars_name(q.name@), r1, b1, Some(be16(q.qtype) + seq![0u8, 1u8]), None, b1);
            }
            return None;
        },
    };
    let tail: [u8; 4] = [(q.qtype / 256) as u8, (q.qtype % 256) as u8, 0, 1];
    assert(tail@ =~= be16(q.qtype) + seq![0u8, 1u8]);
    let r2 = put_fixed(buf, o1, vstd::array::array_as_slice(&tail));
    proof {
        lemma_written_then(b0, offset as int, chars_name(q.name@), r1, b1, Some(tail@), r2, buf@);
    }
    r2
}

pub open spec fn opt_question(query: Option<&Query>) -> Option<Seq<u8>> {
    match query {
        Some(q) => question_bytes(q.name@, q.qtype),
        None => Some(Seq::empty()),
    }
}

/// The service's PTR, SRV, TXT and A records.
pub open spec fn service_records(cfg: &MdnsConfig, ip: [u8; 4]) -> Option<Seq<u8>> {
    cat(
        cat(
            cat(ptr_record("_http._tcp.local"@, cfg.instance_name@), srv_record(cfg.instance_name@, cfg.port, cfg.hostname_fqdn@)),
            txt_record(cfg.instance_name@, "path=/"@),
        ),
        a_record(cfg.hostname_fqdn@, ip),
    )
}

/// An unsolicited announcement: four answers, PTR, SRV, TXT and A.
pub open spec fn announce_bytes(cfg: &MdnsConfig, ip: [u8; 4]) -> Option<Seq<u8>> {
    cat(Some(dns_header(0, 4, 0, 0)), service_records(cfg, ip))
}

/// The answer to a question for the host name: its A record.
pub open spec fn a_only_bytes(cfg: &MdnsConfig, ip: [u8; 4], query: Option<&Query>) -> Option<Seq<u8>> {
    cat(
        cat(Some(dns_header(if query is Some { 1 } else { 0 }, 1, 0, 0)), opt_question(query)),
        a_record(cfg.hostname_fqdn@, ip),
    )
}

/// The answer to a question for the service type: the PTR record, with SRV,
/// TXT and A as additional records.
pub open spec fn service_bytes(cfg: &MdnsConfig, ip: [u8; 4], query: Option<&Query>) -> Option<Seq<u8>> {
    cat(
        cat(Some(dns_header(if query is Some { 1 } else { 0 }, 1, 0, 3)), opt_question(query)),
        service_records(cfg, ip),
    )
}

/// The answer to a question for the service instance: SRV and TXT, with A as
/// an additional record.
pub open spec fn instance_bytes(cfg: &MdnsConfig, ip: [u8; 4], query: Option<&Query>) -> Option<Seq<u8>> {
    cat(
        cat(
            cat(
                cat(Some(dns_header(if query is Some { 1 } else { 0 }, 2, 0, 1)), opt_question(query)),
                srv_record(cfg.instance_name@, cfg.port, cfg.hostname_fqdn@),
            ),
            txt_record(cfg.instance_name@, "path=/"@),
        ),
        a_record(cfg.hostname_fqdn@, ip),
    )
}

fn write_opt_question(buf: &mut [u8], offset: usize, query: Option<&Query>) -> (r: Option<usize>)
    requires
        offset <= old(buf)@.len(),
    ensures
        written(old(buf)@, offset as int, opt_question(query), r, final(buf)@),
{
    match query {
        Some(q) => write_question(buf, offset, q),
        None => {
            proof {
                reveal(write_at);
                assert(write_at(buf@, offset as int, Seq::empty()) =~= buf@);
            }
            Some(offset)
        },
    }
}

fn write_service_records(buf: &mut [u8], offset: usize, cfg: &MdnsConfig, ip: [u8; 4]) -> (r: Option<usize>)
    requires
        offset <= old(buf)@.len(),
    ensures
        written(old(buf)@, offset as int, service_records(cfg, ip), r, final(buf)@),
{
    let ghost b0 = buf@;
    let ghost ptr = ptr_record("_http._tcp.local"@, cfg.instance_name@);
    let ghost srv = srv_record(cfg.instance_name@, cfg.port, cfg.hostname_fqdn@);
    let ghost txt = txt_record(cfg.instance_name@, "path=/"@);
    let ghost a = a_record(cfg.hostname_fqdn@, ip);
    let r1 = write_ptr_record(buf, offset, HTTP_SERVICE_TYPE, cfg.instance_name.as_str());
    let ghost b1 = buf@;
    let o1 = match r1 {
        Some(o) => o,
        None => {
            proof {
                lemma_written_then(b0, offset as int, ptr, r1, b1, srv, None, b1);
                lemma_written_then(b0, offset as int, cat(ptr, srv), None, b1, txt, None, b1);
                lemma_written_then(b0, offset as int, cat(cat(ptr, srv), txt), None, b1, a, None, b1);
            }
            return None;
        },
    };
    let r2 = write_srv_record(buf, o1, cfg.instance_name.as_str(), cfg.port, cfg.hostname_fqdn.as_str());
    let ghost b2 = buf@;
    proof {
        lemma_written_then(b0, offset as int, ptr, r1, b1, srv, r2, b2);
    }
    let o2 = match r2 {
        Some(o) => o,
        None => {
            proof {
                lemma_written_then(b0, offset as int, cat(ptr, srv), None, b2, txt, None, b2);
                lemma_written_then(b0, offset as int, cat(cat(ptr, srv), txt), None, b2, a, None, b2);
            }
            return None;
        },
    };
    let r3 = write_txt_record(buf, o2, cfg.instance_name.as_str(), HTTP_TXT_PATH);
    let ghost b3 = buf@;
    proof {
        lemma_written_then(b0, offset as int, cat(ptr, srv), r2, b2, txt, r3, b3);
    }
    let o3 = match r3 {
        Some(o) => o,
        None => {
            proof {
                lemma_written_then(b0, offset as int, cat(cat(ptr, srv), txt), None, b3, a, None, b3);
            }
            return None;
        },
    };
    let r4 = write_a_record(buf, o3, cfg.hostname_fqdn.as_str(), ip);
    proof {
        lemma_written_then(b0, offset as int, cat(cat(ptr, srv), txt), r3, b3, a, r4, buf@);
    }
    r4
}

/// Builds the unsolicited announcement; its length, or none when it does not
/// fit.
pub fn build_announce(buf: &mut [u8], cfg: &MdnsConfig, ip: [u8; 4]) -> (r: Option<usize>)
    ensures
        written(old(buf)@, 0, announce_bytes(cfg, ip), r, final(buf)@),
{
    let ghost b0 = buf@;
    let r1 = write_header(buf, 0, 4, 0, 0);
    let ghost b1 = buf@;
    match r1 {
        None => {
            proof {
                lemma_written_then(b0, 0, Some(dns_header(0, 4, 0, 0)), r1, b1, service_records(cfg, ip), None, b1);
            }
            None
        },
        Some(o1) => {
            let r2 = write_service_records(buf, o1, cfg, ip);
            proof {
                lemma_written_then(b0, 0, Some(dns_header(0, 4, 0, 0)), r1, b1, service_records(cfg, ip), r2, buf@);
            }
            r2
        },
    }
}

/// Builds the answer to a host-name question.
pub fn build_a_only_response(buf: &mut [u8], cfg: &MdnsConfig, ip: [u8; 4], query: Option<&Query>) -> (r: Option<usize>)
    ensures
        written(old(buf)@, 0, a_only_bytes(cfg, ip, query), r, final(buf)@),
{
    let ghost b0 = buf@;
    let qd: u16 = if query.is_some() {
        1
    } else {
        0
    };
    let ghost h = Some(dns_header(qd, 1, 0, 0));
    let ghost q = opt_question(query);
    let ghost a = a_record(cfg.hostname_fqdn@, ip);
    let r1 = write_header(buf, qd, 1, 0, 0);
    let ghost b1 = buf@;
    let o1 = match r1 {
        Some(o) => o,
        None => {
            proof {
                lemma_written_then(b0, 0, h, r1, b1, q, None, b1);
                lemma_written_then(b0, 0, cat(h, q), None, b1, a, None, b1);
            }
            return None;
        },
    };
    let r2 = write_opt_question(buf, o1, query);
    let ghost b2 = buf@;
    proof {
        lemma_written_then(b0, 0, h, r1, b1, q, r2, b2);
    }
    let o2 = match r2 {
        Some(o) => o,
        None => {
            proof {
                lemma_written_then(b0, 0, cat(h, q), None, b2, a, None, b2);
            }
            return None;
        },
    };
    let r3 = write_a_record(buf, o2, cfg.hostname_fqdn.as_str(), ip);
    proof {
        lemma_written_then(b0, 0, cat(h, q), r2, b2, a, r3, buf@);
    }
    r3
}

/// Builds the answer to a service-type question.
pub fn build_service_response(buf: &mut [u8], cfg: &MdnsConfig, ip: [u8; 4], query: Option<&Query>) -> (r: Option<usize>)
    ensures
        written(old(buf)@, 0, service_bytes(cfg, ip, query), r, final(buf)@),
{
    let ghost b0 = buf@;
    let qd: u16 = if query.is_some() {
        1
    } else {
        0
    };
    let ghost h = Some(dns_header(qd, 1, 0, 3));
    let ghost q = opt_question(query);
    let ghost rs = service_records(cfg, ip);
    let r1 = write_header(buf, qd, 1, 0, 3);
    let ghost b1 = buf@;
    let o1 = match r1 {
        Some(o) => o,
        None => {
            proof {
                lemma_written_then(b0, 0, h, r1, b1, q, None, b1);
                lemma_written_then(b0, 0, cat(h, q), None, b1, rs, None, b1);
            }
            return None;
        },
    };
    let r2 = write_opt_question(buf, o1, query);
    let ghost b2 = buf@;
    proof {
        lemma_written_then(b0, 0, h, r1, b1, q, r2, b2);
    }
    let o2 = match r2 {
        Some(o) => o,
        None => {
            proof {
                lemma_written_then(b0, 0, cat(h, q), None, b2, rs, None, b2);
            }
            return None;
        },
    };
    let r3 = write_service_records(buf, o2, cfg, ip);
    proof {
        lemma_written_then(b0, 0, cat(h, q), r2, b2, rs, r3, buf@);
    }
    r3
}

/// Builds the answer to a service-instance question.
pub fn build_instance_response(buf: &mut [u8], cfg: &MdnsConfig, ip: [u8; 4], query: Option<&Query>) -> (r: Option<usize>)
    ensures
        written(old(buf)@, 0, instance_bytes(cfg, ip, query), r, final(buf)@),
{
    let ghost b0 = buf@;
    let qd: u16 = if query.is_some() {
        1
    } else {
        0
    };
    let ghost h = Some(dns_header(qd, 2, 0, 1));
    let ghost q = opt_question(query);
    let ghost srv = srv_record(cfg.instance_name@, cfg.port, cfg.hostname_fqdn@);
    let ghost txt = txt_record(cfg.instance_name@, "path=/"@);
    let ghost a = a_record(cfg.hostname_fqdn@, ip);
    let r1 = write_header(buf, qd, 2, 0, 1);
    let ghost b1 = buf@;
    let o1 = match r1 {
        Some(o) => o,
        None => {
            proof {
                lemma_written_then(b0, 0, h, r1, b1, q, None, b1);
                lemma_written_then(b0, 0, cat(h, q), None, b1, srv, None, b1);
                lemma_written_then(b0, 0, cat(cat(h, q), srv), None, b1, txt, None, b1);
                lemma_written_then(b0, 0, cat(cat(cat(h, q), srv), txt), None, b1, a, None, b1);
            }
            return None;
        },
    };
    let r2 = write_opt_question(buf, o1, query);
    let ghost b2 = buf@;
    proof {
        lemma_written_then(b0, 0, h, r1, b1, q, r2, b2);
    }
    let o2 = match r2 {
        Some(o) => o,
        None => {
            proof {
                lemma_written_then(b0, 0, cat(h, q), None, b2, srv, None, b2);
                lemma_written_then(b0, 0, cat(cat(h, q), srv), None, b2, txt, None, b2);
                lemma_written_then(b0, 0, cat(cat(cat(h, q), srv), txt), None, b2, a, None, b2);
            }
            return None;
        },
    };
    let r3 = write_srv_record(buf, o2, cfg.instance_name.as_str(), cfg.port, cfg.hostname_fqdn.as_str());
    let ghost b3 = buf@;
    proof {
        lemma_written_then(b0, 0, cat(h, q), r2, b2, srv, r3, b3);
    }
    let o3 = match r3 {
        Some(o) => o,
        None => {
            proof {
                lemma_written_then(b0, 0, cat(cat(h, q), srv), None, b3, txt, None, b3);
                lemma_written_then(b0, 0, cat(cat(cat(h, q), srv), txt), None, b3, a, None, b3);
            }
            return None;
        },
    };
    let r4 = write_txt_record(buf, o3, cfg.instance_name.as_str(), HTTP_TXT_PATH);
    let ghost b4 = buf@;
    proof {
        lemma_written_then(b0, 0, cat(cat(h, q), srv), r3, b3, txt, r4, b4);
    }
    let o4 = match r4 {
        Some(o) => o,
        None => {
            proof {
                lemma_written_then(b0, 0, cat(cat(cat(h, q), srv), txt), None, b4, a, None, b4);
            }
            return None;
        },
    };
    let r5 = write_a_record(buf, o4, cfg.hostname_fqdn.as_str(), ip);
    proof {
        lemma_written_then(b0, 0, cat(cat(cat(h, q), srv), txt), r4, b4, a, r5, buf@);
    }
    r5
}

/// `<hostname>._http._tcp.local`, each part appended whole while it fits in
/// 64 bytes.
pub fn service_instance_name(hostname: &str) -> (r: TextBuf)
    ensures
        r.capacity() == 64,
        r@ == bounded_push(
            bounded_push(bounded_push(Seq::empty(), hostname@, 64), "."@, 64),
            "_http._tcp.local"@,
            64,
        ),
{
    let mut out = TextBuf::with_capacity(64);
    out.push_str(hostname);
    out.push_str(".");
    out.push_str(HTTP_SERVICE_TYPE);
    out
}

#[derive(Clone, Copy, Debug, PartialEq, Eq, Structural)]
pub enum ResponseKind {
    AOnly,
    Service,
    Instance,
}

/// A question's name matches a target ignoring ASCII case, with or without
/// one trailing dot.
pub open spec fn spec_name_matches(candidate: Seq<char>, target: Seq<char>) -> bool {
    eq_ignore_ascii_case(candidate, target) || (candidate.len() > 0 && candidate.last() == '.'
        && eq_ignore_ascii_case(candidate.drop_last(), target))
}

pub fn name_matches(candidate: &str, target: &str) -> (b: bool)
    ensures
        b == spec_name_matches(candidate@, target@),
{
    if str_eq_ignore_ascii_case(candidate, target) {
        return true;
    }
    let n = candidate.unicode_len();
    if n > 0 && candidate.get_char(n - 1) == '.' {
        let stripped = candidate.substring_char(0, n - 1);
        assert(stripped@ =~= candidate@.drop_last());
        return str_eq_ignore_ascii_case(stripped, target);
    }
    false
}

/// Which answer a question gets: the host name for A or ANY, the service
/// type for PTR or ANY, the instance for SRV, TXT or ANY; none otherwise.
pub open spec fn spec_classify(name: Seq<char>, qtype: u16, cfg: &MdnsConfig) -> Option<ResponseKind> {
    let any = qtype == 255;
    if spec_name_matches(name, cfg.hostname_fqdn@) && (qtype == 1 || any) {
        Some(ResponseKind::AOnly)
    } else if spec_name_matches(name, "_http._tcp.local"@) && (qtype == 12 || any) {
        Some(ResponseKind::Service)
    } else if spec_name_matches(name, cfg.instance_name@) && (qtype == 33 || qtype == 16 || any) {
        Some(ResponseKind::Instance)
    } else {
        None
    }
}

/// A name matches itself, with or without one trailing dot; a name of
/// another length (not one longer) never matches.
pub proof fn lemma_name_matches_basics(candidate: Seq<char>, target: Seq<char>)
    ensures
        spec_name_matches(target, target),
        spec_name_matches(target.push('.'), target),
        candidate.len() != target.len() && candidate.len() != target.len() + 1 ==> !spec_name_matches(
            candidate,
            target,
        ),
{
    assert(target.push('.').drop_last() =~= target);
}

/// Which questions are answered: a host-name question of type A (1) or ANY
/// (255) gets the address; a PTR (12) question for the HTTP service type
/// gets the service answer, as does an ANY question for it that is not also
/// for the host name; an SRV (33) or TXT (16) question for the instance
/// gets the instance answer; a question of any other type gets none, and a
/// question for none of the three names gets none.
pub proof fn lemma_classify_by_type(name: Seq<char>, qtype: u16, cfg: &MdnsConfig)
    ensures
        spec_name_matches(name, cfg.hostname_fqdn@) && (qtype == 1 || qtype == 255) ==> spec_classify(
            name,
            qtype,
            cfg,
        ) == Some(ResponseKind::AOnly),
        spec_name_matches(name, "_http._tcp.local"@) && qtype == 12 ==> spec_classify(name, qtype, cfg)
            == Some(ResponseKind::Service),
        spec_name_matches(name, "_http._tcp.local"@) && qtype == 255 && !spec_name_matches(
            name,
            cfg.hostname_fqdn@,
        ) ==> spec_classify(name, qtype, cfg) == Some(ResponseKind::Service),
        spec_name_matches(name, cfg.instance_name@) && (qtype == 33 || qtype == 16) ==> spec_classify(
            name,
            qtype,
            cfg,
        ) == Some(ResponseKind::Instance),
        qtype != 1 && qtype != 12 && qtype != 16 && qtype != 33 && qtype != 255 ==> spec_classify(
            name,
            qtype,
            cfg,
        ) is None,
        !spec_name_matches(name, cfg.hostname_fqdn@) && !spec_name_matches(name, "_http._tcp.local"@)
            && !spec_name_matches(name, cfg.instance_name@) ==> spec_classify(name, qtype, cfg) is None,
{
}

pub fn classify_query(query: &Query, cfg: &MdnsConfig) -> (k: Option<ResponseKind>)
    ensures
        k == spec_classify(query.name@, query.qtype, cfg),
{
    let qtype = query.qtype;
    let name = query.name.as_str();
    let is_any = qtype == 255;
    if name_matches(name, cfg.hostname_fqdn.as_str()) && (qtype == 1 || is_any) {
        return Some(ResponseKind::AOnly);
    }
    if name_matches(name, HTTP_SERVICE_TYPE) && (qtype == 12 || is_any) {
        return Some(ResponseKind::Service);
    }
    if name_matches(name, cfg.instance_name.as_str()) && (qtype == 33 || qtype == 16 || is_any) {
        return Some(ResponseKind::Instance);
    }
    None
}

/// Where an answer goes: back to the asker when it asked for a unicast
/// answer, to the multicast group otherwise.
#[derive(Clone, Copy, Debug, PartialEq, Eq, Structural)]
pub enum ReplyDestination {
    Sender,
    Multicast,
}

pub open spec fn spec_reply_destination(query: &Query) -> ReplyDestination {
    if query.unicast_response {
        ReplyDestination::Sender
    } else {
        ReplyDestination::Multicast
    }
}

pub fn reply_destination(query: &Query) -> (d: ReplyDestination)
    ensures
        d == spec_reply_destination(query),
{
    if query.unicast_response {
        ReplyDestination::Sender
    } else {
        ReplyDestination::Multicast
    }
}

/// The answer of each kind to a question.
pub open spec fn response_bytes(kind: ResponseKind, cfg: &MdnsConfig, ip: [u8; 4], query: &Query) -> Option<Seq<u8>> {
    match kind {
        ResponseKind::AOnly => a_only_bytes(cfg, ip, Some(query)),
        ResponseKind::Service => service_bytes(cfg, ip, Some(query)),
        ResponseKind::Instance => instance_bytes(cfg, ip, Some(query)),
    }
}

/// What the responder does with a question: nothing when it is not one of
/// its names and types; otherwise the answer of its kind is built in `buf`
/// (nothing is sent when it does not fit) and sent to the asker or to the
/// group as the question asked.
pub fn respond_to_query(query: &Query, cfg: &MdnsConfig, ip: [u8; 4], buf: &mut [u8]) -> (r: Option<(usize, ReplyDestination)>)
    ensures
        match spec_classify(query.name@, query.qtype, cfg) {
            None => r is None && final(buf)@ == old(buf)@,
            Some(kind) => match r {
                Some((n, d)) => written(old(buf)@, 0, response_bytes(kind, cfg, ip, query), Some(n), final(buf)@)
                    && d == spec_reply_destination(query),
                None => written(old(buf)@, 0, response_bytes(kind, cfg, ip, query), None, final(buf)@),
            },
        },
{
    let kind = match classify_query(query, cfg) {
        None => return None,
        Some(k) => k,
    };
    let len = match kind {
        ResponseKind::AOnly => build_a_only_response(buf, cfg, ip, Some(query)),
        ResponseKind::Service => build_service_response(buf, cfg, ip, Some(query)),
        ResponseKind::Instance => build_instance_response(buf, cfg, ip, Some(query)),
    };
    match len {
        None => None,
        Some(n) => Some((n, reply_destination(query))),
    }
}

/// A name byte as a lower-case character.
pub open spec fn name_char(b: u8) -> char {
    if 65 <= b <= 90 {
        ((b + 32) as u8) as char
    } else {
        b as char
    }
}

/// The bytes of a label appended one character at a time.
pub open spec fn push_label(acc: Seq<char>, label: Seq<u8>, cap: nat) -> Seq<char>
    decreases label.len(),
{
    if label.len() == 0 {
        acc
    } else {
        bounded_push(push_label(acc, label.drop_last(), cap), seq![name_char(label.last())], cap)
    }
}

/// A label appended to a name: a dot first unless the name is still empty.
pub open spec fn add_label(acc: Seq<char>, label: Seq<u8>, cap: nat) -> Seq<char> {
    push_label(if acc.len() > 0 { bounded_push(acc, seq!['.'], cap) } else { acc }, label, cap)
}

pub open spec fn add_labels(acc: Seq<char>, labels: Seq<Seq<u8>>, cap: nat) -> Seq<char>
    decreases labels.len(),
{
    if labels.len() == 0 {
        acc
    } else {
        add_labels(add_label(acc, labels[0], cap), labels.drop_first(), cap)
    }
}

/// The labels of the name at `off`, following compression pointers, with the
/// offset just after the name where it was met (after its first pointer,
/// when it has one) and whether a pointer was followed; none when it runs
/// past the packet or takes more than `fuel` steps.
pub open spec fn name_walk(p: Seq<u8>, off: int, fuel: nat) -> Option<(Seq<Seq<u8>>, int, bool)>
    decreases fuel,
{
    if fuel == 0 || off < 0 || off >= p.len() {
        None
    } else {
        let b = p[off];
        if b >= 0xC0 {
            if off + 1 >= p.len() {
                None
            } else {
                let ptr = (b - 0xC0) * 256 + p[off + 1];
                match name_walk(p, ptr, (fuel - 1) as nat) {
                    None => None,
                    Some((labels, _, _)) => Some((labels, off + 2, true)),
                }
            }
        } else if b == 0 {
            Some((Seq::empty(), off + 1, false))
        } else if off + 1 + b > p.len() {
            None
        } else {
            match name_walk(p, off + 1 + b, (fuel - 1) as nat) {
                None => None,
                Some((labels, end, jumped)) => Some(
                    (seq![p.subrange(off + 1, off + 1 + b)] + labels, end, jumped),
                ),
            }
        }
    }
}

proof fn lemma_name_walk_end(p: Seq<u8>, off: int, fuel: nat)
    ensures
        name_walk(p, off, fuel) matches Some((_, end, _)) ==> 0 <= end <= p.len(),
    decreases fuel,
{
    if fuel > 0 && 0 <= off < p.len() {
        let b = p[off];
        if b >= 0xC0 {
            if off + 1 < p.len() {
                lemma_name_walk_end(p, (b - 0xC0) * 256 + p[off + 1], (fuel - 1) as nat);
            }
        } else if b != 0 && off + 1 + b <= p.len() {
            lemma_name_walk_end(p, off + 1 + b, (fuel - 1) as nat);
        }
    }
}

fn push_label_bytes(out: &mut TextBuf, packet: &[u8], start: usize, len: usize)
    requires
        start + len <= packet@.len(),
    ensures
        final(out).capacity() == old(out).capacity(),
        final(out)@ == push_label(old(out)@, packet@.subrange(start as int, start + len), old(out).capacity()),
{
    let plen = packet.len();
    let mut i: usize = 0;
    while i < len
        invariant
            i <= len,
            plen == packet@.len(),
            start + len <= packet@.len(),
            out.capacity() == old(out).capacity(),
            out@ == push_label(old(out)@, packet@.subrange(start as int, start + i), out.capacity()),
        decreases len - i,
    {
        let b = packet[start + i];
        let c = if 65 <= b && b <= 90 {
            (b + 32) as char
        } else {
            b as char
        };
        assert(c == name_char(b));
        let ghost prev = packet@.subrange(start as int, start + i);
        assert(packet@.subrange(start as int, start + i + 1).drop_last() =~= prev);
        out.push(c);
        i = i + 1;
    }
}

/// Appends the name at `offset` to `out` (see `name_walk`, with at most one
/// step per packet byte) and returns the offset after it.
pub fn decode_name(packet: &[u8], offset: usize, out: &mut TextBuf) -> (r: Option<usize>)
    ensures
        final(out).capacity() == old(out).capacity(),
        match name_walk(packet@, offset as int, packet@.len()) {
            None => r is None,
            Some((labels, end, _)) => r == Some(end as usize) && 0 <= end <= packet@.len() && final(out)@ == add_labels(
                old(out)@,
                labels,
                old(out).capacity(),
            ),
        },
{
    let n = packet.len();
    let ghost fuel: nat = n as nat;
    let ghost total = name_walk(packet@, offset as int, fuel);
    let ghost out0 = out@;
    proof {
        lemma_name_walk_end(packet@, offset as int, fuel);
    }
    let ghost mut done: Seq<Seq<u8>> = Seq::empty();
    let mut off = offset;
    let mut jumped = false;
    let mut jump_offset: usize = 0;
    let mut steps: usize = 0;
    loop
        invariant
            n == packet@.len(),
            fuel == n,
            steps <= n,
            out.capacity() == old(out).capacity(),
            out0 == old(out)@,
            total == name_walk(packet@, offset as int, fuel),
            out@ == add_labels(out0, done, out.capacity()),
            jumped ==> jump_offset <= n + 1,
            total == match name_walk(packet@, off as int, (fuel - steps) as nat) {
                None => None,
                Some((labels, end, j)) => Some((done + labels, if jumped { jump_offset as int } else { end }, jumped || j)),
            },
        decreases n - steps,
    {
        if steps >= n || off >= n {
            return None;
        }
        let len = packet[off];
        if len >= 0xC0 {
            if off + 1 >= n {
                return None;
            }
            let ptr = ((len - 0xC0) as usize) * 256 + (packet[off + 1] as usize);
            if !jumped {
                jump_offset = off + 2;
                jumped = true;
            }
            off = ptr;
            steps = steps + 1;
        } else if len == 0 {
            let end = off + 1;
            proof {
                assert(done + Seq::<Seq<u8>>::empty() =~= done);
                assert(name_walk(packet@, off as int, (fuel - steps) as nat) == Some((Seq::<Seq<u8>>::empty(), end as int, false)));
                lemma_name_walk_end(packet@, offset as int, fuel);
                assert(total == Some((done, if jumped { jump_offset as int } else { end as int }, jumped)));
            }
            return Some(if jumped {
                jump_offset
            } else {
                end
            });
        } else {
            let l = len as usize;
            if l > n - off - 1 {
                return None;
            }
            let ghost label = packet@.subrange(off + 1, off + 1 + l);
            let ghost before = out@;
            if !out.is_empty() {
                out.push('.');
            }
            push_label_bytes(out, packet, off + 1, l);
            proof {
                lemma_add_labels_push(out0, done, label, out.capacity());
                assert(seq![label] + name_walk(packet@, (off + 1 + l) as int, (fuel - steps - 1) as nat).unwrap_or((Seq::empty(), 0, false)).0
                    == seq![label] + name_walk(packet@, (off + 1 + l) as int, (fuel - steps - 1) as nat).unwrap_or((Seq::empty(), 0, false)).0);
                match name_walk(packet@, (off + 1 + l) as int, (fuel - steps - 1) as nat) {
                    Some((ls, e, j)) => {
                        assert(done + (seq![label] + ls) =~= done.push(label) + ls);
                    },
                    None => {},
                }
                done = done.push(label);
            }
            off = off + 1 + l;
            steps = steps + 1;
        }
    }
}

proof fn lemma_add_labels_push(acc: Seq<char>, done: Seq<Seq<u8>>, label: Seq<u8>, cap: nat)
    ensures
        add_labels(acc, done.push(label), cap) == add_label(add_labels(acc, done, cap), label, cap),
    decreases done.len(),
{
    if done.len() == 0 {
        assert(done.push(label)[0] == label);
        assert(done.push(label).drop_first() =~= Seq::<Seq<u8>>::empty());
        assert(add_labels(add_label(acc, label, cap), Seq::<Seq<u8>>::empty(), cap) == add_label(acc, label, cap));
        assert(add_labels(acc, done.push(label), cap) == add_labels(add_label(acc, label, cap), done.push(label).drop_first(), cap));
    } else {
        let a1 = add_label(acc, done[0], cap);
        assert(done.push(label)[0] == done[0]);
        assert(done.push(label).drop_first() =~= done.drop_first().push(label));
        assert(add_labels(acc, done.push(label), cap) == add_labels(a1, done.drop_first().push(label), cap));
        lemma_add_labels_push(a1, done.drop_first(), label, cap);
        assert(add_labels(acc, done, cap) == add_labels(a1, done.drop_first(), cap));
    }
}

/// A question a query asks: a query message (not a response) with at least
/// one question, whose first question names something readable, asks for A,
/// PTR, TXT, SRV or ANY, in class IN (the top bit of the class asking for a
/// unicast answer).
pub open spec fn spec_parse_query(p: Seq<u8>) -> Option<(Seq<char>, u16, bool)> {
    if p.len() < 12 || p[2] >= 0x80 || (p[4] == 0 && p[5] == 0) {
        None
    } else {
        match name_walk(p, 12, p.len()) {
            None => None,
            Some((labels, off, _)) => if off + 4 > p.len() {
                None
            } else {
                let qtype = (p[off] * 256 + p[off + 1]) as u16;
                let unicast = p[off + 2] >= 0x80;
                let qclass = (p[off + 2] % 128) * 256 + p[off + 3];
                if !(qtype == 1 || qtype == 12 || qtype == 16 || qtype == 33 || qtype == 255) {
                    None
                } else if qclass != 1 {
                    None
                } else {
                    Some((add_labels(Seq::empty(), labels, 64), qtype, unicast))
                }
            },
        }
    }
}

/// Reads the first question of an incoming message (see `spec_parse_query`).
pub fn parse_query(packet: &[u8]) -> (r: Option<Query>)
    ensures
        match spec_parse_query(packet@) {
            None => r is None,
            Some((name, qtype, unicast)) => r matches Some(q) && q.name@ == name && q.qtype
                == qtype && q.unicast_response == unicast && q.name.capacity() == 64,
        },
{
    let n = packet.len();
    if n < 12 {
        return None;
    }
    if packet[2] >= 0x80 {
        return None;
    }
    if packet[4] == 0 && packet[5] == 0 {
        return None;
    }
    let mut name = TextBuf::with_capacity(64);
    let off = match decode_name(packet, 12, &mut name) {
        Some(o) => o,
        None => return None,
    };
    if off > n || n - off < 4 {
        return None;
    }
    let qtype: u16 = (packet[off] as u16) * 256 + (packet[off + 1] as u16);
    let unicast = packet[off + 2] >= 0x80;
    let qclass: u16 = ((packet[off + 2] % 128) as u16) * 256 + (packet[off + 3] as u16);
    if !(qtype == 1 || qtype == 12 || qtype == 16 || qtype == 33 || qtype == 255) {
        return None;
    }
    if qclass != 1 {
        return None;
    }
    Some(Query { name, qtype, unicast_response: unicast })
}

/// The labels of a dotted name, split at each dot.
pub open spec fn dotted_labels(s: Seq<u8>) -> Seq<Seq<u8>>
    decreases s.len(),
{
    let k = dot_pos(s);
    if k >= s.len() {
        seq![s]
    } else {
        proof {
            lemma_dot_pos_bound(s);
        }
        seq![s.subrange(0, k as int)] + dotted_labels(s.subrange(k + 1 as int, s.len() as int))
    }
}

proof fn lemma_walk_encoded_labels(s: Seq<u8>, e: Seq<u8>, p: Seq<u8>, off: int, fuel: nat)
    requires
        encode_labels(s) == Some(e),
        0 <= off,
        off + e.len() < p.len(),
        p.subrange(off, off + e.len()) == e,
        p[off + e.len()] == 0,
        fuel > e.len(),
    ensures
        name_walk(p, off, fuel) == Some((dotted_labels(s), off + e.len() + 1, false)),
    decreases s.len(),
{
    let k = dot_pos(s);
    lemma_dot_pos_bound(s);
    assert(p[off] == e[0]);
    if k >= s.len() {
        assert(e == seq![k as u8] + s);
        assert(p.subrange(off + 1, off + 1 + k) =~= s) by {
            assert forall|i: int| 0 <= i < k implies p.subrange(off + 1, off + 1 + k)[i] == s[i] by {
                assert(p[off + 1 + i] == e[1 + i]);
            }
        }
        let inner = name_walk(p, off + 1 + k, (fuel - 1) as nat);
        assert(inner == Some((Seq::<Seq<u8>>::empty(), off + 1 + k + 1, false)));
        assert(seq![s] + Seq::<Seq<u8>>::empty() =~= seq![s]);
    } else {
        let s2 = s.subrange(k + 1 as int, s.len() as int);
        let rest = encode_labels(s2)->0;
        assert(e == seq![k as u8] + s.subrange(0, k as int) + rest);
        let off2 = off + 1 + k;
        assert(p.subrange(off2, off2 + rest.len()) =~= rest) by {
            assert forall|i: int| 0 <= i < rest.len() implies p.subrange(off2, off2 + rest.len())[i] == rest[i] by {
                assert(p[off2 + i] == e[1 + k + i]);
            }
        }
        lemma_walk_encoded_labels(s2, rest, p, off2, (fuel - 1) as nat);
        assert(p.subrange(off + 1, off + 1 + k) =~= s.subrange(0, k as int)) by {
            assert forall|i: int| 0 <= i < k implies p.subrange(off + 1, off + 1 + k)[i] == s[i] by {
                assert(p[off + 1 + i] == e[1 + i]);
            }
        }
    }
}

/// A question for a name the responder can encode is read back as that
/// name: the labels of the name (trailing dots aside), lower-cased and
/// joined by dots within 64 bytes, with the type asked for and the unicast
/// bit of the class.
pub proof fn lemma_question_reads_back(
    name: Seq<u8>,
    header: Seq<u8>,
    qtype: u16,
    unicast: bool,
)
    requires
        encoded_name(name) is Some,
        header.len() == 12,
        header[2] < 0x80,
        !(header[4] == 0 && header[5] == 0),
        qtype == 1 || qtype == 12 || qtype == 16 || qtype == 33 || qtype == 255,
    ensures
        spec_parse_query(
            header + encoded_name(name)->0 + be16(qtype) + seq![if unicast { 0x80u8 } else { 0u8 }, 1u8],
        ) == Some((add_labels(Seq::empty(), dotted_labels(trim_dots(name)), 64), qtype, unicast)),
{
    let e = encoded_name(name)->0;
    let t = trim_dots(name);
    let le = encode_labels(t)->0;
    let n = le.len() as int;
    assert(e == le + seq![0u8]);
    let p = header + e + be16(qtype) + seq![if unicast { 0x80u8 } else { 0u8 }, 1u8];
    assert(p.subrange(12, 12 + n) =~= le) by {
        assert forall|i: int| 0 <= i < n implies p.subrange(12, 12 + n)[i] == le[i] by {
            assert(p[12 + i] == e[i]);
        }
    }
    assert(p[12 + n] == 0) by {
        assert(p[12 + n] == e[n]);
    }
    lemma_walk_encoded_labels(t, le, p, 12, p.len());
    let off = 12 + e.len() as int;
    assert(p[off] == (qtype / 256) as u8);
    assert(p[off + 1] == (qtype % 256) as u8);
    assert(p[off + 2] == if unicast { 0x80u8 } else { 0u8 });
    assert(p[off + 3] == 1u8);
    assert(p[2] == header[2] && p[4] == header[4] && p[5] == header[5]);
}

} // verus!
