//! The configuration image of the hub controller's external EEPROM: vendor
//! and product ids, a check byte, and the vendor and product strings in
//! UTF-16LE; and which 32-byte pages of a device's image must be rewritten.
use vstd::prelude::*;

verus! {

pub const EEPROM_IMAGE_LEN: usize = 0x100;
pub const EEPROM_PAGE_SIZE: usize = 32;
pub const WCH_VID: u16 = 0x1A86;
pub const CH335F_PID: u16 = 0x8094;
pub const VENDOR_UTF16_LEN_OFFSET: usize = 0x10;
pub const VENDOR_UTF16_OFFSET: usize = 0x11;
pub const PRODUCT_DESCRIPTOR_LEN_OFFSET: usize = 0x3F;
pub const PRODUCT_UTF16_LEN_OFFSET: usize = 0x40;
pub const PRODUCT_UTF16_OFFSET: usize = 0x41;
pub const SERIAL_DESCRIPTOR_LEN_OFFSET: usize = 0x6F;
pub const SERIAL_UTF16_LEN_OFFSET: usize = 0x70;

/// The vendor string, `Ivan`, in ASCII.
pub open spec fn vendor_bytes() -> Seq<u8> {
    seq![0x49u8, 0x76u8, 0x61u8, 0x6Eu8]
}

/// The product string, `ISO USB Hub`, in ASCII.
pub open spec fn product_bytes() -> Seq<u8> {
    seq![0x49u8, 0x53u8, 0x4Fu8, 0x20u8, 0x55u8, 0x53u8, 0x42u8, 0x20u8, 0x48u8, 0x75u8, 0x62u8]
}

fn vendor() -> (v: Vec<u8>)
    ensures
        v@ == vendor_bytes(),
{
    let v = vec![0x49u8, 0x76u8, 0x61u8, 0x6Eu8];
    assert(v@ =~= vendor_bytes());
    v
}

fn product() -> (v: Vec<u8>)
    ensures
        v@ == product_bytes(),
{
    let v = vec![0x49u8, 0x53u8, 0x4Fu8, 0x20u8, 0x55u8, 0x53u8, 0x42u8, 0x20u8, 0x48u8, 0x75u8, 0x62u8];
    assert(v@ =~= product_bytes());
    v
}

/// Byte `i` of ASCII text `s` written as UTF-16LE from `start`: the
/// character on even offsets, zero on odd ones.
pub open spec fn utf16le_at(s: Seq<u8>, start: int, i: int) -> u8 {
    if (i - start) % 2 == 0 {
        s[(i - start) / 2]
    } else {
        0
    }
}

/// The check byte: the sum of the four id bytes plus one, modulo 256.
pub open spec fn id_check_byte() -> u8 {
    ((0x1Au8 + 0x86u8 + 0x94u8 + 0x80u8 + 1) % 256) as u8
}

/// Byte `i` of the image.
pub open spec fn image_byte(i: int) -> u8 {
    if i == 0x00 {
        (WCH_VID % 256) as u8
    } else if i == 0x01 {
        (WCH_VID / 256) as u8
    } else if i == 0x02 {
        (CH335F_PID % 256) as u8
    } else if i == 0x03 {
        (CH335F_PID / 256) as u8
    } else if i == 0x04 {
        id_check_byte()
    } else if i == 0x06 {
        0x00
    } else if i == 0x07 {
        0x04
    } else if i == 0x08 {
        0x32
    } else if i == 0x09 {
        0x5A
    } else if i == 0x0A {
        0x57
    } else if i == VENDOR_UTF16_LEN_OFFSET {
        (2 * vendor_bytes().len()) as u8
    } else if VENDOR_UTF16_OFFSET <= i < VENDOR_UTF16_OFFSET + 2 * vendor_bytes().len() {
        utf16le_at(vendor_bytes(), VENDOR_UTF16_OFFSET as int, i)
    } else if i == PRODUCT_DESCRIPTOR_LEN_OFFSET {
        (2 * product_bytes().len() + 2) as u8
    } else if i == PRODUCT_UTF16_LEN_OFFSET {
        (2 * product_bytes().len()) as u8
    } else if PRODUCT_UTF16_OFFSET <= i < PRODUCT_UTF16_OFFSET + 2 * product_bytes().len() {
        utf16le_at(product_bytes(), PRODUCT_UTF16_OFFSET as int, i)
    } else if i == SERIAL_DESCRIPTOR_LEN_OFFSET {
        0x02
    } else if i == SERIAL_UTF16_LEN_OFFSET {
        0x00
    } else {
        0xFF
    }
}

pub open spec fn spec_eeprom_image() -> Seq<u8> {
    Seq::new(EEPROM_IMAGE_LEN as nat, |i: int| image_byte(i))
}

/// Writes `s` as UTF-16LE into `image` from `start`.
fn put_utf16le(image: &mut [u8; 256], s: &Vec<u8>, start: usize)
    requires
        start + 2 * s@.len() <= 256,
    ensures
        forall|i: int|
            0 <= i < 256 ==> #[trigger] final(image)@[i] == if start <= i < start + 2 * s@.len() {
                utf16le_at(s@, start as int, i)
            } else {
                old(image)@[i]
            },
{
    let mut idx: usize = 0;
    while idx < s.len()
        invariant
            0 <= idx <= s@.len(),
            start + 2 * s@.len() <= 256,
            forall|i: int|
                0 <= i < 256 ==> #[trigger] image@[i] == if start <= i < start + 2 * idx {
                    utf16le_at(s@, start as int, i)
                } else {
                    old(image)@[i]
                },
        decreases s@.len() - idx,
    {
        image[start + idx * 2] = s[idx];
        image[start + idx * 2 + 1] = 0x00;
        proof {
            assert forall|i: int| 0 <= i < 256 implies #[trigger] image@[i] == if start <= i < start
                + 2 * (idx + 1) {
                utf16le_at(s@, start as int, i)
            } else {
                old(image)@[i]
            } by {
                if i == start + idx * 2 {
                    assert((i - start) % 2 == 0 && (i - start) / 2 == idx) by (nonlinear_arith)
                        requires
                            i == start + idx * 2,
                    ;
                } else if i == start + idx * 2 + 1 {
                    assert((i - start) % 2 == 1) by (nonlinear_arith)
                        requires
                            i == start + idx * 2 + 1,
                    ;
                }
            }
        }
        idx = idx + 1;
    }
}

/// The image the hub controller is configured with.
pub fn make_eeprom_image() -> (image: [u8; 256])
    ensures
        image@ == spec_eeprom_image(),
{
    let mut image = [0xFFu8; 256];
    let vid_l = (WCH_VID % 256) as u8;
    let vid_h = (WCH_VID / 256) as u8;
    let pid_l = (CH335F_PID % 256) as u8;
    let pid_h = (CH335F_PID / 256) as u8;
    image[0x00] = vid_l;
    image[0x01] = vid_h;
    image[0x02] = pid_l;
    image[0x03] = pid_h;
    image[0x04] = vid_h.wrapping_add(vid_l).wrapping_add(pid_l).wrapping_add(pid_h).wrapping_add(1);
    image[0x05] = 0xFF;
    image[0x06] = 0x00;
    image[0x07] = 0x04;
    image[0x08] = 0x32;
    image[0x09] = 0x5A;
    image[0x0A] = 0x57;
    let vendor = vendor();
    let product = product();
    image[VENDOR_UTF16_LEN_OFFSET] = (vendor.len() * 2) as u8;
    put_utf16le(&mut image, &vendor, VENDOR_UTF16_OFFSET);
    image[PRODUCT_DESCRIPTOR_LEN_OFFSET] = (product.len() * 2 + 2) as u8;
    image[PRODUCT_UTF16_LEN_OFFSET] = (product.len() * 2) as u8;
    put_utf16le(&mut image, &product, PRODUCT_UTF16_OFFSET);
    image[SERIAL_DESCRIPTOR_LEN_OFFSET] = 0x02;
    image[SERIAL_UTF16_LEN_OFFSET] = 0x00;
    assert(image@ =~= spec_eeprom_image());
    image
}

/// Whether 32-byte page `page` differs between two images.
pub open spec fn page_differs(current: Seq<u8>, target: Seq<u8>, page: int) -> bool {
    current.subrange(page * 32, page * 32 + 32) != target.subrange(page * 32, page * 32 + 32)
}

/// The offsets, in order, of the pages among the first `k` that differ.
pub open spec fn dirty_page_offsets(current: Seq<u8>, target: Seq<u8>, k: nat) -> Seq<usize>
    decreases k,
{
    if k == 0 {
        Seq::empty()
    } else {
        dirty_page_offsets(current, target, (k - 1) as nat) + if page_differs(current, target, k - 1) {
            seq![((k - 1) * 32) as usize]
        } else {
            Seq::empty()
        }
    }
}

/// The pages of `current` that must be rewritten to hold `target`.
pub fn dirty_pages(current: &[u8; 256], target: &[u8; 256]) -> (r: Vec<usize>)
    ensures
        r@ == dirty_page_offsets(current@, target@, 8),
{
    let mut r: Vec<usize> = Vec::new();
    let mut page: usize = 0;
    while page < 8
        invariant
            0 <= page <= 8,
            r@ == dirty_page_offsets(current@, target@, page as nat),
        decreases 8 - page,
    {
        let offset = page * EEPROM_PAGE_SIZE;
        let mut same = true;
        let mut j: usize = 0;
        while j < EEPROM_PAGE_SIZE
            invariant
                0 <= j <= 32,
                offset == page * 32,
                page < 8,
                same <==> forall|k: int| offset <= k < offset + j ==> #[trigger] current@[k] == target@[k],
            decreases 32 - j,
        {
            if current[offset + j] != target[offset + j] {
                same = false;
            }
            j = j + 1;
        }
        let ghost a = current@.subrange(offset as int, offset + 32);
        let ghost b = target@.subrange(offset as int, offset + 32);
        if same {
            assert(a =~= b);
        } else {
            let ghost k = choose|k: int| offset <= k < offset + 32 && #[trigger] current@[k] != target@[k];
            assert(a[k - offset] != b[k - offset]);
        }
        if !same {
            r.push(offset);
        }
        proof {
            if same {
                assert(r@ =~= dirty_page_offsets(current@, target@, page as nat) + Seq::<usize>::empty());
            }
        }
        page = page + 1;
    }
    r
}

/// The bytes of a page write: the two address bytes, high first, then the data.
pub fn page_write_packet(address: u16, data: &[u8]) -> (packet: Vec<u8>)
    requires
        data@.len() <= 32,
    ensures
        packet@ == seq![(address / 256) as u8, (address % 256) as u8] + data@,
{
    let mut packet: Vec<u8> = Vec::new();
    packet.push((address / 256) as u8);
    packet.push((address % 256) as u8);
    let mut i: usize = 0;
    while i < data.len()
        invariant
            0 <= i <= data@.len(),
            packet@ == seq![(address / 256) as u8, (address % 256) as u8] + data@.subrange(0, i as int),
        decreases data@.len() - i,
    {
        packet.push(data[i]);
        assert(data@.subrange(0, i + 1) =~= data@.subrange(0, i as int).push(data@[i as int]));
        i = i + 1;
    }
    assert(data@.subrange(0, data@.len() as int) =~= data@);
    packet
}

proof fn lemma_dirty_empty_iff(current: Seq<u8>, target: Seq<u8>, k: nat)
    ensures
        dirty_page_offsets(current, target, k).len() == 0 <==> forall|p: int|
            0 <= p < k ==> !#[trigger] page_differs(current, target, p),
    decreases k,
{
    if k > 0 {
        lemma_dirty_empty_iff(current, target, (k - 1) as nat);
    }
}

/// No page needs rewriting exactly when the two images are equal, so an
/// image that already matches is left untouched.
pub proof fn lemma_no_dirty_page_iff_equal(current: Seq<u8>, target: Seq<u8>)
    requires
        current.len() == 256,
        target.len() == 256,
    ensures
        dirty_page_offsets(current, target, 8).len() == 0 <==> current == target,
{
    lemma_dirty_empty_iff(current, target, 8);
    if dirty_page_offsets(current, target, 8).len() == 0 {
        assert forall|i: int| 0 <= i < 256 implies current[i] == target[i] by {
            let p = i / 32;
            assert(0 <= p < 8 && p * 32 <= i < p * 32 + 32) by (nonlinear_arith)
                requires
                    0 <= i < 256,
                    p == i / 32,
            ;
            assert(!page_differs(current, target, p));
            assert(current.subrange(p * 32, p * 32 + 32)[i - p * 32] == current[i]);
            assert(target.subrange(p * 32, p * 32 + 32)[i - p * 32] == target[i]);
        }
        assert(current =~= target);
    }
    if current == target {
        assert forall|p: int| 0 <= p < 8 implies !#[trigger] page_differs(current, target, p) by {}
    }
}

/// `img` with the 32-byte page at `off` taken from `target`.
pub open spec fn write_page(img: Seq<u8>, target: Seq<u8>, off: int) -> Seq<u8> {
    Seq::new(img.len(), |i: int| if off <= i < off + 32 { target[i] } else { img[i] })
}

/// `img` with each listed page, in order, taken from `target`.
pub open spec fn write_pages(img: Seq<u8>, target: Seq<u8>, offsets: Seq<usize>) -> Seq<u8>
    decreases offsets.len(),
{
    if offsets.len() == 0 {
        img
    } else {
        write_pages(write_page(img, target, offsets[0] as int), target, offsets.drop_first())
    }
}

proof fn lemma_write_pages_append(img: Seq<u8>, target: Seq<u8>, a: Seq<usize>, b: Seq<usize>)
    ensures
        write_pages(img, target, a + b) == write_pages(write_pages(img, target, a), target, b),
    decreases a.len(),
{
    if a.len() > 0 {
        assert((a + b).drop_first() =~= a.drop_first() + b);
        assert((a + b)[0] == a[0]);
        lemma_write_pages_append(write_page(img, target, a[0] as int), target, a.drop_first(), b);
    } else {
        assert(a + b =~= b);
    }
}

proof fn lemma_dirty_pages_fill(current: Seq<u8>, target: Seq<u8>, k: nat)
    requires
        current.len() == 256,
        target.len() == 256,
        k <= 8,
    ensures
        ({
            let img = write_pages(current, target, dirty_page_offsets(current, target, k));
            &&& img.len() == 256
            &&& forall|i: int| 0 <= i < k * 32 ==> #[trigger] img[i] == target[i]
            &&& forall|i: int| k * 32 <= i < 256 ==> #[trigger] img[i] == current[i]
        }),
    decreases k,
{
    if k > 0 {
        let j = (k - 1) as nat;
        lemma_dirty_pages_fill(current, target, j);
        let before = write_pages(current, target, dirty_page_offsets(current, target, j));
        let tail: Seq<usize> = if page_differs(current, target, j as int) {
            seq![(j * 32) as usize]
        } else {
            Seq::empty()
        };
        assert(dirty_page_offsets(current, target, k) == dirty_page_offsets(current, target, j) + tail);
        lemma_write_pages_append(current, target, dirty_page_offsets(current, target, j), tail);
        let img = write_pages(current, target, dirty_page_offsets(current, target, k));
        if page_differs(current, target, j as int) {
            assert(tail.drop_first() =~= Seq::<usize>::empty());
            assert(tail[0] as int == j * 32);
            assert(write_pages(before, target, tail) == write_pages(
                write_page(before, target, tail[0] as int),
                target,
                tail.drop_first(),
            ));
            assert(img == write_page(before, target, (j * 32) as int));
        } else {
            assert(img == before);
            assert forall|i: int| j * 32 <= i < k * 32 implies img[i] == target[i] by {
                let lo = (j * 32) as int;
                assert(current.subrange(lo, lo + 32) == target.subrange(lo, lo + 32));
                assert(current.subrange(lo, lo + 32)[i - lo] == current[i]);
                assert(target.subrange(lo, lo + 32)[i - lo] == target[i]);
            }
        }
    }
}

/// Rewriting the pages that differ turns the device's image into the
/// target: after the writes, the image reads back as the target.
pub proof fn lemma_rewriting_dirty_pages_gives_target(current: Seq<u8>, target: Seq<u8>)
    requires
        current.len() == 256,
        target.len() == 256,
    ensures
        write_pages(current, target, dirty_page_offsets(current, target, 8)) == target,
{
    lemma_dirty_pages_fill(current, target, 8);
    assert(write_pages(current, target, dirty_page_offsets(current, target, 8)) =~= target);
}

} // verus!
