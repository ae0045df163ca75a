//! Every size held in a `.ico` file. An ICO file starts with a 6-byte header
//! (reserved 0, type 1, entry count, little-endian 16-bit words), followed by
//! one 16-byte directory entry per image: width, height, colour count,
//! reserved, planes, bit count, then the image's byte length and its offset
//! (little-endian 32-bit words). Each image is handed to the decoder on its own,
//! as a one-entry ICO file, so that the decoder reads exactly that entry.

use vstd::prelude::*;
use vstd::endian::endianness;
use crate::icons::{icon_from_image, icon_of_image, IconData, IconView};
use crate::images::{decoded_image, load_image};

verus! {

/// The little-endian 16-bit word at `i`.
pub open spec fn u16_at(b: Seq<u8>, i: int) -> nat {
    (b[i] + 256 * b[i + 1]) as nat
}

/// The little-endian 32-bit word at `i`.
pub open spec fn u32_at(b: Seq<u8>, i: int) -> nat {
    (b[i] + 256 * b[i + 1] + 65536 * b[i + 2] + 16777216 * b[i + 3]) as nat
}

/// How many directory entries an ICO file declares; none when the header is
/// missing or not that of an icon file.
pub open spec fn ico_entry_count(b: Seq<u8>) -> nat {
    if b.len() >= 6 && u16_at(b, 0) == 0 && u16_at(b, 2) == 1 {
        u16_at(b, 4)
    } else {
        0
    }
}

/// The one-entry ICO file for entry `k`: a header for one icon, the entry's
/// first 12 bytes (its dimensions, colours, planes, bit count and length), the
/// offset 22, and the entry's image bytes. `None` when the entry or its image
/// lies outside the file.
pub open spec fn ico_entry_file(b: Seq<u8>, k: int) -> Option<Seq<u8>> {
    let e = 6 + 16 * k;
    if e + 16 > b.len() {
        None
    } else {
        let size = u32_at(b, e + 8);
        let off = u32_at(b, e + 12);
        if off + size > b.len() {
            None
        } else {
            Some(seq![0u8, 0u8, 1u8, 0u8, 1u8, 0u8] + b.subrange(e, e + 12) + seq![22u8, 0u8, 0u8, 0u8]
                + b.subrange(off as int, (off + size) as int))
        }
    }
}

/// The icon that entry `k` gives, when its image decodes and encodes.
pub open spec fn ico_entry_icon(b: Seq<u8>, k: int) -> Option<IconView> {
    match ico_entry_file(b, k) {
        Some(file) => match decoded_image(file, endianness()) {
            Ok(img) => icon_of_image(img),
            Err(_) => None,
        },
        None => None,
    }
}

/// The icons of the first `n` entries, in directory order, skipping entries
/// that give none.
pub open spec fn ico_icons_upto(b: Seq<u8>, n: nat) -> Seq<IconView>
    decreases n,
{
    if n == 0 {
        Seq::empty()
    } else {
        let prev = ico_icons_upto(b, (n - 1) as nat);
        match ico_entry_icon(b, n - 1) {
            Some(v) => prev.push(v),
            None => prev,
        }
    }
}

/// The icons of all entries of an ICO file, in directory order.
pub open spec fn ico_icons(b: Seq<u8>) -> Seq<IconView> {
    ico_icons_upto(b, ico_entry_count(b))
}

/// The views of a list of icons.
pub open spec fn icon_views(s: Seq<IconData>) -> Seq<IconView> {
    s.map_values(|i: IconData| i.view_of())
}

fn read_u16(b: &[u8], i: usize) -> (r: usize)
    requires
        i + 2 <= b@.len(),
    ensures
        r == u16_at(b@, i as int),
{
    b[i] as usize + 256 * b[i + 1] as usize
}

fn read_u32(b: &[u8], i: usize) -> (r: u64)
    requires
        i + 4 <= b@.len(),
    ensures
        r == u32_at(b@, i as int),
{
    b[i] as u64 + 256 * b[i + 1] as u64 + 65536 * b[i + 2] as u64 + 16777216 * b[i + 3] as u64
}

fn entry_file(b: &[u8], k: usize) -> (r: Option<Vec<u8>>)
    ensures
        match (r, ico_entry_file(b@, k as int)) {
            (Some(v), Some(w)) => v@ == w,
            (None, None) => true,
            _ => false,
        },
{
    let n = b.len();
    if n < 6 || k >= n || (n - 6) / 16 < k + 1 {
        proof {
            if n >= 6 && k < n {
                assert(6 + 16 * (k as int) + 16 > n) by (nonlinear_arith)
                    requires
                        (n - 6) / 16 < k + 1,
                        n >= 6,
                ;
            }
        }
        return None;
    }
    let e = 6 + 16 * k;
    assert(e + 16 <= n) by (nonlinear_arith)
        requires
            (n - 6) / 16 >= k + 1,
            n >= 6,
            e == 6 + 16 * k,
    ;
    let size = read_u32(b, e + 8);
    let off = read_u32(b, e + 12);
    if off > n as u64 || size > n as u64 - off {
        return None;
    }
    let (off, size) = (off as usize, size as usize);
    let mut v: Vec<u8> = vec![0u8, 0u8, 1u8, 0u8, 1u8, 0u8];
    let mut i: usize = e;
    while i < e + 12
        invariant
            e + 16 <= n,
            n == b@.len(),
            e <= i <= e + 12,
            v@ == seq![0u8, 0u8, 1u8, 0u8, 1u8, 0u8] + b@.subrange(e as int, i as int),
        decreases e + 12 - i,
    {
        v.push(b[i]);
        i = i + 1;
        assert(v@ =~= seq![0u8, 0u8, 1u8, 0u8, 1u8, 0u8] + b@.subrange(e as int, i as int));
    }
    v.push(22u8);
    v.push(0u8);
    v.push(0u8);
    v.push(0u8);
    let ghost head = v@;
    assert(head =~= seq![0u8, 0u8, 1u8, 0u8, 1u8, 0u8] + b@.subrange(e as int, e + 12) + seq![22u8, 0u8, 0u8, 0u8]);
    let mut j: usize = off;
    while j < off + size
        invariant
            off + size <= n,
            n == b@.len(),
            off <= j <= off + size,
            v@ == head + b@.subrange(off as int, j as int),
        decreases off + size - j,
    {
        v.push(b[j]);
        j = j + 1;
        assert(v@ =~= head + b@.subrange(off as int, j as int));
    }
    Some(v)
}

/// The icons of every entry of an ICO file, in directory order: each entry's
/// image is decoded, converted to 8-bit RGBA and encoded as a PNG data URL;
/// entries that lie outside the file or do not decode are skipped.
pub fn ico_file_icons(bytes: &[u8]) -> (r: Vec<IconData>)
    ensures
        icon_views(r@) == ico_icons(bytes@),
{
    let count: usize = if bytes.len() >= 6 && read_u16(bytes, 0) == 0 && read_u16(bytes, 2) == 1 {
        read_u16(bytes, 4)
    } else {
        0
    };
    let mut out: Vec<IconData> = Vec::new();
    let mut k: usize = 0;
    while k < count
        invariant
            count == ico_entry_count(bytes@),
            k <= count,
            icon_views(out@) == ico_icons_upto(bytes@, k as nat),
        decreases count - k,
    {
        let ghost before = out@;
        match entry_file(bytes, k) {
            Some(file) => {
                match load_image(file.as_slice()) {
                    Ok(img) => {
                        match icon_from_image(&img) {
                            Some(icon) => {
                                out.push(icon);
                                assert(icon_views(out@) =~= icon_views(before).push(icon.view_of()));
                            },
                            None => {},
                        }
                    },
                    Err(_) => {},
                }
            },
            None => {},
        }
        k = k + 1;
    }
    out
}

} // verus!
