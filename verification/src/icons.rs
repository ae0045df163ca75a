//! Icons taken from files: the per-icon pixel work (dimensions, alpha from the
//! mask, channel order, PNG data URL), the size-ordered list of results, and the
//! entry points that pick how a file is read.

use vstd::prelude::*;
use vstd::endian::endianness;
use crate::base64::{base64_len_ok, base64_len_fits};
use crate::data_url::{data_url_text, law_png_payload_of_png_data_url, make_data_url, png_payload, png_url_decodes_to};
use crate::images::{
    buffer_fits, encode_png, image_rgba8, png_encoding, png_read_back_limit, raster_of, rgba8_pixels,
    PixelLayout, Raster, RasterView,
};
use crate::paths::{has_shortcut_extension, is_shortcut_path};
use crate::sizes::{first_per_size_sorted, sort_first_per_size, SizedEntry};
use crate::text::{concat, decimal, decimal_text};

verus! {

broadcast use vstd::string::group_string_axioms;

/// One icon size taken from a file, as a PNG data URL.
#[derive(Clone, Debug, PartialEq, Eq)]
pub struct IconData {
    pub size: u32,
    pub width: u32,
    pub height: u32,
    /// `data:image/png;base64,...`
    pub data_url: String,
}

impl SizedEntry for IconData {
    open spec fn entry_size(&self) -> u32 {
        self.size
    }

    fn size(&self) -> (r: u32) {
        self.size
    }
}

/// The sizes at which a file's main icon resource is loaded, smallest first.
pub const ICON_LOAD_SIZES: [u32; 8] = [16, 24, 32, 48, 64, 96, 128, 256];

/// Largest accepted icon side, in pixels.
pub const MAX_ICON_SIDE: u32 = 1024;

/// The dimensions an icon bitmap yields, or why it is refused. A colour bitmap
/// gives its own size; a mask-only (monochrome) bitmap holds the AND and XOR
/// masks one above the other, so its height is the smaller of its two sides.
pub open spec fn bitmap_size_outcome(has_color: bool, object_ok: bool, bm_width: i32, bm_height: i32) -> Result<(u32, u32), Seq<char>> {
    if !object_ok || bm_width <= 0 || bm_height <= 0 {
        if has_color {
            Err("GetObjectW failed or returned invalid bitmap dimensions"@)
        } else {
            Err("GetObjectW on mask bitmap failed"@)
        }
    } else {
        let w = bm_width as u32;
        let h = if has_color || bm_height <= bm_width { bm_height as u32 } else { bm_width as u32 };
        if w > MAX_ICON_SIDE || h > MAX_ICON_SIDE {
            Err("Invalid icon dimensions: "@ + decimal(w as nat) + "x"@ + decimal(h as nat))
        } else {
            Ok((w, h))
        }
    }
}

/// Checks the bitmap of an icon (`object_ok` tells whether its description could
/// be read) and gives the icon's width and height.
pub fn icon_bitmap_size(has_color: bool, object_ok: bool, bm_width: i32, bm_height: i32) -> (r: Result<(u32, u32), String>)
    ensures
        match (r, bitmap_size_outcome(has_color, object_ok, bm_width, bm_height)) {
            (Ok(a), Ok(b)) => a == b,
            (Err(e), Err(m)) => e@ == m,
            _ => false,
        },
        r matches Ok((w, h)) ==> 0 < w <= MAX_ICON_SIDE && 0 < h <= MAX_ICON_SIDE,
{
    if !object_ok || bm_width <= 0 || bm_height <= 0 {
        if has_color {
            return Err("GetObjectW failed or returned invalid bitmap dimensions".to_owned());
        } else {
            return Err("GetObjectW on mask bitmap failed".to_owned());
        }
    }
    let w = bm_width as u32;
    let h = if has_color || bm_height <= bm_width { bm_height as u32 } else { bm_width as u32 };
    if w > MAX_ICON_SIDE || h > MAX_ICON_SIDE {
        let mut msg = concat("Invalid icon dimensions: ", decimal_text(w).as_str());
        msg.append("x");
        msg.append(decimal_text(h).as_str());
        return Err(msg);
    }
    Ok((w, h))
}

/// Some 4-byte pixel of `p` has a non-zero alpha (fourth) byte; a trailing
/// partial pixel is not looked at.
pub open spec fn has_nonzero_alpha(p: Seq<u8>) -> bool {
    exists|k: int| 0 <= k < p.len() / 4 && #[trigger] p[4 * k + 3] != 0
}

/// Whether any pixel of a 32-bit buffer has a non-zero alpha byte.
pub fn any_alpha(p: &Vec<u8>) -> (r: bool)
    ensures
        r == has_nonzero_alpha(p@),
{
    let n = p.len() / 4;
    assert(4 * n <= p@.len());
    let mut k: usize = 0;
    while k < n
        invariant
            n == p@.len() / 4,
            4 * n <= p@.len(),
            p@.len() <= usize::MAX,
            k <= n,
            forall|m: int| 0 <= m < k ==> #[trigger] p@[4 * m + 3] == 0,
        decreases n - k,
    {
        if p[4 * k + 3] != 0 {
            return true;
        }
        k = k + 1;
    }
    false
}

/// The colour bitmap needs its alpha taken from the mask: it has colour, and every
/// alpha byte is zero.
pub fn needs_mask_alpha(has_color: bool, color_pixels: &Vec<u8>) -> (r: bool)
    ensures
        r == (has_color && !has_nonzero_alpha(color_pixels@)),
{
    has_color && !any_alpha(color_pixels)
}

/// `color` with each pixel's alpha set from the mask pixel at the same place:
/// opaque (255) where the mask's first byte is 0, transparent (0) elsewhere.
/// Pixels go in step while both buffers have a whole pixel left.
pub open spec fn masked_alpha(color: Seq<u8>, mask: Seq<u8>) -> Seq<u8> {
    Seq::new(
        color.len(),
        |i: int|
            if i % 4 == 3 && i / 4 < color.len() / 4 && i / 4 < mask.len() / 4 {
                if mask[i - 3] == 0 {
                    255u8
                } else {
                    0u8
                }
            } else {
                color[i]
            },
    )
}

/// Sets the alpha of each colour pixel from the mask.
pub fn apply_mask_alpha(color: &mut Vec<u8>, mask: &Vec<u8>)
    ensures
        final(color)@ == masked_alpha(old(color)@, mask@),
{
    let ghost orig = color@;
    let n = if color.len() / 4 < mask.len() / 4 { color.len() / 4 } else { mask.len() / 4 };
    assert(4 * n <= orig.len() && 4 * n <= mask@.len());
    let mut k: usize = 0;
    while k < n
        invariant
            color@.len() == orig.len(),
            4 * n <= orig.len(),
            4 * n <= mask@.len(),
            mask@.len() <= usize::MAX,
            n <= orig.len() / 4,
            n <= mask@.len() / 4,
            n == orig.len() / 4 || n == mask@.len() / 4,
            k <= n,
            forall|i: int| 0 <= i < 4 * k ==> #[trigger] color@[i] == masked_alpha(orig, mask@)[i],
            forall|i: int| 4 * k <= i < orig.len() ==> #[trigger] color@[i] == orig[i],
        decreases n - k,
    {
        let a: u8 = if mask[4 * k] == 0 { 255 } else { 0 };
        color.set(4 * k + 3, a);
        proof {
            assert forall|i: int| 0 <= i < 4 * (k + 1) implies #[trigger] color@[i] == masked_alpha(orig, mask@)[i] by {
                if i >= 4 * k {
                    assert(i / 4 == k);
                }
            }
        }
        k = k + 1;
    }
    assert forall|i: int| 0 <= i < orig.len() implies #[trigger] color@[i] == masked_alpha(orig, mask@)[i] by {
        if i >= 4 * n {
            assert(i / 4 >= n);
        }
    }
    assert(color@ =~= masked_alpha(orig, mask@));
}

/// A colour pixel's alpha comes from the first byte of the mask pixel at the
/// same place: opaque (255) where that byte is 0 (black), transparent (0)
/// elsewhere; the pixel's other three bytes stay as they were.
pub proof fn law_mask_alpha_from_first_mask_byte(color: Seq<u8>, mask: Seq<u8>, k: int)
    requires
        0 <= k < color.len() / 4,
        k < mask.len() / 4,
    ensures
        masked_alpha(color, mask).len() == color.len(),
        masked_alpha(color, mask)[4 * k + 3] == (if mask[4 * k] == 0 { 255u8 } else { 0u8 }),
        masked_alpha(color, mask)[4 * k] == color[4 * k],
        masked_alpha(color, mask)[4 * k + 1] == color[4 * k + 1],
        masked_alpha(color, mask)[4 * k + 2] == color[4 * k + 2],
{
    assert((4 * k + 3) / 4 == k && (4 * k + 3) % 4 == 3);
    assert((4 * k) % 4 == 0 && (4 * k + 1) % 4 == 1 && (4 * k + 2) % 4 == 2);
}

/// Only the first byte of each mask pixel matters: two masks that agree there
/// give the same pixels, whatever their other bytes (a monochrome mask read as
/// 32-bit pixels has a fourth byte of 0 everywhere).
pub proof fn law_mask_alpha_ignores_other_mask_bytes(color: Seq<u8>, m1: Seq<u8>, m2: Seq<u8>)
    requires
        m1.len() == m2.len(),
        forall|k: int| 0 <= k < m1.len() / 4 ==> #[trigger] m1[4 * k] == m2[4 * k],
    ensures
        masked_alpha(color, m1) == masked_alpha(color, m2),
{
    assert forall|i: int| 0 <= i < color.len() implies #[trigger] masked_alpha(color, m1)[i] == masked_alpha(color, m2)[i] by {
        if i % 4 == 3 && i / 4 < color.len() / 4 && i / 4 < m1.len() / 4 {
            let k = i / 4;
            assert(i - 3 == 4 * k);
            assert(m1[4 * k] == m2[4 * k]);
        }
    }
    assert(masked_alpha(color, m1) =~= masked_alpha(color, m2));
}

/// A buffer has alpha as soon as any one whole pixel, wherever it stands, has a
/// non-zero fourth byte.
pub proof fn law_alpha_in_any_pixel(p: Seq<u8>, k: int)
    requires
        0 <= k < p.len() / 4,
        p[4 * k + 3] != 0,
    ensures
        has_nonzero_alpha(p),
{
}

/// A buffer whose whole pixels all have a zero fourth byte has no alpha.
pub proof fn law_no_alpha_when_all_zero(p: Seq<u8>)
    requires
        forall|k: int| 0 <= k < p.len() / 4 ==> #[trigger] p[4 * k + 3] == 0,
    ensures
        !has_nonzero_alpha(p),
{
}

/// `p` with the first and third byte of each whole 4-byte pixel exchanged
/// (BGRA to RGBA, and back).
pub open spec fn swap_red_blue(p: Seq<u8>) -> Seq<u8> {
    Seq::new(
        p.len(),
        |i: int|
            if i / 4 < p.len() / 4 && i % 4 == 0 {
                p[i + 2]
            } else if i / 4 < p.len() / 4 && i % 4 == 2 {
                p[i - 2]
            } else {
                p[i]
            },
    )
}

/// Turns BGRA pixels into RGBA pixels in place.
pub fn bgra_to_rgba(p: &mut Vec<u8>)
    ensures
        final(p)@ == swap_red_blue(old(p)@),
{
    let ghost orig = p@;
    let n = p.len() / 4;
    assert(4 * n <= orig.len());
    let mut k: usize = 0;
    while k < n
        invariant
            p@.len() == orig.len(),
            4 * n <= orig.len(),
            orig.len() <= usize::MAX,
            n == orig.len() / 4,
            k <= n,
            forall|i: int| 0 <= i < 4 * k ==> #[trigger] p@[i] == swap_red_blue(orig)[i],
            forall|i: int| 4 * k <= i < orig.len() ==> #[trigger] p@[i] == orig[i],
        decreases n - k,
    {
        let b = p[4 * k];
        let r = p[4 * k + 2];
        p.set(4 * k, r);
        p.set(4 * k + 2, b);
        proof {
            assert forall|i: int| 0 <= i < 4 * (k + 1) implies #[trigger] p@[i] == swap_red_blue(orig)[i] by {
                if i >= 4 * k {
                    assert(i / 4 == k);
                }
            }
        }
        k = k + 1;
    }
    assert forall|i: int| 0 <= i < orig.len() implies #[trigger] p@[i] == swap_red_blue(orig)[i] by {
        if i >= 4 * n {
            assert(i / 4 >= n);
        }
    }
    assert(p@ =~= swap_red_blue(orig));
}

/// Exchanging red and blue twice gives back the pixels.
pub proof fn law_swap_red_blue_involution(p: Seq<u8>)
    ensures
        swap_red_blue(swap_red_blue(p)) == p,
{
    let q = swap_red_blue(p);
    assert forall|i: int| 0 <= i < p.len() implies #[trigger] swap_red_blue(q)[i] == p[i] by {
        if i / 4 < p.len() / 4 && i % 4 == 0 {
            assert((i + 2) / 4 == i / 4 && (i + 2) % 4 == 2);
        } else if i / 4 < p.len() / 4 && i % 4 == 2 {
            assert((i - 2) / 4 == i / 4 && (i - 2) % 4 == 0);
        }
    }
    assert(swap_red_blue(q) =~= p);
}

/// What an icon's fields are, as plain values.
pub struct IconView {
    pub size: u32,
    pub width: u32,
    pub height: u32,
    pub data_url: Seq<char>,
}

impl IconData {
    pub open spec fn view_of(&self) -> IconView {
        IconView { size: self.size, width: self.width, height: self.height, data_url: self.data_url@ }
    }
}

/// The larger of two sides.
pub open spec fn larger(a: u32, b: u32) -> u32 {
    if a >= b { a } else { b }
}

/// The icon made from BGRA pixels: RGBA PNG, base64 data URL, size the larger side.
pub open spec fn icon_outcome(bgra: Seq<u8>, width: u32, height: u32) -> Result<IconView, Seq<char>> {
    match png_encoding(swap_red_blue(bgra), width, height, PixelLayout::Rgba8, endianness()) {
        Err(e) => Err("PNG encode failed: "@ + e),
        Ok(png) => if base64_len_fits(png.len()) {
            Ok(IconView { size: larger(width, height), width, height, data_url: data_url_text("image/png"@, png) })
        } else {
            Err("PNG encode failed: encoded image too large"@)
        },
    }
}

/// Builds the icon for a `width` x `height` bitmap read as 32-bit BGRA pixels.
/// For a non-empty bitmap the icon's data URL holds a PNG that decodes to the
/// RGBA8 image of the bitmap's size and pixels (only an encoding too large to
/// hold as base64 fails).
pub fn icon_from_bgra(bgra: Vec<u8>, width: u32, height: u32) -> (r: Result<IconData, String>)
    requires
        buffer_fits(bgra@.len(), width, height, PixelLayout::Rgba8),
    ensures
        match (r, icon_outcome(bgra@, width, height)) {
            (Ok(icon), Ok(v)) => icon.view_of() == v,
            (Err(e), Err(m)) => e@ == m,
            _ => false,
        },
        width > 0 && height > 0 && bgra@.len() <= png_read_back_limit() ==> match r {
            Ok(icon) => png_url_decodes_to(
                icon.data_url@,
                raster_of(swap_red_blue(bgra@), width, height, PixelLayout::Rgba8),
            ),
            Err(e) => e@ == "PNG encode failed: encoded image too large"@,
        },
{
    let mut pixels = bgra;
    bgra_to_rgba(&mut pixels);
    let png = match encode_png(pixels.as_slice(), width, height, PixelLayout::Rgba8) {
        Ok(png) => png,
        Err(e) => return Err(concat("PNG encode failed: ", e.as_str())),
    };
    if !base64_len_ok(png.len()) {
        return Err("PNG encode failed: encoded image too large".to_owned());
    }
    let data_url = make_data_url("image/png", png.as_slice());
    proof {
        law_png_payload_of_png_data_url(png@);
    }
    let size = if width >= height { width } else { height };
    Ok(IconData { size, width, height, data_url })
}

/// The icon a decoded image gives: its pixels as 8-bit RGBA, encoded as a PNG
/// data URL, its size the larger side; nothing where encoding fails. (An image
/// whose RGBA copy, or whose data URL, would not be addressable gives nothing
/// too.)
pub open spec fn icon_of_image(img: RasterView) -> Option<IconView> {
    if img.width * img.height * 4 > isize::MAX {
        None
    } else {
        match png_encoding(rgba8_pixels(img, endianness()), img.width, img.height, PixelLayout::Rgba8, endianness()) {
            Err(_) => None,
            Ok(png) => if base64_len_fits(png.len()) {
                Some(IconView {
                    size: larger(img.width, img.height),
                    width: img.width,
                    height: img.height,
                    data_url: data_url_text("image/png"@, png),
                })
            } else {
                None
            },
        }
    }
}

/// Makes the icon of a decoded image: its pixels as 8-bit RGBA, as a PNG data URL.
pub fn icon_from_image(img: &Raster) -> (r: Option<IconData>)
    ensures
        match (r, icon_of_image(img@)) {
            (Some(icon), Some(v)) => icon.view_of() == v,
            (None, None) => true,
            _ => false,
        },
{
    let (width, height) = (img.width(), img.height());
    let limit = isize::MAX as u128;
    let (w, h) = (width as u128, height as u128);
    assert(w * h <= 0xffff_ffff_ffff_ffff) by (nonlinear_arith)
        requires
            w <= 0xffff_ffff,
            h <= 0xffff_ffff,
    ;
    if w * h * 4 > limit {
        return None;
    }
    let rgba = image_rgba8(img);
    let png = match encode_png(rgba.as_slice(), width, height, PixelLayout::Rgba8) {
        Ok(png) => png,
        Err(_) => return None,
    };
    if !base64_len_ok(png.len()) {
        return None;
    }
    let data_url = make_data_url("image/png", png.as_slice());
    let size = if width >= height { width } else { height };
    Some(IconData { size, width, height, data_url })
}

/// Finishes the icons gathered from a file, in the order they were found: none
/// is an error; otherwise they are kept one per size (the first found) and
/// ordered by ascending size.
pub fn finish_icon_list(found: Vec<IconData>) -> (r: Result<Vec<IconData>, String>)
    ensures
        found@.len() == 0 ==> (r matches Err(e) && e@ == "No icons found in the file"@),
        found@.len() > 0 ==> (r matches Ok(v) && v@ == first_per_size_sorted(found@)),
{
    if found.len() == 0 {
        return Err("No icons found in the file".to_owned());
    }
    let r = sort_first_per_size(found);
    Ok(r)
}

/// The shell's own icons for a file are asked for only when reading the file
/// itself gave none.
pub fn needs_shell_icons(found: &Vec<IconData>) -> (r: bool)
    ensures
        r == (found@.len() == 0),
{
    found.len() == 0
}

/// Where the icons of a shortcut are read from.
#[derive(Clone, Debug, PartialEq, Eq)]
pub enum ShortcutIconSource {
    /// The custom icon file that the shortcut names.
    CustomIcon(String),
    /// The file the shortcut points to.
    Target(String),
    /// The shortcut file itself, as an executable image.
    ShortcutItself,
}

/// Picks where a shortcut's icons come from: its custom icon file when it names
/// one that exists, else its target when that exists, else the shortcut itself.
pub fn choose_shortcut_source(
    custom_icon: Option<String>,
    custom_exists: bool,
    target: Option<String>,
    target_exists: bool,
) -> (r: ShortcutIconSource)
    ensures
        (custom_icon matches Some(c) && c@.len() > 0 && custom_exists) ==> r == ShortcutIconSource::CustomIcon(custom_icon->0),
        !(custom_icon matches Some(c) && c@.len() > 0 && custom_exists) && (target matches Some(t) && t@.len() > 0 && target_exists) ==> r == ShortcutIconSource::Target(target->0),
        !(custom_icon matches Some(c) && c@.len() > 0 && custom_exists) && !(target matches Some(t) && t@.len() > 0 && target_exists) ==> r == ShortcutIconSource::ShortcutItself,
{
    if let Some(c) = custom_icon {
        if c.as_str().unicode_len() > 0 && custom_exists {
            return ShortcutIconSource::CustomIcon(c);
        }
    }
    if let Some(t) = target {
        if t.as_str().unicode_len() > 0 && target_exists {
            return ShortcutIconSource::Target(t);
        }
    }
    ShortcutIconSource::ShortcutItself
}

/// Reading the icons of a shortcut needs the Windows shell; on this platform it
/// is refused.
pub fn extract_icons_from_shortcut(lnk_path: &str) -> (r: Result<Vec<IconData>, String>)
    ensures
        r matches Err(e) && e@ == "Shortcut resolution is only supported on Windows"@,
{
    Err("Shortcut resolution is only supported on Windows".to_owned())
}

/// Reading icons out of an executable image needs the Windows loader; on this
/// platform it is refused.
pub fn extract_icons_from_pe_only(path: &str) -> (r: Result<Vec<IconData>, String>)
    ensures
        r matches Err(e) && e@ == "Icon extraction is only supported on Windows"@,
{
    Err("Icon extraction is only supported on Windows".to_owned())
}

/// Reading the icons of a file needs the Windows shell; on this platform it is
/// refused.
pub fn extract_icons_from_file(path: &str) -> (r: Result<Vec<IconData>, String>)
    ensures
        r matches Err(e) && e@ == "Icon extraction is only supported on Windows"@,
{
    Err("Icon extraction is only supported on Windows".to_owned())
}

/// Extracts every icon size from a file: a shortcut (`.lnk`, in any case) is
/// resolved first, any other file is read directly. This is the version for
/// platforms other than Windows, where paths split on `/` only and both ways
/// are refused; on Windows the application reads icons through the shell and
/// picks the way with `platform_file_kind`.
pub fn extract_all_icons(file_path: &str) -> (r: Result<Vec<IconData>, String>)
    ensures
        is_shortcut_path(file_path@) ==> (r matches Err(e) && e@ == "Shortcut resolution is only supported on Windows"@),
        !is_shortcut_path(file_path@) ==> (r matches Err(e) && e@ == "Icon extraction is only supported on Windows"@),
{
    if has_shortcut_extension(file_path) {
        extract_icons_from_shortcut(file_path)
    } else {
        extract_icons_from_file(file_path)
    }
}

/// An icon made from a bitmap can be read back as a PNG data URL (as conversion
/// reads it), and the bytes read are the PNG of its pixels.
pub proof fn law_icon_reads_back_as_png(bgra: Seq<u8>, width: u32, height: u32)
    requires
        icon_outcome(bgra, width, height) is Ok,
    ensures
        png_payload(icon_outcome(bgra, width, height)->Ok_0.data_url) == Ok::<Seq<u8>, Seq<char>>(
            png_encoding(swap_red_blue(bgra), width, height, PixelLayout::Rgba8, endianness())->Ok_0,
        ),
{
    let png = png_encoding(swap_red_blue(bgra), width, height, PixelLayout::Rgba8, endianness())->Ok_0;
    law_png_payload_of_png_data_url(png);
}

} // verus!
