//! Raster images through the `image` crate: decoding, resizing, conversion to
//! 8-bit RGBA, and encoding. A decoded image is held as a `Raster`, whose view
//! gives its pixel layout, size and pixel bytes as plain values.
//!
//! The pixel bytes of 16-bit and 32-bit layouts are in the machine's byte
//! order, as the `image` crate keeps them; what the crate computes from such
//! bytes is therefore named with the byte order as one more argument.

use vstd::prelude::*;
use vstd::endian::{endianness, Endian};
use image::ImageEncoder;
use image::ColorType as C;
use image::ExtendedColorType as E;
use image::imageops::FilterType as F;

verus! {

use PixelLayout as L;

#[verifier::external_type_specification]
#[verifier::external_body]
pub struct ExDynamicImage(image::DynamicImage);

/// How the bytes of a pixel are laid out (the colour types of the `image` crate).
#[derive(Clone, Copy, Debug, PartialEq, Eq, Structural)]
pub enum PixelLayout {
    L8,
    La8,
    Rgb8,
    Rgba8,
    L16,
    La16,
    Rgb16,
    Rgba16,
    Rgb32F,
    Rgba32F,
}

/// Bytes per pixel of a layout.
pub open spec fn bytes_per_pixel(layout: PixelLayout) -> nat {
    match layout {
        PixelLayout::L8 => 1,
        PixelLayout::La8 => 2,
        PixelLayout::Rgb8 => 3,
        PixelLayout::Rgba8 => 4,
        PixelLayout::L16 => 2,
        PixelLayout::La16 => 4,
        PixelLayout::Rgb16 => 6,
        PixelLayout::Rgba16 => 8,
        PixelLayout::Rgb32F => 12,
        PixelLayout::Rgba32F => 16,
    }
}

/// Bytes per pixel of a layout.
pub fn layout_bytes_per_pixel(layout: PixelLayout) -> (r: u8)
    ensures
        r as nat == bytes_per_pixel(layout),
{
    match layout {
        PixelLayout::L8 => 1,
        PixelLayout::La8 => 2,
        PixelLayout::Rgb8 => 3,
        PixelLayout::Rgba8 => 4,
        PixelLayout::L16 => 2,
        PixelLayout::La16 => 4,
        PixelLayout::Rgb16 => 6,
        PixelLayout::Rgba16 => 8,
        PixelLayout::Rgb32F => 12,
        PixelLayout::Rgba32F => 16,
    }
}

/// The pixel buffer holds exactly `width * height` pixels of the layout.
pub open spec fn buffer_fits(len: nat, width: u32, height: u32, layout: PixelLayout) -> bool {
    len == width * height * bytes_per_pixel(layout)
}

/// Whether a buffer of `len` bytes holds exactly `width * height` pixels.
pub fn buffer_matches(len: usize, width: u32, height: u32, layout: PixelLayout) -> (r: bool)
    ensures
        r == buffer_fits(len as nat, width, height, layout),
{
    let bpp = layout_bytes_per_pixel(layout) as u128;
    let w = width as u128;
    let h = height as u128;
    assert(w * h <= 0xffff_ffff_ffff_ffff) by (nonlinear_arith)
        requires
            w <= 0xffff_ffff,
            h <= 0xffff_ffff,
    ;
    assert(w * h * bpp <= 16 * 0xffff_ffff_ffff_ffff) by (nonlinear_arith)
        requires
            w * h <= 0xffff_ffff_ffff_ffff,
            bpp <= 16,
    ;
    (len as u128) == w * h * bpp
}

/// The most bytes of working memory that resizing a `from_width`-wide image
/// to `width` x `height` asks for in one buffer are addressable: resizing
/// first samples rows into a buffer of `from_width * height` pixels of four
/// 4-byte channels, then columns into `width * height` pixels of at most 16 bytes.
pub open spec fn resize_fits(from_width: u32, width: u32, height: u32) -> bool {
    from_width * height * 16 <= isize::MAX && width * height * 16 <= isize::MAX
}

/// Whether resizing a `from_width`-wide image to `width` x `height` fits.
pub fn resize_fits_check(from_width: u32, width: u32, height: u32) -> (r: bool)
    ensures
        r == resize_fits(from_width, width, height),
{
    let limit = isize::MAX as u128;
    let f = from_width as u128;
    let w = width as u128;
    let h = height as u128;
    assert(f * h <= 0xffff_ffff_ffff_ffff && w * h <= 0xffff_ffff_ffff_ffff) by (nonlinear_arith)
        requires
            f <= 0xffff_ffff,
            w <= 0xffff_ffff,
            h <= 0xffff_ffff,
    ;
    f * h * 16 <= limit && w * h * 16 <= limit
}

/// A decoded image, held for further work by the `image` crate, with its pixel
/// layout, its size, and its pixel bytes (`DynamicImage::as_bytes`). Only
/// decoding and resizing make one, so these always describe the held image, and
/// the pixel bytes are exactly `width * height` pixels of the layout.
pub struct Raster {
    image: image::DynamicImage,
    layout: Option<PixelLayout>,
    width: u32,
    height: u32,
    pixels: Vec<u8>,
}

/// What a `Raster` holds, as plain values.
pub struct RasterView {
    pub layout: Option<PixelLayout>,
    pub width: u32,
    pub height: u32,
    pub pixels: Seq<u8>,
}

/// A well-formed image: a known layout, and exactly `width * height` pixels of it.
pub open spec fn raster_ok(v: RasterView) -> bool {
    v.layout is Some && buffer_fits(v.pixels.len(), v.width, v.height, v.layout->0)
}

impl View for Raster {
    type V = RasterView;

    closed spec fn view(&self) -> RasterView {
        RasterView { layout: self.layout, width: self.width, height: self.height, pixels: self.pixels@ }
    }
}

impl Raster {
    #[verifier::type_invariant]
    spec fn well_formed(self) -> bool {
        raster_ok(self@)
    }

    /// The image's pixel layout.
    pub fn layout(&self) -> (r: PixelLayout)
        ensures
            self@.layout == Some(r),
            raster_ok(self@),
    {
        proof {
            use_type_invariant(self);
        }
        match self.layout {
            Some(layout) => layout,
            None => PixelLayout::Rgba8,
        }
    }

    /// The image's width.
    pub fn width(&self) -> (r: u32)
        ensures
            r == self@.width,
            raster_ok(self@),
    {
        proof {
            use_type_invariant(self);
        }
        self.width
    }

    /// The image's height.
    pub fn height(&self) -> (r: u32)
        ensures
            r == self@.height,
            raster_ok(self@),
    {
        proof {
            use_type_invariant(self);
        }
        self.height
    }

    /// The image's pixel bytes.
    pub fn pixels(&self) -> (r: &[u8])
        ensures
            r@ == self@.pixels,
            raster_ok(self@),
    {
        proof {
            use_type_invariant(self);
        }
        self.pixels.as_slice()
    }
}

/// A resampling filter (the filters of `image::imageops::FilterType`).
#[derive(Clone, Copy, Debug, PartialEq, Eq, Structural)]
pub enum ResizeFilter {
    Nearest,
    Triangle,
    CatmullRom,
    Gaussian,
    Lanczos3,
}

/// Most pixel bytes for which a PNG that `PngEncoder` writes is stated to decode
/// back: the 512 MiB that `image::load_from_memory` lets a decoder reserve for
/// the decoded image (the PNG decoder's own allocations are held to a separate
/// 512 MiB, of which it reserves one row).
pub open spec fn png_read_back_limit() -> nat {
    0x2000_0000
}

/// The pixel layouts that PNG stores: 8- and 16-bit grey, grey with alpha, RGB
/// and RGBA.
pub open spec fn is_png_layout(layout: PixelLayout) -> bool {
    !(layout is Rgb32F) && !(layout is Rgba32F)
}

/// A PNG of these pixels is written and read back whole: a PNG layout, a
/// non-empty image, and at most `png_read_back_limit()` pixel bytes.
pub open spec fn png_round_trips(pixels: Seq<u8>, width: u32, height: u32, layout: PixelLayout) -> bool {
    is_png_layout(layout) && width > 0 && height > 0 && pixels.len() <= png_read_back_limit()
}

/// The image of `width` x `height` pixels of `layout` held in `pixels`.
pub open spec fn raster_of(pixels: Seq<u8>, width: u32, height: u32, layout: PixelLayout) -> RasterView {
    RasterView { layout: Some(layout), width, height, pixels }
}

/// The image that `image::load_from_memory` decodes from `bytes` (format guessed
/// from the bytes), with its pixel bytes in the byte order `order`, or the text
/// of the decoding error.
pub uninterp spec fn decoded_image(bytes: Seq<u8>, order: Endian) -> Result<RasterView, Seq<char>>;

/// `resized` is an image that `DynamicImage::resize_exact` may give for `img`
/// (pixel bytes in the byte order `order`) at `width` x `height` with `filter`.
pub uninterp spec fn resize_result(
    img: RasterView,
    width: u32,
    height: u32,
    filter: ResizeFilter,
    order: Endian,
    resized: RasterView,
) -> bool;

/// The bytes of `DynamicImage::to_rgba8` applied to the image `img` (pixel
/// bytes in the byte order `order`): its pixels as 8-bit RGBA, row by row.
pub uninterp spec fn rgba8_pixels(img: RasterView, order: Endian) -> Seq<u8>;

/// The PNG file that the `image` crate's `PngEncoder` writes for the pixels
/// (samples wider than a byte read in the byte order `order`), or its error text.
pub uninterp spec fn png_encoding(
    pixels: Seq<u8>,
    width: u32,
    height: u32,
    layout: PixelLayout,
    order: Endian,
) -> Result<Seq<u8>, Seq<char>>;

/// The JPEG file that the `image` crate's `JpegEncoder` writes at `quality` for
/// the pixels (read in the byte order `order`), or its error text.
pub uninterp spec fn jpeg_encoding(
    pixels: Seq<u8>,
    width: u32,
    height: u32,
    layout: PixelLayout,
    quality: u8,
    order: Endian,
) -> Result<Seq<u8>, Seq<char>>;

/// The ICO file that the `image` crate's `IcoEncoder` writes for the pixels
/// (read in the byte order `order`), or its error text.
pub uninterp spec fn ico_encoding(
    pixels: Seq<u8>,
    width: u32,
    height: u32,
    layout: PixelLayout,
    order: Endian,
) -> Result<Seq<u8>, Seq<char>>;

/// The view of an encoder's outcome.
pub open spec fn encoded_outcome(r: Result<Vec<u8>, String>) -> Result<Seq<u8>, Seq<char>> {
    match r {
        Ok(v) => Ok(v@),
        Err(e) => Err(e@),
    }
}

/// Calls `image::load_from_memory` and reads the decoded image's colour type,
/// size and pixel bytes. The result, or the error's text, is named. The crate's
/// `DynamicImage` has exactly the ten colour types of `PixelLayout`, and a
/// decoder fills a buffer of exactly `width * height` pixels, so the image is
/// well-formed. Decoding first reserves that buffer against a 512 MiB limit, so
/// a decoded image holds at most `png_read_back_limit()` bytes.
#[verifier::external_body]
pub(crate) fn load_image(bytes: &[u8]) -> (r: Result<Raster, String>)
    ensures
        match r {
            Ok(img) => decoded_image(bytes@, endianness()) == Ok::<RasterView, Seq<char>>(img@),
            Err(e) => decoded_image(bytes@, endianness()) == Err::<RasterView, Seq<char>>(e@),
        },
        r matches Ok(img) ==> raster_ok(img@),
        r matches Ok(img) ==> img@.pixels.len() <= png_read_back_limit(),
{
    let image = image::load_from_memory(bytes).map_err(|e| e.to_string())?;
    let layout = match image.color() {
        C::L8 => Some(L::L8), C::La8 => Some(L::La8), C::Rgb8 => Some(L::Rgb8),
        C::Rgba8 => Some(L::Rgba8), C::L16 => Some(L::L16), C::La16 => Some(L::La16),
        C::Rgb16 => Some(L::Rgb16), C::Rgba16 => Some(L::Rgba16),
        C::Rgb32F => Some(L::Rgb32F), C::Rgba32F => Some(L::Rgba32F), _ => None,
    };
    let (width, height, pixels) = (image.width(), image.height(), image.as_bytes().to_vec());
    Ok(Raster { image, layout, width, height, pixels })
}

/// Calls `DynamicImage::resize_exact` with the filter, which keeps the colour
/// type and gives an image of the requested size (its buffer holds exactly
/// that many pixels). It panics when one of its buffers would not be
/// addressable, which `requires` rules out. Which pixels come out is left to
/// `resize_result`: the kernels use `f32` functions such as `sin`, whose
/// precision the standard library leaves to the platform.
#[verifier::external_body]
pub(crate) fn resize_exact(img: &Raster, width: u32, height: u32, filter: ResizeFilter) -> (r: Raster)
    requires
        resize_fits(img@.width, width, height),
    ensures
        r@.layout == img@.layout,
        r@.width == width,
        r@.height == height,
        resize_result(img@, width, height, filter, endianness(), r@),
{
    let filter = match filter {
        ResizeFilter::Nearest => F::Nearest,
        ResizeFilter::Triangle => F::Triangle,
        ResizeFilter::CatmullRom => F::CatmullRom,
        ResizeFilter::Gaussian => F::Gaussian,
        ResizeFilter::Lanczos3 => F::Lanczos3,
    };
    let image = img.image.resize_exact(width, height, filter);
    let (w, h, pixels) = (image.width(), image.height(), image.as_bytes().to_vec());
    Raster { image, layout: img.layout, width: w, height: h, pixels }
}

/// Calls `DynamicImage::to_rgba8`, which allocates `width * height` 4-byte
/// pixels (its panic on an unaddressable size is ruled out by `requires`); the
/// bytes are named.
#[verifier::external_body]
pub(crate) fn image_rgba8(img: &Raster) -> (r: Vec<u8>)
    requires
        img@.width * img@.height * 4 <= isize::MAX,
    ensures
        r@ == rgba8_pixels(img@, endianness()),
        r@.len() == img@.width * img@.height * 4,
{
    img.image.to_rgba8().into_raw()
}

/// Calls `PngEncoder::write_image`, which panics unless the buffer holds exactly
/// `width * height` pixels of the layout; its output or error text is named.
/// Writing a PNG layout of a non-empty image into memory does not fail, and the
/// file decodes (with `image::load_from_memory`) to the same layout, size and
/// pixel bytes: PNG is lossless, 16-bit samples are stored big-endian and read
/// back in the machine's order, and the decoded image fits the decoder's memory
/// limit.
#[verifier::external_body]
pub(crate) fn encode_png(pixels: &[u8], width: u32, height: u32, layout: PixelLayout) -> (r: Result<Vec<u8>, String>)
    requires
        buffer_fits(pixels@.len(), width, height, layout),
    ensures
        encoded_outcome(r) == png_encoding(pixels@, width, height, layout, endianness()),
        png_round_trips(pixels@, width, height, layout) ==> (r is Ok && decoded_image(r->Ok_0@, endianness())
            == Ok::<RasterView, Seq<char>>(raster_of(pixels@, width, height, layout))),
{
    let color = match layout {
        L::L8 => E::L8, L::La8 => E::La8, L::Rgb8 => E::Rgb8, L::Rgba8 => E::Rgba8,
        L::L16 => E::L16, L::La16 => E::La16, L::Rgb16 => E::Rgb16, L::Rgba16 => E::Rgba16,
        L::Rgb32F => E::Rgb32F, L::Rgba32F => E::Rgba32F,
    };
    let mut out: Vec<u8> = Vec::new();
    let encoder = image::codecs::png::PngEncoder::new(&mut out);
    encoder.write_image(pixels, width, height, color).map_err(|e| e.to_string())?;
    Ok(out)
}

/// Calls `JpegEncoder::write_image` at `quality` (clamped by the crate to
/// 1..=100), which panics unless the buffer holds exactly `width * height`
/// pixels; its output or error text is named.
#[verifier::external_body]
pub(crate) fn encode_jpeg(pixels: &[u8], width: u32, height: u32, layout: PixelLayout, quality: u8) -> (r: Result<Vec<u8>, String>)
    requires
        buffer_fits(pixels@.len(), width, height, layout),
    ensures
        encoded_outcome(r) == jpeg_encoding(pixels@, width, height, layout, quality, endianness()),
{
    let color = match layout {
        L::L8 => E::L8, L::La8 => E::La8, L::Rgb8 => E::Rgb8, L::Rgba8 => E::Rgba8,
        L::L16 => E::L16, L::La16 => E::La16, L::Rgb16 => E::Rgb16, L::Rgba16 => E::Rgba16,
        L::Rgb32F => E::Rgb32F, L::Rgba32F => E::Rgba32F,
    };
    let mut out: Vec<u8> = Vec::new();
    let encoder = image::codecs::jpeg::JpegEncoder::new_with_quality(&mut out, quality);
    encoder.write_image(pixels, width, height, color).map_err(|e| e.to_string())?;
    Ok(out)
}

/// Calls `IcoEncoder::write_image`, which panics unless the buffer holds exactly
/// `width * height` pixels of the layout; its output or error text is named.
#[verifier::external_body]
pub(crate) fn encode_ico(pixels: &[u8], width: u32, height: u32, layout: PixelLayout) -> (r: Result<Vec<u8>, String>)
    requires
        buffer_fits(pixels@.len(), width, height, layout),
    ensures
        encoded_outcome(r) == ico_encoding(pixels@, width, height, layout, endianness()),
{
    let color = match layout {
        L::L8 => E::L8, L::La8 => E::La8, L::Rgb8 => E::Rgb8, L::Rgba8 => E::Rgba8,
        L::L16 => E::L16, L::La16 => E::La16, L::Rgb16 => E::Rgb16, L::Rgba16 => E::Rgba16,
        L::Rgb32F => E::Rgb32F, L::Rgba32F => E::Rgba32F,
    };
    let mut out: Vec<u8> = Vec::new();
    let encoder = image::codecs::ico::IcoEncoder::new(&mut out);
    encoder.write_image(pixels, width, height, color).map_err(|e| e.to_string())?;
    Ok(out)
}

} // verus!
