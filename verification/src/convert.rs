//! Converting an icon given as a PNG data URL into another format and size.

use vstd::prelude::*;
use vstd::endian::endianness;
use crate::base64::{base64_len_fits, base64_len_ok};
use crate::data_url::{
    data_url_text, law_png_payload_of_png_data_url, law_saved_payload_of_data_url, make_data_url,
    png_data_url_payload, png_payload, png_url_decodes_to, saved_payload,
};
use crate::images::{
    buffer_fits, decoded_image, encode_ico, encode_jpeg, encode_png, ico_encoding, jpeg_encoding,
    load_image, png_encoding, png_round_trips, raster_of, resize_exact, is_png_layout, resize_fits, resize_fits_check, resize_result,
    PixelLayout, Raster, RasterView, ResizeFilter,
};
use crate::text::{concat, lowercase_equals, lowercase_is};

verus! {

broadcast use vstd::string::group_string_axioms;

/// An output format.
#[derive(Clone, Copy, Debug, PartialEq, Eq, Structural)]
pub enum OutputFormat {
    Png,
    Jpeg,
    Ico,
}

/// The output format a format name asks for, compared case-insensitively:
/// `png`, `jpg` or `jpeg`, `ico`.
pub open spec fn output_format(name: Seq<char>) -> Option<OutputFormat> {
    if lowercase_equals(name, "png"@) {
        Some(OutputFormat::Png)
    } else if lowercase_equals(name, "jpg"@) || lowercase_equals(name, "jpeg"@) {
        Some(OutputFormat::Jpeg)
    } else if lowercase_equals(name, "ico"@) {
        Some(OutputFormat::Ico)
    } else {
        None
    }
}

/// The media type of an output format.
pub open spec fn mime_type(f: OutputFormat) -> Seq<char> {
    match f {
        OutputFormat::Png => "image/png"@,
        OutputFormat::Jpeg => "image/jpeg"@,
        OutputFormat::Ico => "image/x-icon"@,
    }
}

/// How encoding errors are introduced for an output format.
pub open spec fn encode_error_prefix(f: OutputFormat) -> Seq<char> {
    match f {
        OutputFormat::Png => "PNG encode failed: "@,
        OutputFormat::Jpeg => "JPEG encode failed: "@,
        OutputFormat::Ico => "ICO encode failed: "@,
    }
}

/// The quality at which JPEG output is encoded.
pub const JPEG_QUALITY: u8 = 90;

/// The filter with which an icon is resized.
pub const RESIZE_FILTER: ResizeFilter = ResizeFilter::Lanczos3;

/// What the encoder of an output format makes of the pixels; JPEG is encoded at
/// `JPEG_QUALITY`.
pub open spec fn encoding_in(f: OutputFormat, pixels: Seq<u8>, width: u32, height: u32, layout: PixelLayout) -> Result<Seq<u8>, Seq<char>> {
    match f {
        OutputFormat::Png => png_encoding(pixels, width, height, layout, endianness()),
        OutputFormat::Jpeg => jpeg_encoding(pixels, width, height, layout, JPEG_QUALITY, endianness()),
        OutputFormat::Ico => ico_encoding(pixels, width, height, layout, endianness()),
    }
}

/// Reads a format name.
pub fn parse_output_format(name: &str) -> (r: Option<OutputFormat>)
    ensures
        r == output_format(name@),
{
    proof {
        reveal_strlit("png");
        reveal_strlit("jpg");
        reveal_strlit("jpeg");
        reveal_strlit("ico");
    }
    if lowercase_is(name, "png") {
        Some(OutputFormat::Png)
    } else if lowercase_is(name, "jpg") || lowercase_is(name, "jpeg") {
        Some(OutputFormat::Jpeg)
    } else if lowercase_is(name, "ico") {
        Some(OutputFormat::Ico)
    } else {
        None
    }
}

/// The media type of an output format.
pub fn mime_type_of(f: OutputFormat) -> (r: &'static str)
    ensures
        r@ == mime_type(f),
{
    match f {
        OutputFormat::Png => "image/png",
        OutputFormat::Jpeg => "image/jpeg",
        OutputFormat::Ico => "image/x-icon",
    }
}

fn encode_error_prefix_of(f: OutputFormat) -> (r: &'static str)
    ensures
        r@ == encode_error_prefix(f),
{
    match f {
        OutputFormat::Png => "PNG encode failed: ",
        OutputFormat::Jpeg => "JPEG encode failed: ",
        OutputFormat::Ico => "ICO encode failed: ",
    }
}

/// Encodes pixels in an output format (JPEG at `JPEG_QUALITY`).
pub fn encode_in(f: OutputFormat, pixels: &[u8], width: u32, height: u32, layout: PixelLayout) -> (r: Result<Vec<u8>, String>)
    requires
        buffer_fits(pixels@.len(), width, height, layout),
    ensures
        match (r, encoding_in(f, pixels@, width, height, layout)) {
            (Ok(v), Ok(w)) => v@ == w,
            (Err(e), Err(m)) => e@ == m,
            _ => false,
        },
        f == OutputFormat::Png && png_round_trips(pixels@, width, height, layout) ==> (r is Ok && decoded_image(
            r->Ok_0@,
            endianness(),
        ) == Ok::<RasterView, Seq<char>>(raster_of(pixels@, width, height, layout))),
{
    match f {
        OutputFormat::Png => encode_png(pixels, width, height, layout),
        OutputFormat::Jpeg => encode_jpeg(pixels, width, height, layout, JPEG_QUALITY),
        OutputFormat::Ico => encode_ico(pixels, width, height, layout),
    }
}

/// Resizing to `target` x `target` is asked for: `target` is not 0 and differs
/// from the image's width.
pub open spec fn resize_wanted(img: RasterView, target: u32) -> bool {
    target > 0 && target != img.width
}

/// `resized` can be what resizing `img` to `target` x `target` with
/// `RESIZE_FILTER` gives: the same layout, the requested size, and an outcome
/// of the crate's resampling.
pub open spec fn is_resize_of(img: RasterView, target: u32, resized: RasterView) -> bool {
    &&& resized.layout == img.layout
    &&& resized.width == target
    &&& resized.height == target
    &&& resize_result(img, target, target, RESIZE_FILTER, endianness(), resized)
}

/// The image that conversion encodes: `resized` when resizing is asked for,
/// else the image itself.
pub open spec fn scaled_image(img: RasterView, target: u32, resized: RasterView) -> RasterView {
    if resize_wanted(img, target) {
        resized
    } else {
        img
    }
}

/// Conversion resizes the image: the format is known and resizing is asked for.
pub open spec fn resize_done(img: RasterView, format: Seq<char>, target: u32) -> bool {
    output_format(format) is Some && resize_wanted(img, target)
}

/// Scaling the image to `target` fits in memory (see `resize_fits`).
pub open spec fn scaling_fits(img: RasterView, target: u32) -> bool {
    resize_wanted(img, target) ==> resize_fits(img.width, target, target)
}

/// An image's pixels encoded in an output format, as a data URL; or the error,
/// introduced by the format's prefix (an encoding whose base64 length would not
/// fit in memory is refused).
pub open spec fn encoded_data_url(f: OutputFormat, img: RasterView) -> Result<Seq<char>, Seq<char>> {
    match encoding_in(f, img.pixels, img.width, img.height, img.layout->0) {
        Err(e) => Err(encode_error_prefix(f) + e),
        Ok(bytes) => if base64_len_fits(bytes.len()) {
            Ok(data_url_text(mime_type(f), bytes))
        } else {
            Err(encode_error_prefix(f) + "encoded image too large"@)
        },
    }
}

/// What converting a decoded image gives, where `resized` is what resizing
/// gave (when it was asked for): the format must be known, then the image to
/// encode is encoded in it.
pub open spec fn image_conversion(img: RasterView, format: Seq<char>, target: u32, resized: RasterView) -> Result<Seq<char>, Seq<char>> {
    match output_format(format) {
        None => Err("Unsupported format: "@ + format),
        Some(f) => encoded_data_url(f, scaled_image(img, target, resized)),
    }
}

/// The image decoded from an icon's data URL, when the URL carries one.
pub open spec fn decoded_icon(data_url: Seq<char>) -> Option<RasterView> {
    match png_payload(data_url) {
        Ok(bytes) => match decoded_image(bytes, endianness()) {
            Ok(img) => Some(img),
            Err(_) => None,
        },
        Err(_) => None,
    }
}

/// What converting an icon's data URL gives, where `resized` is what resizing
/// gave (when it was asked for).
pub open spec fn icon_conversion(data_url: Seq<char>, format: Seq<char>, target: u32, resized: RasterView) -> Result<Seq<char>, Seq<char>> {
    match png_payload(data_url) {
        Err(m) => Err(m),
        Ok(bytes) => match decoded_image(bytes, endianness()) {
            Err(e) => Err("Image load failed: "@ + e),
            Ok(img) => if scaling_fits(img, target) {
                image_conversion(img, format, target, resized)
            } else {
                Err("Image too large to resize"@)
            },
        },
    }
}

/// `resized` can be what resizing the icon of `data_url` gives, where
/// conversion resizes it (any image will do elsewhere).
pub open spec fn is_icon_resize(data_url: Seq<char>, format: Seq<char>, target: u32, resized: RasterView) -> bool {
    match decoded_icon(data_url) {
        Some(img) => scaling_fits(img, target) && resize_done(img, format, target) ==> is_resize_of(img, target, resized),
        None => true,
    }
}

/// The PNG round trip of an image: `out` is a PNG data URL that decodes to
/// `img`, or, where the encoding was too large to hold as base64, that error.
pub open spec fn reads_back_as(out: Result<Seq<char>, Seq<char>>, img: RasterView) -> bool {
    match out {
        Ok(url) => png_url_decodes_to(url, img),
        Err(e) => e == "PNG encode failed: encoded image too large"@,
    }
}

/// A PNG of `img` is written and read back whole (see `png_round_trips`).
pub open spec fn image_round_trips(img: RasterView) -> bool {
    png_round_trips(img.pixels, img.width, img.height, img.layout->0)
}

/// The view of an outcome that holds a text or a message.
pub open spec fn text_outcome(r: Result<String, String>) -> Result<Seq<char>, Seq<char>> {
    match r {
        Ok(v) => Ok(v@),
        Err(e) => Err(e@),
    }
}

/// Encodes an image in an output format, as a data URL.
pub fn encode_data_url(f: OutputFormat, img: &Raster) -> (r: Result<String, String>)
    ensures
        text_outcome(r) == encoded_data_url(f, img@),
        f == OutputFormat::Png && image_round_trips(img@) ==> reads_back_as(text_outcome(r), img@),
{
    let prefix = encode_error_prefix_of(f);
    let layout = img.layout();
    let pixels = img.pixels();
    let (w, h) = (img.width(), img.height());
    let bytes = match encode_in(f, pixels, w, h, layout) {
        Ok(bytes) => bytes,
        Err(e) => return Err(concat(prefix, e.as_str())),
    };
    if !base64_len_ok(bytes.len()) {
        proof {
            reveal_strlit("PNG encode failed: ");
            reveal_strlit("encoded image too large");
            reveal_strlit("PNG encode failed: encoded image too large");
        }
        let r = Err(concat(prefix, "encoded image too large"));
        assert(f == OutputFormat::Png ==> text_outcome(r)->Err_0 =~= "PNG encode failed: encoded image too large"@);
        return r;
    }
    let out = make_data_url(mime_type_of(f), bytes.as_slice());
    proof {
        reveal_strlit("PNG encode failed: ");
        reveal_strlit("encoded image too large");
        law_png_payload_of_png_data_url(bytes@);
    }
    Ok(out)
}

/// Converts a decoded image: encodes it as `png`, `jpg`/`jpeg` or `ico` (any
/// case), resized first to `target_size` x `target_size` (with `RESIZE_FILTER`) when
/// `target_size` is not 0 and differs from its width.
pub fn convert_image(img: &Raster, format: &str, target_size: u32) -> (r: Result<String, String>)
    requires
        scaling_fits(img@, target_size),
    ensures
        exists|resized: RasterView| #![trigger image_conversion(img@, format@, target_size, resized)]
            (resize_done(img@, format@, target_size) ==> is_resize_of(img@, target_size, resized))
                && text_outcome(r) == image_conversion(img@, format@, target_size, resized),
        output_format(format@) == Some(OutputFormat::Png) && !resize_wanted(img@, target_size) && image_round_trips(img@)
            ==> reads_back_as(text_outcome(r), img@),
{
    let ghost unchanged = img@;
    let f = match parse_output_format(format) {
        Some(f) => f,
        None => {
            let r = Err(concat("Unsupported format: ", format));
            assert(text_outcome(r) == image_conversion(img@, format@, target_size, unchanged));
            return r;
        },
    };
    if target_size > 0 && target_size != img.width() {
        let resized = resize_exact(img, target_size, target_size, RESIZE_FILTER);
        let r = encode_data_url(f, &resized);
        assert(text_outcome(r) == image_conversion(img@, format@, target_size, resized@));
        r
    } else {
        let r = encode_data_url(f, img);
        assert(text_outcome(r) == image_conversion(img@, format@, target_size, unchanged));
        r
    }
}

/// Converts an icon given as a `data:image/png;base64,` URL: the image is
/// decoded, then converted as `convert_image` does. An image whose resizing
/// would not fit in memory is refused.
pub fn convert_icon(data_url: &str, format: &str, target_size: u32) -> (r: Result<String, String>)
    ensures
        exists|resized: RasterView| #![trigger icon_conversion(data_url@, format@, target_size, resized)]
            is_icon_resize(data_url@, format@, target_size, resized)
                && text_outcome(r) == icon_conversion(data_url@, format@, target_size, resized),
        match decoded_icon(data_url@) {
            Some(img) => output_format(format@) == Some(OutputFormat::Png) && !resize_wanted(img, target_size)
                && is_png_layout(img.layout->0) && img.width > 0 && img.height > 0 ==> reads_back_as(
                text_outcome(r),
                img,
            ),
            None => true,
        },
{
    let ghost any = RasterView { layout: None, width: 0, height: 0, pixels: Seq::empty() };
    let decoded = match png_data_url_payload(data_url) {
        Ok(decoded) => decoded,
        Err(e) => {
            let r = Err(e);
            assert(text_outcome(r) == icon_conversion(data_url@, format@, target_size, any));
            return r;
        },
    };
    let img = match load_image(decoded.as_slice()) {
        Ok(img) => img,
        Err(e) => {
            let r = Err(concat("Image load failed: ", e.as_str()));
            assert(text_outcome(r) == icon_conversion(data_url@, format@, target_size, any));
            return r;
        },
    };
    let width = img.width();
    if target_size > 0 && target_size != width && !resize_fits_check(width, target_size, target_size) {
        let r = Err("Image too large to resize".to_owned());
        assert(text_outcome(r) == icon_conversion(data_url@, format@, target_size, any));
        return r;
    }
    let r = convert_image(&img, format, target_size);
    let ghost resized = choose|resized: RasterView| #![trigger image_conversion(img@, format@, target_size, resized)]
        (resize_done(img@, format@, target_size) ==> is_resize_of(img@, target_size, resized))
            && text_outcome(r) == image_conversion(img@, format@, target_size, resized);
    assert(text_outcome(r) == icon_conversion(data_url@, format@, target_size, resized));
    r
}

/// Whenever a known format is asked for with a target size that is not 0 and
/// differs from the image's width, whether larger or smaller, what conversion
/// encodes is the resized image, exactly `target` x `target`.
pub proof fn law_conversion_resizes_to_target(img: RasterView, format: Seq<char>, target: u32, resized: RasterView)
    requires
        output_format(format) is Some,
        target > 0,
        target != img.width,
        is_resize_of(img, target, resized),
    ensures
        image_conversion(img, format, target, resized) == encoded_data_url(output_format(format)->0, resized),
        resized.width == target,
        resized.height == target,
{
}

/// The same for an icon's data URL: when its image decodes and resizing it
/// fits, a conversion to another non-zero size encodes the resized
/// `target` x `target` image.
pub proof fn law_icon_conversion_resizes_to_target(data_url: Seq<char>, format: Seq<char>, target: u32, resized: RasterView)
    requires
        decoded_icon(data_url) is Some,
        output_format(format) is Some,
        target > 0,
        target != decoded_icon(data_url)->0.width,
        resize_fits(decoded_icon(data_url)->0.width, target, target),
        is_icon_resize(data_url, format, target, resized),
    ensures
        icon_conversion(data_url, format, target, resized) == encoded_data_url(output_format(format)->0, resized),
        resized.width == target,
        resized.height == target,
{
}

/// A data URL of an output format's media type saves as the bytes it carries.
proof fn lemma_saved_data_url_of_format(f: OutputFormat, bytes: Seq<u8>)
    ensures
        saved_payload(data_url_text(mime_type(f), bytes)) == Ok::<Seq<u8>, Seq<char>>(bytes),
{
    reveal_strlit("image/png");
    reveal_strlit("image/jpeg");
    reveal_strlit("image/x-icon");
    let m = mime_type(f);
    assert(!m.contains(',')) by {
        if m.contains(',') {
            let k = choose|k: int| 0 <= k < m.len() && m[k] == ',';
        }
    }
    law_saved_payload_of_data_url(m, bytes);
}

/// Saving a converted icon writes exactly the file that the format's encoder
/// made of the decoded (and, where asked, resized) image.
pub proof fn law_saved_converted_icon(data_url: Seq<char>, format: Seq<char>, target: u32, resized: RasterView)
    requires
        icon_conversion(data_url, format, target, resized) is Ok,
    ensures
        decoded_icon(data_url) is Some,
        ({
            let img = decoded_icon(data_url)->0;
            let scaled = scaled_image(img, target, resized);
            saved_payload(icon_conversion(data_url, format, target, resized)->Ok_0) == encoding_in(
                output_format(format)->0,
                scaled.pixels,
                scaled.width,
                scaled.height,
                scaled.layout->0,
            )
        }),
{
    let img = decoded_icon(data_url)->0;
    let scaled = scaled_image(img, target, resized);
    let f = output_format(format)->0;
    let bytes = encoding_in(f, scaled.pixels, scaled.width, scaled.height, scaled.layout->0)->Ok_0;
    lemma_saved_data_url_of_format(f, bytes);
}

} // verus!
