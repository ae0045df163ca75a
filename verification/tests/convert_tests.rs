use icon_extractor::convert::{convert_icon, parse_output_format, OutputFormat};
use icon_extractor::data_url::{data_url_payload, make_data_url};

fn png_data_url(w: u32, h: u32) -> String {
    let img = image::RgbaImage::from_pixel(w, h, image::Rgba([200, 100, 50, 255]));
    let mut out = std::io::Cursor::new(Vec::new());
    img.write_to(&mut out, image::ImageFormat::Png).unwrap();
    make_data_url("image/png", &out.into_inner())
}

#[test]
fn format_names() {
    assert_eq!(parse_output_format("PNG"), Some(OutputFormat::Png));
    assert_eq!(parse_output_format("Jpg"), Some(OutputFormat::Jpeg));
    assert_eq!(parse_output_format("jpeg"), Some(OutputFormat::Jpeg));
    assert_eq!(parse_output_format("ICO"), Some(OutputFormat::Ico));
    assert_eq!(parse_output_format("gif"), None);
}

#[test]
fn convert_to_png_with_resize() {
    let out = convert_icon(&png_data_url(32, 32), "png", 16).unwrap();
    assert!(out.starts_with("data:image/png;base64,"));
    let bytes = data_url_payload(&out).unwrap();
    let img = image::load_from_memory(&bytes).unwrap();
    assert_eq!((img.width(), img.height()), (16, 16));
}

#[test]
fn convert_keeps_size_when_target_zero_or_equal() {
    for target in [0u32, 20] {
        let out = convert_icon(&png_data_url(20, 20), "PNG", target).unwrap();
        let img = image::load_from_memory(&data_url_payload(&out).unwrap()).unwrap();
        assert_eq!((img.width(), img.height()), (20, 20));
    }
}

#[test]
fn convert_to_ico() {
    let out = convert_icon(&png_data_url(48, 48), "ico", 32).unwrap();
    assert!(out.starts_with("data:image/x-icon;base64,"));
    let bytes = data_url_payload(&out).unwrap();
    let img = image::load_from_memory_with_format(&bytes, image::ImageFormat::Ico).unwrap();
    assert_eq!((img.width(), img.height()), (32, 32));
}

#[test]
fn convert_to_jpeg_of_rgba_fails_in_encoder() {
    let e = convert_icon(&png_data_url(8, 8), "jpg", 0).unwrap_err();
    assert!(e.starts_with("JPEG encode failed: "), "{}", e);
}

#[test]
fn convert_rgb_to_jpeg() {
    let img = image::RgbImage::from_pixel(8, 8, image::Rgb([1, 2, 3]));
    let mut out = std::io::Cursor::new(Vec::new());
    img.write_to(&mut out, image::ImageFormat::Png).unwrap();
    let url = make_data_url("image/png", &out.into_inner());
    let res = convert_icon(&url, "JPEG", 0).unwrap();
    assert!(res.starts_with("data:image/jpeg;base64,"));
    let back = image::load_from_memory(&data_url_payload(&res).unwrap()).unwrap();
    assert_eq!((back.width(), back.height()), (8, 8));
}

#[test]
fn convert_errors() {
    assert_eq!(convert_icon("data:image/jpeg;base64,AAAA", "png", 0).unwrap_err(), "Invalid data URL format");
    assert!(convert_icon("data:image/png;base64,%%%", "png", 0).unwrap_err().starts_with("Base64 decode failed: "));
    assert!(convert_icon("data:image/png;base64,TWFu", "png", 0).unwrap_err().starts_with("Image load failed: "));
    assert_eq!(convert_icon(&png_data_url(4, 4), "gif", 0).unwrap_err(), "Unsupported format: gif");
    assert_eq!(convert_icon(&png_data_url(4, 4), "Bmp", 2).unwrap_err(), "Unsupported format: Bmp");
}

#[test]
fn convert_refuses_unaddressable_resize() {
    assert_eq!(convert_icon(&png_data_url(4, 4), "png", u32::MAX).unwrap_err(), "Image too large to resize");
}

#[test]
fn convert_matches_image_crate_pipeline() {
    let url = png_data_url(40, 30);
    let out = convert_icon(&url, "png", 12).unwrap();
    let src = image::load_from_memory(&data_url_payload(&url).unwrap()).unwrap();
    let resized = src.resize_exact(12, 12, image::imageops::FilterType::Lanczos3);
    let mut expected = Vec::new();
    image::ImageEncoder::write_image(
        image::codecs::png::PngEncoder::new(&mut expected),
        resized.as_bytes(),
        12,
        12,
        resized.color().into(),
    )
    .unwrap();
    assert_eq!(data_url_payload(&out).unwrap(), expected);
}

#[test]
fn convert_sixteen_bit_png() {
    let img = image::ImageBuffer::<image::Rgba<u16>, Vec<u16>>::from_pixel(6, 6, image::Rgba([1000, 20000, 300, 65535]));
    let mut out = std::io::Cursor::new(Vec::new());
    image::DynamicImage::ImageRgba16(img).write_to(&mut out, image::ImageFormat::Png).unwrap();
    let url = make_data_url("image/png", &out.into_inner());
    let res = convert_icon(&url, "png", 3).unwrap();
    let back = image::load_from_memory(&data_url_payload(&res).unwrap()).unwrap();
    assert_eq!((back.width(), back.height(), back.color()), (3, 3, image::ColorType::Rgba16));
    assert!(convert_icon(&url, "jpeg", 0).unwrap_err().starts_with("JPEG encode failed: "));
}

#[test]
fn png_to_png_at_own_size_gives_back_the_image() {
    let img = image::RgbaImage::from_fn(7, 5, |x, y| image::Rgba([x as u8 * 30, y as u8 * 40, 9, 200 + x as u8]));
    let mut out = std::io::Cursor::new(Vec::new());
    img.write_to(&mut out, image::ImageFormat::Png).unwrap();
    let url = make_data_url("image/png", &out.into_inner());
    for target in [0u32, 7] {
        let res = convert_icon(&url, "png", target).unwrap();
        assert!(res.starts_with("data:image/png;base64,"));
        let back = image::load_from_memory(&data_url_payload(&res).unwrap()).unwrap();
        assert_eq!(back.color(), image::ColorType::Rgba8);
        assert_eq!(back.to_rgba8(), img);
    }
}

#[test]
fn jpeg_output_uses_quality_ninety() {
    let img = image::RgbImage::from_fn(16, 16, |x, y| image::Rgb([x as u8 * 16, y as u8 * 16, 128]));
    let mut out = std::io::Cursor::new(Vec::new());
    img.write_to(&mut out, image::ImageFormat::Png).unwrap();
    let url = make_data_url("image/png", &out.into_inner());
    let res = convert_icon(&url, "jpg", 0).unwrap();
    let mut expected = Vec::new();
    image::ImageEncoder::write_image(
        image::codecs::jpeg::JpegEncoder::new_with_quality(&mut expected, 90),
        img.as_raw(),
        16,
        16,
        image::ExtendedColorType::Rgb8,
    )
    .unwrap();
    assert_eq!(data_url_payload(&res).unwrap(), expected);
}
