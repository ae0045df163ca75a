use icon_extractor::data_url::png_data_url_payload;
use icon_extractor::ico::ico_file_icons;
use icon_extractor::icons::{finish_icon_list, needs_shell_icons};
use icon_extractor::paths::{platform_file_kind, FileKind};

fn frame(side: u32, shade: u8) -> (image::codecs::ico::IcoFrame<'static>, image::RgbaImage) {
    let img = image::RgbaImage::from_pixel(side, side, image::Rgba([shade, 10, 20, 255]));
    let f = image::codecs::ico::IcoFrame::as_png(img.as_raw(), side, side, image::ExtendedColorType::Rgba8).unwrap();
    (f, img)
}

fn ico_file(sides: &[(u32, u8)]) -> (Vec<u8>, Vec<image::RgbaImage>) {
    let mut frames = Vec::new();
    let mut imgs = Vec::new();
    for &(side, shade) in sides {
        let (f, i) = frame(side, shade);
        frames.push(f);
        imgs.push(i);
    }
    let mut out = Vec::new();
    image::codecs::ico::IcoEncoder::new(&mut out).encode_images(&frames).unwrap();
    (out, imgs)
}

#[test]
fn every_entry_of_an_ico_file() {
    let (bytes, imgs) = ico_file(&[(32, 1), (16, 2), (48, 3)]);
    let icons = ico_file_icons(&bytes);
    let sizes: Vec<u32> = icons.iter().map(|i| i.size).collect();
    assert_eq!(sizes, vec![32, 16, 48]);
    for (icon, img) in icons.iter().zip(imgs.iter()) {
        let png = png_data_url_payload(&icon.data_url).unwrap();
        assert_eq!(&image::load_from_memory(&png).unwrap().to_rgba8(), img);
    }
    let sorted: Vec<u32> = finish_icon_list(icons).unwrap().iter().map(|i| i.size).collect();
    assert_eq!(sorted, vec![16, 32, 48]);
}

#[test]
fn ico_entries_outside_the_file_are_skipped() {
    let (mut bytes, _) = ico_file(&[(16, 1), (24, 2)]);
    // The second entry's offset now points past the end.
    let e = 6 + 16;
    bytes[e + 12..e + 16].copy_from_slice(&u32::MAX.to_le_bytes());
    let sizes: Vec<u32> = ico_file_icons(&bytes).iter().map(|i| i.size).collect();
    assert_eq!(sizes, vec![16]);
}

#[test]
fn not_an_ico_file() {
    assert!(ico_file_icons(b"").is_empty());
    assert!(ico_file_icons(&[0, 0, 2, 0, 1, 0]).is_empty());
    assert!(ico_file_icons(b"\x89PNG\r\n\x1a\n").is_empty());
    assert!(ico_file_icons(&[0, 0, 1, 0, 5, 0]).is_empty());
}

#[test]
fn ico_paths_and_shell_fallback() {
    assert_eq!(platform_file_kind("C:/icons/App.ICO"), FileKind::IconFile);
    assert_eq!(platform_file_kind("C:/icons/app.png"), FileKind::Other);
    assert_eq!(platform_file_kind(".ico"), FileKind::Other);
    assert!(needs_shell_icons(&vec![]));
    assert!(!needs_shell_icons(&ico_file_icons(&ico_file(&[(16, 1)]).0)));
}
