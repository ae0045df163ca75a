use icon_extractor::data_url::png_data_url_payload;
use icon_extractor::icons::{
    any_alpha, apply_mask_alpha, bgra_to_rgba, choose_shortcut_source, extract_all_icons,
    extract_icons_from_file, extract_icons_from_pe_only, extract_icons_from_shortcut,
    finish_icon_list, icon_bitmap_size, icon_from_bgra, needs_mask_alpha, IconData,
    ShortcutIconSource, ICON_LOAD_SIZES,
};

fn icon(size: u32, tag: &str) -> IconData {
    IconData { size, width: size, height: size, data_url: tag.to_string() }
}

#[test]
fn bitmap_size_color_and_mask() {
    assert_eq!(icon_bitmap_size(true, true, 32, 32), Ok((32, 32)));
    assert_eq!(icon_bitmap_size(false, true, 32, 64), Ok((32, 32)));
    assert_eq!(icon_bitmap_size(false, true, 48, 16), Ok((48, 16)));
    assert_eq!(icon_bitmap_size(true, true, 1024, 1024), Ok((1024, 1024)));
}

#[test]
fn bitmap_size_errors() {
    assert_eq!(
        icon_bitmap_size(true, false, 32, 32),
        Err("GetObjectW failed or returned invalid bitmap dimensions".to_string())
    );
    assert_eq!(icon_bitmap_size(true, true, 0, 32), Err("GetObjectW failed or returned invalid bitmap dimensions".to_string()));
    assert_eq!(icon_bitmap_size(false, true, 32, -1), Err("GetObjectW on mask bitmap failed".to_string()));
    assert_eq!(icon_bitmap_size(true, true, 2048, 16), Err("Invalid icon dimensions: 2048x16".to_string()));
    assert_eq!(icon_bitmap_size(false, true, 1025, 4000), Err("Invalid icon dimensions: 1025x1025".to_string()));
}

#[test]
fn alpha_detection_ignores_partial_pixel() {
    assert!(!any_alpha(&vec![1, 2, 3, 0, 4, 5, 6, 0, 9]));
    assert!(any_alpha(&vec![1, 2, 3, 0, 4, 5, 6, 7]));
    assert!(!any_alpha(&vec![]));
    assert!(needs_mask_alpha(true, &vec![9, 9, 9, 0]));
    assert!(!needs_mask_alpha(false, &vec![9, 9, 9, 0]));
    assert!(!needs_mask_alpha(true, &vec![9, 9, 9, 1]));
}

#[test]
fn mask_sets_alpha() {
    let mut color = vec![1, 2, 3, 0, 4, 5, 6, 0, 7, 8, 9, 0];
    let mask = vec![0, 0, 0, 0, 255, 255, 255, 255];
    apply_mask_alpha(&mut color, &mask);
    assert_eq!(color, vec![1, 2, 3, 255, 4, 5, 6, 0, 7, 8, 9, 0]);
}

#[test]
fn channel_swap_and_involution() {
    let orig = vec![1, 2, 3, 4, 5, 6, 7, 8, 9, 10];
    let mut p = orig.clone();
    bgra_to_rgba(&mut p);
    assert_eq!(p, vec![3, 2, 1, 4, 7, 6, 5, 8, 9, 10]);
    bgra_to_rgba(&mut p);
    assert_eq!(p, orig);
}

#[test]
fn icon_from_bgra_makes_png_data_url() {
    let (w, h) = (3u32, 2u32);
    let mut bgra = Vec::new();
    for i in 0..(w * h) {
        bgra.extend_from_slice(&[10, 20 + i as u8, 30, 255]);
    }
    let ic = icon_from_bgra(bgra, w, h).unwrap();
    assert_eq!((ic.size, ic.width, ic.height), (3, 3, 2));
    assert!(ic.data_url.starts_with("data:image/png;base64,"));
    let png = png_data_url_payload(&ic.data_url).unwrap();
    let decoded = image::load_from_memory(&png).unwrap();
    assert_eq!(decoded.color(), image::ColorType::Rgba8);
    let img = decoded.to_rgba8();
    assert_eq!(img.dimensions(), (3, 2));
    assert_eq!(img.get_pixel(0, 0).0, [30, 20, 10, 255]);
    assert_eq!(img.get_pixel(2, 1).0, [30, 25, 10, 255]);
}

#[test]
fn finish_keeps_first_per_size_sorted() {
    let found = vec![icon(32, "a"), icon(16, "b"), icon(32, "c"), icon(48, "d"), icon(16, "e")];
    let out = finish_icon_list(found).unwrap();
    let tags: Vec<&str> = out.iter().map(|i| i.data_url.as_str()).collect();
    assert_eq!(tags, vec!["b", "a", "d"]);
    assert_eq!(finish_icon_list(vec![]).unwrap_err(), "No icons found in the file");
}

#[test]
fn shortcut_source_choice() {
    assert_eq!(
        choose_shortcut_source(Some("c.ico".into()), true, Some("t.exe".into()), true),
        ShortcutIconSource::CustomIcon("c.ico".into())
    );
    assert_eq!(
        choose_shortcut_source(Some("".into()), true, Some("t.exe".into()), true),
        ShortcutIconSource::Target("t.exe".into())
    );
    assert_eq!(
        choose_shortcut_source(Some("c.ico".into()), false, Some("t.exe".into()), false),
        ShortcutIconSource::ShortcutItself
    );
    assert_eq!(choose_shortcut_source(None, false, None, false), ShortcutIconSource::ShortcutItself);
}

#[test]
fn extraction_entry_points_off_windows() {
    assert_eq!(extract_all_icons("C:/x/app.LNK").unwrap_err(), "Shortcut resolution is only supported on Windows");
    assert_eq!(extract_all_icons("C:/x/app.exe").unwrap_err(), "Icon extraction is only supported on Windows");
    assert_eq!(extract_all_icons(".lnk").unwrap_err(), "Icon extraction is only supported on Windows");
    assert_eq!(extract_icons_from_shortcut("a.lnk").unwrap_err(), "Shortcut resolution is only supported on Windows");
    assert_eq!(extract_icons_from_pe_only("a.exe").unwrap_err(), "Icon extraction is only supported on Windows");
    assert_eq!(extract_icons_from_file("a.ico").unwrap_err(), "Icon extraction is only supported on Windows");
}

#[test]
fn load_sizes_ascending() {
    assert_eq!(ICON_LOAD_SIZES, [16, 24, 32, 48, 64, 96, 128, 256]);
}
