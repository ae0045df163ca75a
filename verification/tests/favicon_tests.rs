use icon_extractor::favicon::{
    favicon_candidates, favicon_from_bytes, finish_favicons, icon_links_from_html, normalize_url,
    FaviconData, ParsedUrl,
};

fn url(text: &str) -> ParsedUrl {
    normalize_url(text).unwrap()
}
use icon_extractor::data_url::png_data_url_payload;

fn fav(size: u32, source: &str) -> FaviconData {
    FaviconData { size, width: size, height: size, data_url: String::new(), source: source.to_string() }
}

fn png_bytes(w: u32, h: u32) -> Vec<u8> {
    let img = image::RgbaImage::from_pixel(w, h, image::Rgba([1, 2, 3, 255]));
    let mut out = std::io::Cursor::new(Vec::new());
    img.write_to(&mut out, image::ImageFormat::Png).unwrap();
    out.into_inner()
}

#[test]
fn normalize_adds_scheme_and_trims() {
    assert_eq!(normalize_url("  example.com ").unwrap().as_str(), "https://example.com/");
    assert_eq!(normalize_url("http://a.b/c").unwrap().as_str(), "http://a.b/c");
    assert_eq!(normalize_url("https://x.org").unwrap().as_str(), "https://x.org/");
}

#[test]
fn normalize_reports_invalid_address() {
    let e = normalize_url("http://").err().unwrap();
    assert!(e.starts_with("无效的网址: "), "{}", e);
    assert_eq!(e, format!("无效的网址: {}", url::Url::parse("http://").unwrap_err()));
}

#[test]
fn url_parsing_joining_and_domains() {
    assert_eq!(normalize_url("https://Example.COM").unwrap().as_str(), "https://example.com/");
    // The scheme test is case-sensitive, so an upper-case scheme gets `https://` in front.
    assert_eq!(normalize_url("HTTPS://Example.COM").unwrap().as_str(), "https://https//Example.COM");
    let html = r#"<link rel="icon" href="../z.png"><link rel="icon" href="http://[bad">"#;
    assert_eq!(icon_links_from_html(&url("https://a.com/x/y"), html).unwrap(), vec!["https://a.com/z.png".to_string()]);
    let c = favicon_candidates(&url("https://www.a.com/"), None);
    assert_eq!(c[0].url, "https://www.a.com/favicon.ico");
    assert_eq!(c[2].url, "https://www.google.com/s2/favicons?domain=www.a.com&sz=16");
    assert_eq!(favicon_candidates(&url("http://127.0.0.1/"), None).len(), 2);
}

#[test]
fn page_links_resolve_against_base() {
    let html = r#"<link rel="icon" href="/f.ico"><link rel="icon" href="https://cdn.x/i.png">"#;
    assert_eq!(
        icon_links_from_html(&url("https://site.org/page"), html).unwrap(),
        vec!["https://site.org/f.ico".to_string(), "https://cdn.x/i.png".to_string()]
    );
    let html2 = r#"<link href="a.png" rel="icon">"#;
    assert_eq!(icon_links_from_html(&url("https://site.org/dir/"), html2).unwrap(), vec!["https://site.org/dir/a.png".to_string()]);
    assert_eq!(icon_links_from_html(&url("https://site.org/"), "<p>none</p>"), None);
}

#[test]
fn candidates_in_order_without_repeats() {
    let links = vec!["https://a.com/favicon.ico".to_string(), "https://a.com/x.png".to_string(), "https://a.com/x.png".to_string()];
    let c = favicon_candidates(&url("https://a.com/"), Some(links));
    let got: Vec<(&str, &str)> = c.iter().map(|c| (c.url.as_str(), c.source.as_str())).collect();
    assert_eq!(
        got,
        vec![
            ("https://a.com/favicon.ico", "HTML <link>"),
            ("https://a.com/x.png", "HTML <link>"),
            ("https://a.com/favicon.png", "/favicon.png"),
            ("https://www.google.com/s2/favicons?domain=a.com&sz=16", "Google Favicon"),
            ("https://www.google.com/s2/favicons?domain=a.com&sz=32", "Google Favicon"),
            ("https://www.google.com/s2/favicons?domain=a.com&sz=64", "Google Favicon"),
            ("https://www.google.com/s2/favicons?domain=a.com&sz=128", "Google Favicon"),
            ("https://www.google.com/s2/favicons?domain=a.com&sz=256", "Google Favicon"),
        ]
    );
}

#[test]
fn candidates_for_ip_host_skip_service() {
    let c = favicon_candidates(&url("http://10.0.0.1/"), None);
    let got: Vec<&str> = c.iter().map(|c| c.url.as_str()).collect();
    assert_eq!(got, vec!["http://10.0.0.1/favicon.ico", "http://10.0.0.1/favicon.png"]);
}

#[test]
fn favicon_from_downloaded_png() {
    let f = favicon_from_bytes(&png_bytes(24, 16), "/favicon.png").unwrap();
    assert_eq!((f.size, f.width, f.height), (24, 24, 16));
    assert_eq!(f.source, "/favicon.png");
    let png = png_data_url_payload(&f.data_url).unwrap();
    let back = image::load_from_memory(&png).unwrap();
    assert_eq!((back.width(), back.height()), (24, 16));
}

#[test]
fn favicon_matches_image_crate_pipeline() {
    let bytes = png_bytes(5, 3);
    let f = favicon_from_bytes(&bytes, "HTML <link>").unwrap();
    let rgba = image::load_from_memory(&bytes).unwrap().to_rgba8();
    let mut expected = Vec::new();
    image::ImageEncoder::write_image(
        image::codecs::png::PngEncoder::new(&mut expected),
        rgba.as_raw(),
        5,
        3,
        image::ExtendedColorType::Rgba8,
    )
    .unwrap();
    assert_eq!(png_data_url_payload(&f.data_url).unwrap(), expected);
}

#[test]
fn favicon_from_bad_bytes() {
    assert!(favicon_from_bytes(&[], "x").is_none());
    assert!(favicon_from_bytes(b"<html>not an image</html>", "x").is_none());
}

#[test]
fn finishing_favicons() {
    let found = vec![fav(64, "a"), fav(16, "b"), fav(64, "c"), fav(32, "d")];
    let out = finish_favicons(&url("https://a.com/"), found).unwrap();
    let got: Vec<(u32, &str)> = out.iter().map(|f| (f.size, f.source.as_str())).collect();
    assert_eq!(got, vec![(16, "b"), (32, "d"), (64, "a")]);
    assert_eq!(finish_favicons(&url("https://a.com/"), vec![]).unwrap_err(), "未找到 https://a.com/ 的图标");
}

#[test]
fn normalizing_twice_changes_nothing() {
    for input in ["example.com", "  http://A.b/c d?e f#g h ", "https://x.org", "HTTPS://Example.COM", "例子.测试/路径"] {
        let once = normalize_url(input).unwrap();
        let twice = normalize_url(once.as_str()).unwrap();
        assert_eq!(once.as_str(), twice.as_str());
    }
}
