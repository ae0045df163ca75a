use icon_extractor::html::find_icon_hrefs;
use regex::Regex;

fn regex_hrefs(html: &str, rel_first: bool) -> Vec<String> {
    let pattern = if rel_first {
        r#"<link[^>]*rel=["'](?:shortcut )?icon["'][^>]*href=["']([^"']+)["']"#
    } else {
        r#"<link[^>]*href=["']([^"']+)["'][^>]*rel=["'](?:shortcut )?icon["']"#
    };
    let re = Regex::new(pattern).unwrap();
    re.captures_iter(html).map(|c| c[1].to_string()).collect()
}

fn check(html: &str) {
    for rel_first in [true, false] {
        assert_eq!(find_icon_hrefs(html, rel_first), regex_hrefs(html, rel_first), "html {:?} rel_first {}", html, rel_first);
    }
}

#[test]
fn rel_first_simple_links() {
    let html = r#"<head><link rel="icon" href="/favicon.ico"><link rel='shortcut icon' type='image/png' href='/a.png'></head>"#;
    assert_eq!(find_icon_hrefs(html, true), vec!["/favicon.ico".to_string(), "/a.png".to_string()]);
    check(html);
}

#[test]
fn href_first_links() {
    let html = r#"<link href="/b.png" rel="icon"><link href="/c.png" type="x" rel='shortcut icon'>"#;
    assert_eq!(find_icon_hrefs(html, true), Vec::<String>::new());
    assert_eq!(find_icon_hrefs(html, false), vec!["/b.png".to_string(), "/c.png".to_string()]);
    check(html);
}

#[test]
fn tricky_links_agree_with_regex() {
    let samples = [
        r#"<link rel="icon" href="/a" href="/b">"#,
        r#"<link rel="apple-touch-icon" href="/x">"#,
        r#"<link rel="icon" href="">"#,
        r#"<link rel="icon"><link href="/c" rel="icon">"#,
        r#"<linkrel="icon"href="/d">"#,
        r#"<link rel="icon" href="/e>f">"#,
        r#"<link rel="icon" <link rel="icon" href="/x">"#,
        r#"<link href="/p" rel="icon" href="/q" rel="icon">"#,
        r#"<link href="/p>q" x rel="icon">"#,
        r#"<link rel="icon" href="/é.png"><link rel="icon" href='/ü'>"#,
        r#"<link rel="shortcut icon' href="/m">"#,
        r#"<link rel="icon" href="/unterminated"#,
        r#"<LINK rel="icon" href="/upper">"#,
        r#"<link rel="shortcut  icon" href="/two-spaces">"#,
        "",
    ];
    for s in samples {
        check(s);
    }
}

#[test]
fn generated_pages_agree_with_regex() {
    let tokens = [
        "<link", " ", "rel=", "\"", "'", "icon", "shortcut icon", "shortcut ", "href=", "/a", ">", "x",
        "é", "rel=\"icon\"", "href=\"/z\"", "<",
    ];
    let mut state: u64 = 0x2545_f491_4f6c_dd1d;
    for _ in 0..3000 {
        let mut html = String::new();
        state = state.wrapping_mul(6364136223846793005).wrapping_add(1442695040888963407);
        let len = (state >> 33) % 24;
        for _ in 0..len {
            state = state.wrapping_mul(6364136223846793005).wrapping_add(1442695040888963407);
            html.push_str(tokens[((state >> 33) % tokens.len() as u64) as usize]);
        }
        check(&html);
    }
}
