use icon_extractor::text::{
    decimal_text, is_whitespace_char, lowercase_is, starts_with, trim, trim_trailing_nuls,
};

#[test]
fn trim_removes_unicode_whitespace_at_both_ends() {
    assert_eq!(trim("  example.com \t\n"), "example.com");
    assert_eq!(trim("\u{3000}\u{a0}site\u{2029}"), "site");
    assert_eq!(trim("   "), "");
    assert_eq!(trim(""), "");
    assert_eq!(trim("a b"), "a b");
}

#[test]
fn trim_agrees_with_std() {
    let samples = [
        " x ", "\u{85}y\u{1680}", "\u{200b}z\u{200b}", "\u{feff}w", "\r\n v \u{205f}", "no-space",
    ];
    for s in samples {
        assert_eq!(trim(s), s.trim(), "sample {:?}", s);
    }
}

#[test]
fn whitespace_matches_char_is_whitespace() {
    for c in ['\t', '\n', '\u{b}', '\u{c}', '\r', ' ', '\u{85}', '\u{a0}', '\u{1680}', '\u{2000}',
        '\u{200a}', '\u{2028}', '\u{2029}', '\u{202f}', '\u{205f}', '\u{3000}', 'a', '\u{200b}',
        '\u{feff}', '\u{180e}', '_'] {
        assert_eq!(is_whitespace_char(c), c.is_whitespace(), "char {:?}", c);
    }
}

#[test]
fn starts_with_prefixes() {
    assert!(starts_with("https://x", "https://"));
    assert!(!starts_with("http:/", "http://"));
    assert!(starts_with("abc", ""));
}

#[test]
fn lowercase_comparison_matches_to_lowercase() {
    for s in ["LNK", "lnk", "LnK", "ln\u{212a}", "lnkk", "ln", "ÍCO", "Ico", "\u{130}co"] {
        for lit in ["lnk", "ico"] {
            assert_eq!(lowercase_is(s, lit), s.to_lowercase() == lit, "{:?} vs {:?}", s, lit);
        }
    }
}

#[test]
fn decimal_rendering() {
    assert_eq!(decimal_text(0), "0");
    assert_eq!(decimal_text(7), "7");
    assert_eq!(decimal_text(256), "256");
    assert_eq!(decimal_text(1024), "1024");
    assert_eq!(decimal_text(u32::MAX), "4294967295");
}

#[test]
fn trailing_nuls_are_removed() {
    assert_eq!(trim_trailing_nuls("C:\\app.exe\0\0\0"), "C:\\app.exe");
    assert_eq!(trim_trailing_nuls("\0\0"), "");
    assert_eq!(trim_trailing_nuls("a\0b"), "a\0b");
}
