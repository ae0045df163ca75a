use icon_extractor::paths::{extension_file_kind, has_shortcut_extension, platform_file_kind, FileKind};
use std::path::Path;

fn std_has_ext(p: &str, exts: &[&str]) -> bool {
    Path::new(p)
        .extension()
        .map(|e| {
            let e = e.to_str().unwrap_or("").to_lowercase();
            exts.iter().any(|x| *x == e)
        })
        .unwrap_or(false)
}

const SAMPLES: &[&str] = &[
    "a.lnk", "A.LNK", "dir/b.Lnk", ".lnk", "x/.lnk", "x.lnk/", "x.lnk/.", "x.lnk/..", "..", ".",
    "", "/", "lnk", "a.b.lnk", "a.lnk.txt", "a.", "/tmp/app.exe", "C:\\Users\\me\\app.EXE",
    "lib.dll", "ctl.ocx", "s.scr", "s.SCR/", "dir/.exe", "n.e\u{212a}e", "a.ln\u{212a}", "a//b.lnk//",
    "./c.lnk", "dir/./", "a/../b.exe", "no_ext", "x.exe.", "..lnk", "...lnk",
];

#[test]
fn shortcut_extension_matches_std_path() {
    for p in SAMPLES {
        assert_eq!(has_shortcut_extension(p), std_has_ext(p, &["lnk"]), "path {:?}", p);
    }
}

#[test]
fn platform_kind_follows_std_path() {
    for p in SAMPLES {
        let expected = if std_has_ext(p, &["lnk"]) {
            FileKind::Shortcut
        } else if std_has_ext(p, &["exe", "dll", "ocx", "scr"]) {
            FileKind::ExecutableImage
        } else if std_has_ext(p, &["ico"]) {
            FileKind::IconFile
        } else {
            FileKind::Other
        };
        assert_eq!(platform_file_kind(p), expected, "path {:?}", p);
    }
}

#[test]
fn extension_kinds() {
    assert_eq!(extension_file_kind(&Some("LnK".into())), FileKind::Shortcut);
    assert_eq!(extension_file_kind(&Some("Dll".into())), FileKind::ExecutableImage);
    assert_eq!(extension_file_kind(&Some("OCX".into())), FileKind::ExecutableImage);
    assert_eq!(extension_file_kind(&Some("ICO".into())), FileKind::IconFile);
    assert_eq!(extension_file_kind(&Some("ln\u{212a}".into())), FileKind::Shortcut);
    assert_eq!(extension_file_kind(&Some("png".into())), FileKind::Other);
    assert_eq!(extension_file_kind(&None), FileKind::Other);
}
