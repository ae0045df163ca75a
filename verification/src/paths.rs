//! File-name extensions. The functions over a path's text read it the way
//! `std::path::Path::extension` reads it on a platform whose only separator is
//! `/` (every platform but Windows); `platform_file_kind` asks this platform's
//! own `std::path` rules, whatever they are.

use vstd::prelude::*;
use crate::text::{chars_of, is_lower_ascii_word, lowercase_equals, lowercase_is, lowercase_range_equals};

verus! {

broadcast use vstd::string::group_string_axioms;

/// Start of the path component that ends at `j`: just after the last `/` before `j`.
pub open spec fn component_start(s: Seq<char>, j: int) -> int
    decreases j,
{
    if j > 0 && s[j - 1] != '/' {
        component_start(s, j - 1)
    } else {
        j
    }
}

pub proof fn lemma_component_start(s: Seq<char>, j: int)
    requires
        0 <= j <= s.len(),
    ensures
        0 <= component_start(s, j) <= j,
        j > 0 && s[j - 1] != '/' ==> component_start(s, j) < j,
        component_start(s, j) > 0 ==> s[component_start(s, j) - 1] == '/',
        forall|k: int| component_start(s, j) <= k < j ==> s[k] != '/',
    decreases j,
{
    if j > 0 && s[j - 1] != '/' {
        lemma_component_start(s, j - 1);
    }
}

/// The last component of the path `s[0..j]` as a range `(start, end)`, skipping
/// trailing separators and `.` components; `None` when no component is left.
pub open spec fn last_component(s: Seq<char>, j: int) -> Option<(int, int)>
    decreases j,
{
    if j <= 0 || j > s.len() {
        None
    } else if s[j - 1] == '/' {
        last_component(s, j - 1)
    } else {
        let i = component_start(s, j);
        proof {
            lemma_component_start(s, j);
        }
        if s.subrange(i, j) == seq!['.'] {
            last_component(s, i)
        } else {
            Some((i, j))
        }
    }
}

/// Index of the last `.` in `s[i..j]`, or `i - 1` when there is none.
pub open spec fn last_dot(s: Seq<char>, i: int, j: int) -> int
    decreases j - i,
{
    if j <= i {
        i - 1
    } else if s[j - 1] == '.' {
        j - 1
    } else {
        last_dot(s, i, j - 1)
    }
}

/// The extension of the path `s`: the text after the final `.` of its file name.
/// There is none when there is no file name (or it is `..`), when the name holds
/// no `.`, or when its only `.` is its first character.
pub open spec fn file_extension(s: Seq<char>) -> Option<Seq<char>> {
    match last_component(s, s.len() as int) {
        None => None,
        Some((i, j)) => {
            let d = last_dot(s, i, j);
            if s.subrange(i, j) == seq!['.', '.'] || d <= i {
                None
            } else {
                Some(s.subrange(d + 1, j))
            }
        },
    }
}

/// The path names a Windows shortcut: its extension, lowercased, is `lnk`.
pub open spec fn is_shortcut_path(s: Seq<char>) -> bool {
    match file_extension(s) {
        Some(e) => lowercase_equals(e, "lnk"@),
        None => false,
    }
}

/// The range of the extension of the path held in `v`.
fn extension_range(v: &Vec<char>) -> (r: Option<(usize, usize)>)
    ensures
        match r {
            Some((a, b)) => a <= b <= v@.len() && file_extension(v@) == Some(
                v@.subrange(a as int, b as int),
            ),
            None => file_extension(v@) is None,
        },
{
    let n = v.len();
    let mut j: usize = n;
    // Walk back over separators and `.` components to the last real component.
    loop
        invariant
            n == v@.len(),
            j <= n,
            last_component(v@, j as int) == last_component(v@, n as int),
        decreases j,
    {
        if j == 0 {
            return None;
        }
        if v[j - 1] == '/' {
            j = j - 1;
        } else {
            let mut i: usize = j - 1;
            proof {
                lemma_component_start(v@, j as int);
            }
            while i > 0 && v[i - 1] != '/'
                invariant
                    n == v@.len(),
                    0 <= i < j <= n,
                    v@[j - 1] != '/',
                    component_start(v@, i as int) == component_start(v@, j as int),
                decreases i,
            {
                i = i - 1;
            }
            if j - i == 1 && v[i] == '.' {
                assert(v@.subrange(i as int, j as int) =~= seq!['.']);
                j = i;
            } else {
                assert(v@.subrange(i as int, j as int) != seq!['.']) by {
                    let sub = v@.subrange(i as int, j as int);
                    if sub == seq!['.'] {
                        assert(sub.len() == 1);
                        assert(sub[0] == v@[i as int]);
                        assert(seq!['.'][0] == '.');
                    }
                }
                assert(last_component(v@, j as int) == Some((i as int, j as int)));
                // `..` has no extension.
                if j - i == 2 && v[i] == '.' && v[i + 1] == '.' {
                    assert(v@.subrange(i as int, j as int) =~= seq!['.', '.']);
                    return None;
                }
                assert(v@.subrange(i as int, j as int) != seq!['.', '.']) by {
                    let sub = v@.subrange(i as int, j as int);
                    if sub == seq!['.', '.'] {
                        assert(sub.len() == 2);
                        assert(sub[0] == v@[i as int]);
                        assert(sub[1] == v@[i + 1]);
                        assert(seq!['.', '.'][0] == '.');
                        assert(seq!['.', '.'][1] == '.');
                    }
                }
                let mut d: usize = j;
                while d > i && v[d - 1] != '.'
                    invariant
                        n == v@.len(),
                        i <= d <= j <= n,
                        last_dot(v@, i as int, d as int) == last_dot(v@, i as int, j as int),
                    decreases d,
                {
                    d = d - 1;
                }
                // `d - 1` is the last dot, or there is none when `d == i`.
                if d <= i + 1 {
                    return None;
                }
                return Some((d, j));
            }
        }
    }
}

/// Whether the path names a Windows shortcut (`.lnk`, in any case).
pub fn has_shortcut_extension(path: &str) -> (r: bool)
    ensures
        r == is_shortcut_path(path@),
{
    let v = chars_of(path);
    proof {
        reveal_strlit("lnk");
    }
    match extension_range(&v) {
        Some((a, b)) => lowercase_range_equals(&v, a, b, "lnk"),
        None => false,
    }
}

/// The kind of file an extension names.
#[derive(Clone, Copy, Debug, PartialEq, Eq, Structural)]
pub enum FileKind {
    /// A Windows shortcut: `lnk`.
    Shortcut,
    /// A Windows executable image: `exe`, `dll`, `ocx` or `scr`.
    ExecutableImage,
    /// An icon file: `ico`.
    IconFile,
    /// Anything else, or no extension.
    Other,
}

/// The kind of file an extension names, compared case-insensitively.
pub open spec fn file_kind_of(ext: Option<Seq<char>>) -> FileKind {
    match ext {
        None => FileKind::Other,
        Some(e) => if lowercase_equals(e, "lnk"@) {
            FileKind::Shortcut
        } else if lowercase_equals(e, "exe"@) || lowercase_equals(e, "dll"@) || lowercase_equals(e, "ocx"@)
            || lowercase_equals(e, "scr"@) {
            FileKind::ExecutableImage
        } else if lowercase_equals(e, "ico"@) {
            FileKind::IconFile
        } else {
            FileKind::Other
        },
    }
}

/// The view of an optional text.
pub open spec fn opt_text(e: Option<String>) -> Option<Seq<char>> {
    match e {
        Some(t) => Some(t@),
        None => None,
    }
}

/// The kind of file an extension (as `std::path::Path::extension` gives it) names.
pub fn extension_file_kind(ext: &Option<String>) -> (r: FileKind)
    ensures
        r == file_kind_of(opt_text(*ext)),
{
    proof {
        reveal_strlit("lnk");
        reveal_strlit("exe");
        reveal_strlit("dll");
        reveal_strlit("ocx");
        reveal_strlit("scr");
        reveal_strlit("ico");
    }
    match ext {
        None => FileKind::Other,
        Some(e) => {
            let e = e.as_str();
            if lowercase_is(e, "lnk") {
                FileKind::Shortcut
            } else if lowercase_is(e, "exe") || lowercase_is(e, "dll") || lowercase_is(e, "ocx") || lowercase_is(e, "scr") {
                FileKind::ExecutableImage
            } else if lowercase_is(e, "ico") {
                FileKind::IconFile
            } else {
                FileKind::Other
            }
        },
    }
}

/// The path reads the same under every platform's path rules: it holds no
/// `\` (a separator on Windows), no `:` (which starts a Windows drive prefix),
/// and does not start with `//` (a Windows UNC or device prefix).
pub open spec fn portable_path(s: Seq<char>) -> bool {
    !s.contains('\\') && !s.contains(':') && !(s.len() >= 2 && s[0] == '/' && s[1] == '/')
}

/// Calls `std::path::Path::extension` on `path`. Which extension comes back
/// depends on the platform's path rules (on Windows `\` separates too, and
/// drive and UNC prefixes are read). What holds on every platform is stated: as
/// its documentation says, an extension is the part of the file name after its
/// final `.`, so it holds no `.`; and a portable path, whose only separator is
/// `/` and which has no prefix on any platform, gets the extension of its last
/// component as `file_extension` reads it (repeated separators and `.`
/// components are skipped, `..` has no file name).
#[verifier::external_body]
fn platform_extension(path: &str) -> (r: Option<String>)
    ensures
        r matches Some(e) ==> !e@.contains('.'),
        portable_path(path@) ==> opt_text(r) == file_extension(path@),
{
    std::path::Path::new(path).extension().map(|e| e.to_string_lossy().into_owned())
}

/// The kind of file `path` names, by the extension this platform's
/// `std::path` rules give it; for a portable path, by `file_extension`.
pub fn platform_file_kind(path: &str) -> (r: FileKind)
    ensures
        exists|ext: Option<Seq<char>>| #![trigger file_kind_of(ext)]
            (ext matches Some(e) ==> !e.contains('.')) && r == file_kind_of(ext),
        portable_path(path@) ==> r == file_kind_of(file_extension(path@)),
{
    let ext = platform_extension(path);
    extension_file_kind(&ext)
}

} // verus!
