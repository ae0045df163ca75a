//! The desktop shell's decisions: what a tray, menu or window event leads to,
//! and where the window icon is looked for.

use vstd::prelude::*;

verus! {

broadcast use vstd::string::group_string_axioms;

/// Something that happened in the desktop shell.
#[derive(Clone, Debug, PartialEq, Eq)]
pub enum ShellEvent {
    /// A tray menu item was chosen; the item's id.
    MenuItem(String),
    /// The tray icon was clicked.
    TrayClick { left_button: bool, released: bool },
    /// Files were dropped on the window.
    FilesDropped(Vec<String>),
    /// The user asked to close the window.
    CloseRequested,
    /// Anything else.
    Other,
}

/// What the shell does about an event.
#[derive(Clone, Debug, PartialEq, Eq)]
pub enum ShellAction {
    /// Quit the application.
    Exit,
    /// Show the main window and focus it.
    ShowWindow,
    /// Tell the page that this file was dropped.
    ReportDroppedFile(String),
    /// Keep the window open but hide it.
    HideWindow,
    /// A menu item that nothing handles; it is logged.
    UnknownMenuItem(String),
    /// Nothing to do.
    Nothing,
}

/// The action for a shell event: the `quit` item exits and the `show` item shows
/// the window; a left-button release on the tray icon shows the window; of
/// dropped files the first is reported; closing hides the window.
pub fn shell_action(event: ShellEvent) -> (r: ShellAction)
    ensures
        match event {
            ShellEvent::MenuItem(id) => if id@ == "quit"@ {
                r is Exit
            } else if id@ == "show"@ {
                r is ShowWindow
            } else {
                r matches ShellAction::UnknownMenuItem(x) && x@ == id@
            },
            ShellEvent::TrayClick { left_button, released } => if left_button && released {
                r is ShowWindow
            } else {
                r is Nothing
            },
            ShellEvent::FilesDropped(paths) => if paths@.len() > 0 {
                r matches ShellAction::ReportDroppedFile(p) && p@ == paths@[0]@
            } else {
                r is Nothing
            },
            ShellEvent::CloseRequested => r is HideWindow,
            ShellEvent::Other => r is Nothing,
        },
{
    match event {
        ShellEvent::MenuItem(id) => {
            let quit = "quit".to_owned();
            let show = "show".to_owned();
            if id == quit {
                ShellAction::Exit
            } else if id == show {
                ShellAction::ShowWindow
            } else {
                ShellAction::UnknownMenuItem(id)
            }
        },
        ShellEvent::TrayClick { left_button, released } => {
            if left_button && released {
                ShellAction::ShowWindow
            } else {
                ShellAction::Nothing
            }
        },
        ShellEvent::FilesDropped(paths) => {
            if paths.len() > 0 {
                ShellAction::ReportDroppedFile(paths[0].clone())
            } else {
                ShellAction::Nothing
            }
        },
        ShellEvent::CloseRequested => ShellAction::HideWindow,
        ShellEvent::Other => ShellAction::Nothing,
    }
}

/// `sep` is what joining may put between two paths: nothing (after a base that
/// ends in a separator, an empty base, or a bare drive), `/`, or `\` (the
/// separator on Windows).
pub open spec fn join_separator(sep: Seq<char>) -> bool {
    sep == Seq::<char>::empty() || sep == seq!['/'] || sep == seq!['\\']
}

/// `rel` is a plain relative name: non-empty, holding no separator (`/` or
/// `\`) and no `:` (so no Windows prefix) on any platform.
pub open spec fn plain_name(rel: Seq<char>) -> bool {
    rel.len() > 0 && !rel.contains('/') && !rel.contains('\\') && !rel.contains(':')
}

/// `base` has no Windows verbatim prefix (it holds no `?`) and `rel` is a
/// plain relative name.
pub open spec fn joinable(base: Seq<char>, rel: Seq<char>) -> bool {
    plain_name(rel) && !base.contains('?')
}

/// `p` is `rel` appended to `base`, with a separator joining may put in.
pub open spec fn joined_as(base: Seq<char>, rel: Seq<char>, p: Seq<char>) -> bool {
    exists|sep: Seq<char>| #![trigger join_separator(sep)] join_separator(sep) && p == base + sep + rel
}

/// Calls `std::path::Path::join`, which extends `base` with a relative `rel`:
/// `rel` is appended, after this platform's separator where `base` needs one.
/// Which separator, and whether one is needed, follow the platform's path
/// rules, so only those choices are left open. A `base` with a Windows
/// verbatim prefix (`\\?\`) is normalized when extended; a base with no `?`
/// has none.
#[verifier::external_body]
fn platform_join(base: &str, rel: &str) -> (r: String)
    ensures
        joinable(base@, rel@) ==> joined_as(base@, rel@, r@),
{
    std::path::Path::new(base).join(rel).to_string_lossy().into_owned()
}

/// The places where the window icon is looked for, after the first: two paths
/// relative to the working directory.
pub open spec fn fallback_icon_paths() -> Seq<Seq<char>> {
    seq!["src-tauri/icons/to-ico.png"@, "icons/to-ico.png"@]
}

/// The directory under which the window icon is looked for first: the
/// application's resource directory, or `.` when it is unknown.
pub open spec fn icon_base_dir(resource_dir: Option<String>) -> Seq<char> {
    match resource_dir {
        Some(d) => d@,
        None => "."@,
    }
}

/// `p` is `dir` joined with `icons` and then `to-ico.png`, with the separators
/// joining puts in.
pub open spec fn is_icon_path_under(dir: Seq<char>, p: Seq<char>) -> bool {
    exists|s1: Seq<char>, s2: Seq<char>| #![trigger join_separator(s1), join_separator(s2)]
        join_separator(s1) && join_separator(s2) && p == dir + s1 + "icons"@ + s2 + "to-ico.png"@
}

/// The places where the window icon is looked for, in order: `icons/to-ico.png`
/// joined, by this platform's path rules, to the application's resource
/// directory (or `.` when it is unknown), then two paths relative to the
/// working directory.
pub fn window_icon_paths(resource_dir: Option<String>) -> (r: Vec<String>)
    ensures
        r@.len() == 3,
        !icon_base_dir(resource_dir).contains('?') ==> is_icon_path_under(icon_base_dir(resource_dir), r@[0]@),
        r@[1]@ == fallback_icon_paths()[0],
        r@[2]@ == fallback_icon_paths()[1],
{
    let dir = match resource_dir {
        Some(d) => d,
        None => ".".to_owned(),
    };
    proof {
        reveal_strlit(".");
        reveal_strlit("icons");
        reveal_strlit("to-ico.png");
    }
    let icons = platform_join(dir.as_str(), "icons");
    let first = platform_join(icons.as_str(), "to-ico.png");
    proof {
        if !dir@.contains('?') {
            let s1 = choose|sep: Seq<char>| #![trigger join_separator(sep)]
                join_separator(sep) && icons@ == dir@ + sep + "icons"@;
            assert(!icons@.contains('?')) by {
                if icons@.contains('?') {
                    let k = choose|k: int| 0 <= k < icons@.len() && icons@[k] == '?';
                    if k < dir@.len() {
                        assert(dir@[k] == icons@[k]);
                    } else if k < dir@.len() + s1.len() {
                        assert(s1[k - dir@.len()] == icons@[k]);
                    } else {
                        assert("icons"@[k - dir@.len() - s1.len()] == icons@[k]);
                    }
                }
            }
            let s2 = choose|sep: Seq<char>| #![trigger join_separator(sep)]
                join_separator(sep) && first@ == icons@ + sep + "to-ico.png"@;
            assert(first@ == dir@ + s1 + "icons"@ + s2 + "to-ico.png"@);
            assert(join_separator(s1) && join_separator(s2));
        }
    }
    let mut r: Vec<String> = Vec::new();
    r.push(first);
    r.push("src-tauri/icons/to-ico.png".to_owned());
    r.push("icons/to-ico.png".to_owned());
    r
}

} // verus!
