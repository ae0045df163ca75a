use icon_extractor::shell::{shell_action, window_icon_paths, ShellAction, ShellEvent};

#[test]
fn menu_items() {
    assert_eq!(shell_action(ShellEvent::MenuItem("quit".into())), ShellAction::Exit);
    assert_eq!(shell_action(ShellEvent::MenuItem("show".into())), ShellAction::ShowWindow);
    assert_eq!(shell_action(ShellEvent::MenuItem("about".into())), ShellAction::UnknownMenuItem("about".into()));
}

#[test]
fn tray_clicks_and_window_events() {
    assert_eq!(shell_action(ShellEvent::TrayClick { left_button: true, released: true }), ShellAction::ShowWindow);
    assert_eq!(shell_action(ShellEvent::TrayClick { left_button: true, released: false }), ShellAction::Nothing);
    assert_eq!(shell_action(ShellEvent::TrayClick { left_button: false, released: true }), ShellAction::Nothing);
    assert_eq!(
        shell_action(ShellEvent::FilesDropped(vec!["a.exe".into(), "b.exe".into()])),
        ShellAction::ReportDroppedFile("a.exe".into())
    );
    assert_eq!(shell_action(ShellEvent::FilesDropped(vec![])), ShellAction::Nothing);
    assert_eq!(shell_action(ShellEvent::CloseRequested), ShellAction::HideWindow);
    assert_eq!(shell_action(ShellEvent::Other), ShellAction::Nothing);
}

#[test]
fn icon_paths() {
    assert_eq!(
        window_icon_paths(Some("/opt/app/res".into())),
        vec!["/opt/app/res/icons/to-ico.png", "src-tauri/icons/to-ico.png", "icons/to-ico.png"]
    );
    let dot = std::path::Path::new(".").join("icons").join("to-ico.png");
    assert_eq!(window_icon_paths(None)[0], dot.to_string_lossy());
    let res = std::path::Path::new("/opt/res/").join("icons").join("to-ico.png");
    assert_eq!(window_icon_paths(Some("/opt/res/".into()))[0], res.to_string_lossy());
}
