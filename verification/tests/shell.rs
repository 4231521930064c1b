use keyviz::shell::{dock_icon_visibility, menu_action, same_text, settings_window_closing, MenuAction};

#[test]
fn tray_menu_entries() {
    assert_eq!(menu_action("toggle"), MenuAction::ToggleListener);
    assert_eq!(menu_action("settings"), MenuAction::OpenSettings);
    assert_eq!(menu_action("quit"), MenuAction::Quit);
    assert_eq!(menu_action("Quit"), MenuAction::Ignore);
    assert_eq!(menu_action(""), MenuAction::Ignore);
    assert_eq!(menu_action("toggles"), MenuAction::Ignore);
}

#[test]
fn settings_window_close() {
    assert!(settings_window_closing("settings", true));
    assert!(!settings_window_closing("settings", false));
    assert!(!settings_window_closing("main", true));
}

#[test]
fn dock_icon_default_is_shown() {
    assert!(dock_icon_visibility(None));
    assert!(dock_icon_visibility(Some(true)));
    assert!(!dock_icon_visibility(Some(false)));
}

#[test]
fn text_comparison() {
    assert!(same_text("한글", "한글"));
    assert!(!same_text("ab", "abc"));
    assert!(!same_text("abd", "abc"));
}
