use spotifast::window::{fills_the_screen, macos_double_click_action, MacosDoubleClickAction};

#[test]
fn macos_titlebar_preferences_map_to_native_actions() {
    for (preference, action) in [
        (Some("Minimize"), MacosDoubleClickAction::Minimize),
        (Some("None"), MacosDoubleClickAction::Ignore),
        (Some("Maximize"), MacosDoubleClickAction::Fill),
        (Some("Fill"), MacosDoubleClickAction::Fill),
        (Some("Zoom"), MacosDoubleClickAction::Zoom),
        (None, MacosDoubleClickAction::Zoom),
        (Some("FutureAction"), MacosDoubleClickAction::Ignore),
    ] {
        assert_eq!(macos_double_click_action(preference), action);
    }
}

#[test]
fn only_a_maximized_or_full_screen_window_fills_the_screen() {
    assert!(fills_the_screen(Some(true), Some(false)));
    assert!(fills_the_screen(Some(false), Some(true)));
    assert!(!fills_the_screen(Some(false), Some(false)));
    assert!(!fills_the_screen(None, None));
}
