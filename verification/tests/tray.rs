use luminaire::icon::{render_lightbulb_icon, to_argb32, ICON_SIZE};
use luminaire::tray::{
    linux_tray_menu, render_tray_icon, show_hide_label, tooltip_title, tray_pixmap, Theme,
    TrayAction, TrayMenuItem, TraySharedState,
};

#[test]
fn tooltip_and_labels() {
    assert_eq!(tooltip_title(true), "Key Light Control - On");
    assert_eq!(tooltip_title(false), "Key Light Control");
    assert_eq!(show_hide_label(true), "Hide Window");
    assert_eq!(show_hide_label(false), "Show Window");
}

#[test]
fn shared_state_default() {
    let s = TraySharedState::default();
    assert!(!s.light_on);
    assert!(!s.connected);
}

#[test]
fn icons_follow_theme() {
    assert_eq!(render_tray_icon(false, Theme::Dark), render_lightbulb_icon(false, true));
    assert_eq!(render_tray_icon(true, Theme::Light), render_lightbulb_icon(true, false));
    let rgba = render_lightbulb_icon(true, false);
    assert_eq!(tray_pixmap(true), to_argb32(&rgba, ICON_SIZE, ICON_SIZE));
}

#[test]
fn linux_menu_layout() {
    let menu = linux_tray_menu(false, true);
    assert_eq!(menu.len(), 6);
    match &menu[0] {
        TrayMenuItem::Standard { label, enabled, action } => {
            assert_eq!(label, "Light On");
            assert!(!enabled);
            assert_eq!(*action, TrayAction::LightOn);
        }
        TrayMenuItem::Separator => panic!("expected an item"),
    }
    assert!(matches!(menu[2], TrayMenuItem::Separator));
    match &menu[3] {
        TrayMenuItem::Standard { label, enabled, action } => {
            assert_eq!(label, "Hide Window");
            assert!(*enabled);
            assert_eq!(*action, TrayAction::ToggleWindow);
        }
        TrayMenuItem::Separator => panic!("expected an item"),
    }
    match &menu[5] {
        TrayMenuItem::Standard { label, action, .. } => {
            assert_eq!(label, "Exit");
            assert_eq!(*action, TrayAction::Exit);
        }
        TrayMenuItem::Separator => panic!("expected an item"),
    }
    let menu = linux_tray_menu(true, false);
    assert!(matches!(&menu[1], TrayMenuItem::Standard { enabled: true, action: TrayAction::LightOff, .. }));
}
