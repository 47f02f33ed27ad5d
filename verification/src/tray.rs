//! What the tray (Linux) or menu-bar (macOS) item shows: icon, tooltip and menu.

use vstd::prelude::*;
use vstd::string::*;
use crate::icon::{ICON_SIZE, channel, icon_pixel, pixel_x, pixel_y, argb_source, render_lightbulb_icon, to_argb32};

verus! {

/// Current theme tracking for icon rendering.
#[derive(Debug, Clone, Copy, PartialEq, Eq, Structural)]
pub enum Theme {
    Light,
    Dark,
}

/// State shared between the tray and the rest of the application.
#[derive(Debug, Clone)]
pub struct TraySharedState {
    pub light_on: bool,
    pub connected: bool,
}

impl Default for TraySharedState {
    fn default() -> (r: Self)
        ensures
            !r.light_on,
            !r.connected,
    {
        TraySharedState { light_on: false, connected: false }
    }
}

/// The tooltip's title: "Key Light Control - On" while the light is on,
/// "Key Light Control" otherwise.
pub fn tooltip_title(light_on: bool) -> (r: String)
    ensures
        r@ == if light_on {
            "Key Light Control - On"@
        } else {
            "Key Light Control"@
        },
{
    if light_on {
        String::from_str("Key Light Control - On")
    } else {
        String::from_str("Key Light Control")
    }
}

/// The label of the window item: "Hide Window" while the window is visible,
/// "Show Window" otherwise.
pub fn show_hide_label(window_visible: bool) -> (r: String)
    ensures
        r@ == if window_visible {
            "Hide Window"@
        } else {
            "Show Window"@
        },
{
    if window_visible {
        String::from_str("Hide Window")
    } else {
        String::from_str("Show Window")
    }
}

/// The menu-bar icon (RGBA) for the light's state and the system appearance.
pub fn render_tray_icon(light_on: bool, theme: Theme) -> (rgba: Vec<u8>)
    ensures
        rgba@.len() == ICON_SIZE * ICON_SIZE * 4,
        forall|k: int|
            0 <= k < rgba@.len() ==> #[trigger] rgba@[k] == channel(
                icon_pixel(light_on, theme == Theme::Dark, pixel_x(k), pixel_y(k)),
                k % 4,
            ),
{
    render_lightbulb_icon(light_on, theme == Theme::Dark)
}

/// The Linux tray pixmap (ARGB32) for the light's state, light appearance.
pub fn tray_pixmap(light_on: bool) -> (argb: Vec<u8>)
    ensures
        argb@.len() == ICON_SIZE * ICON_SIZE * 4,
        forall|k: int|
            0 <= k < argb@.len() ==> #[trigger] argb@[k] == channel(
                icon_pixel(light_on, false, pixel_x(argb_source(k)), pixel_y(argb_source(k))),
                argb_source(k) % 4,
            ),
{
    let rgba = render_lightbulb_icon(light_on, false);
    let argb = to_argb32(rgba.as_slice(), ICON_SIZE, ICON_SIZE);
    assert forall|k: int| 0 <= k < argb@.len() implies #[trigger] argb@[k] == channel(
        icon_pixel(light_on, false, pixel_x(argb_source(k)), pixel_y(argb_source(k))),
        argb_source(k) % 4,
    ) by {
        assert(0 <= argb_source(k) < 4096);
    }
    argb
}

/// What a tray menu item does.
#[derive(Debug, Clone, Copy, PartialEq, Eq, Structural)]
pub enum TrayAction {
    LightOn,
    LightOff,
    ToggleWindow,
    Exit,
}

/// An entry of the tray menu.
#[derive(Debug, Clone)]
pub enum TrayMenuItem {
    Standard { label: String, enabled: bool, action: TrayAction },
    Separator,
}

/// Whether `item` is a standard item with this label, enabled state and action.
pub open spec fn is_item(item: TrayMenuItem, label: Seq<char>, enabled: bool, action: TrayAction) -> bool {
    item matches TrayMenuItem::Standard { label: l, enabled: e, action: a } && l@ == label && e
        == enabled && a == action
}

/// The Linux tray menu: "Light On" and "Light Off" (enabled only while
/// connected), a separator, "Show Window"/"Hide Window", a separator, "Exit".
pub fn linux_tray_menu(connected: bool, window_visible: bool) -> (r: Vec<TrayMenuItem>)
    ensures
        r@.len() == 6,
        is_item(r@[0], "Light On"@, connected, TrayAction::LightOn),
        is_item(r@[1], "Light Off"@, connected, TrayAction::LightOff),
        r@[2] is Separator,
        is_item(
            r@[3],
            if window_visible {
                "Hide Window"@
            } else {
                "Show Window"@
            },
            true,
            TrayAction::ToggleWindow,
        ),
        r@[4] is Separator,
        is_item(r@[5], "Exit"@, true, TrayAction::Exit),
{
    let mut items: Vec<TrayMenuItem> = Vec::new();
    items.push(
        TrayMenuItem::Standard {
            label: String::from_str("Light On"),
            enabled: connected,
            action: TrayAction::LightOn,
        },
    );
    items.push(
        TrayMenuItem::Standard {
            label: String::from_str("Light Off"),
            enabled: connected,
            action: TrayAction::LightOff,
        },
    );
    items.push(TrayMenuItem::Separator);
    items.push(
        TrayMenuItem::Standard {
            label: show_hide_label(window_visible),
            enabled: true,
            action: TrayAction::ToggleWindow,
        },
    );
    items.push(TrayMenuItem::Separator);
    items.push(
        TrayMenuItem::Standard {
            label: String::from_str("Exit"),
            enabled: true,
            action: TrayAction::Exit,
        },
    );
    items
}

} // verus!
