//! The tray icon's menu.

use vstd::prelude::*;
use crate::text::str_eq;

verus! {

/// What a tray menu entry does.
#[derive(PartialEq, Eq, Structural, Clone, Copy, Debug)]
pub enum TrayMenuAction {
    /// Leave the app.
    Quit,
    /// Show and focus the settings window.
    ShowSettings,
    /// An entry this menu does not have.
    Ignore,
}

/// The action of the menu entry with this id: `quit` or `settings`.
pub fn tray_menu_action(id: &str) -> (r: TrayMenuAction)
    ensures
        r == (if id@ == "quit"@ {
            TrayMenuAction::Quit
        } else if id@ == "settings"@ {
            TrayMenuAction::ShowSettings
        } else {
            TrayMenuAction::Ignore
        }),
{
    if str_eq(id, "quit") {
        TrayMenuAction::Quit
    } else if str_eq(id, "settings") {
        TrayMenuAction::ShowSettings
    } else {
        TrayMenuAction::Ignore
    }
}

} // verus!
