//! The desktop shell's own decisions: the tray menu, and whether the app
//! starts hidden.

use vstd::prelude::*;
use crate::text;

verus! {

/// Label of the tray item that shows or hides the main window.
pub const TRAY_SHOW_LABEL: &'static str = "Mostrar / ocultar Jarvis";

/// Label of the (disabled) tray item that shows the backend's health.
pub const TRAY_HEALTH_LABEL: &'static str = "Health: starting...";

/// Label of the tray item that quits the app.
pub const TRAY_QUIT_LABEL: &'static str = "Salir de Jarvis";

/// The command-line flag autostart launches the app with.
pub const HIDDEN_FLAG: &'static str = "--hidden";

/// What a tray menu click does.
#[derive(Clone, Copy, Debug, PartialEq, Eq, Structural)]
pub enum TrayAction {
    HideWindow,
    RevealWindow,
    /// Stop every child process, then exit.
    Quit,
    Nothing,
}

/// The tray's answer to a click on the item `id`, given whether the main
/// window exists and is visible (`None` when there is no main window):
/// `show` toggles the main window, `quit` quits, anything else does nothing.
pub open spec fn tray_menu_spec(id: Seq<char>, main_window_visible: Option<bool>) -> TrayAction {
    if id == "show"@ {
        match main_window_visible {
            Some(true) => TrayAction::HideWindow,
            Some(false) => TrayAction::RevealWindow,
            None => TrayAction::Nothing,
        }
    } else if id == "quit"@ {
        TrayAction::Quit
    } else {
        TrayAction::Nothing
    }
}

/// What a click on the tray item `id` does.
pub fn tray_menu_action(id: &str, main_window_visible: Option<bool>) -> (a: TrayAction)
    ensures
        a == tray_menu_spec(id@, main_window_visible),
{
    if text::text_eq(id, "show") {
        match main_window_visible {
            Some(true) => TrayAction::HideWindow,
            Some(false) => TrayAction::RevealWindow,
            None => TrayAction::Nothing,
        }
    } else if text::text_eq(id, "quit") {
        TrayAction::Quit
    } else {
        TrayAction::Nothing
    }
}

/// Whether the app was launched with `--hidden` (by autostart), in which
/// case the main window starts hidden.
pub fn launched_hidden(args: &Vec<String>) -> (b: bool)
    ensures
        b == exists|i: int| 0 <= i < args@.len() && (#[trigger] args@[i])@ == HIDDEN_FLAG@,
{
    let mut i: usize = 0;
    while i < args.len()
        invariant
            i <= args.len(),
            forall|j: int| 0 <= j < i ==> (#[trigger] args@[j])@ != HIDDEN_FLAG@,
        decreases args.len() - i,
    {
        if text::text_eq(args[i].as_str(), HIDDEN_FLAG) {
            return true;
        }
        i = i + 1;
    }
    false
}

} // verus!
