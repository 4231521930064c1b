use vstd::prelude::*;

verus! {

/// What a click on an entry of the tray menu asks for.
#[derive(Clone, Copy, Debug, PartialEq, Eq, Structural)]
pub enum MenuAction {
    /// Switch the input listener on or off.
    ToggleListener,
    /// Open (or bring forward) the settings window.
    OpenSettings,
    /// Quit the application.
    Quit,
    /// Nothing.
    Ignore,
}

/// The action of the tray menu entry with the given identifier.
pub open spec fn menu_action_of(id: Seq<char>) -> MenuAction {
    if id == "toggle"@ {
        MenuAction::ToggleListener
    } else if id == "settings"@ {
        MenuAction::OpenSettings
    } else if id == "quit"@ {
        MenuAction::Quit
    } else {
        MenuAction::Ignore
    }
}

/// Whether two strings hold the same characters.
pub fn same_text(a: &str, b: &str) -> (same: bool)
    ensures
        same == (a@ == b@),
{
    let len = a.unicode_len();
    if len != b.unicode_len() {
        return false;
    }
    let mut i: usize = 0;
    while i < len
        invariant
            len == a@.len(),
            len == b@.len(),
            i <= len,
            forall|j: int| 0 <= j < i ==> a@[j] == b@[j],
        decreases len - i,
    {
        if a.get_char(i) != b.get_char(i) {
            return false;
        }
        i = i + 1;
    }
    assert(a@ =~= b@);
    true
}

/// The action that a click on the tray menu entry `id` asks for.
pub fn menu_action(id: &str) -> (action: MenuAction)
    ensures
        action == menu_action_of(id@),
{
    if same_text(id, "toggle") {
        MenuAction::ToggleListener
    } else if same_text(id, "settings") {
        MenuAction::OpenSettings
    } else if same_text(id, "quit") {
        MenuAction::Quit
    } else {
        MenuAction::Ignore
    }
}

/// Whether a window event tells that the settings window is being closed:
/// a close request on the window labelled `settings`.
pub fn settings_window_closing(label: &str, close_requested: bool) -> (closing: bool)
    ensures
        closing == (label@ == "settings"@ && close_requested),
{
    close_requested && same_text(label, "settings")
}

/// Whether the dock icon is shown, from the stored setting: the stored
/// value where one is stored as a boolean, and shown otherwise.
pub fn dock_icon_visibility(stored: Option<bool>) -> (visible: bool)
    ensures
        visible == match stored {
            Some(v) => v,
            None => true,
        },
{
    match stored {
        Some(v) => v,
        None => true,
    }
}

} // verus!
