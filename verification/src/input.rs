use vstd::prelude::*;

verus! {

/// A mouse button as the overlay shows it.
#[derive(Clone, Copy, Debug, PartialEq, Eq, Structural)]
pub enum MouseButton {
    Left,
    Right,
    Middle,
    Other,
}

/// A mouse button as the operating system's input hook reports it: the
/// three usual buttons, or another one by its raw code.
#[derive(Clone, Copy, Debug, PartialEq, Eq, Structural)]
pub enum RawButton {
    Left,
    Right,
    Middle,
    Unknown(u8),
}

/// The button shown for a raw button: the three usual buttons keep their
/// identity, every other one is shown as `Other`.
pub open spec fn button_shown(button: RawButton) -> MouseButton {
    match button {
        RawButton::Left => MouseButton::Left,
        RawButton::Right => MouseButton::Right,
        RawButton::Middle => MouseButton::Middle,
        RawButton::Unknown(_) => MouseButton::Other,
    }
}

/// Maps a raw button to the button the overlay shows.
pub fn map_mouse_button(button: RawButton) -> (shown: MouseButton)
    ensures
        shown == button_shown(button),
{
    match button {
        RawButton::Left => MouseButton::Left,
        RawButton::Right => MouseButton::Right,
        RawButton::Middle => MouseButton::Middle,
        RawButton::Unknown(_) => MouseButton::Other,
    }
}

/// Whether the system reports secure event input (a password field has the
/// focus), from the flag the system returns: any non-zero value means yes.
/// On systems without such a flag the caller passes 0.
pub fn is_secure_input(secure_event_input: u8) -> (secure: bool)
    ensures
        secure == (secure_event_input != 0),
{
    secure_event_input != 0
}

} // verus!
