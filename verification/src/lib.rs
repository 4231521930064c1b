//! Decision logic of a keystroke and mouse visualiser: which input events are
//! tracked, forwarded or suppressed, when the listener toggles, and which
//! monitor the overlay window follows.

pub mod input;
pub mod keys;
pub mod laws;
pub mod monitor;
pub mod shell;
pub mod state;
