//! The X side: translation of X events into input events, and the session
//! with the X server.

pub mod bounds;
pub mod context;
pub mod devices;
pub mod events;
pub mod motion;
pub mod protocol;
pub mod setup;
pub mod util;
pub mod xinput;

use crate::config::ConfigInputDevice;
use crate::input::InputEvent;
use vstd::prelude::*;

verus! {

/// What the window tells the rest of the program.
#[derive(Debug, Clone, Copy, PartialEq, Eq, Structural)]
pub enum XEvent {
    Visible(bool),
    Focus(bool),
    Close,
    Input(InputEvent),
}

/// What the rest of the program asks of the window.
#[derive(Debug)]
pub enum XRequest {
    Quit,
    UnstickHost,
    Grab { xcore: bool, confine: bool, motion: bool, devices: Vec<ConfigInputDevice> },
    Ungrab,
}

} // verus!
