//! The header and the button above the puzzle, and the words they show.
use vstd::prelude::*;

verus! {

/// What the button offers.
#[derive(Clone, Copy, Debug, PartialEq, Eq, Structural)]
pub enum ButtonState {
    Reset,
    Start,
}

/// What the game is doing, as the header tells it.
#[derive(Clone, Copy, Debug, PartialEq, Eq, Structural)]
pub enum HeaderState {
    Loading,
    Prepping,
    Playing,
    Connecting,
}

impl ButtonState {
    /// The button's label.
    pub fn as_str(&self) -> (s: &'static str)
        ensures
            s@ == match self {
                ButtonState::Reset => "reset"@,
                ButtonState::Start => "start"@,
            },
    {
        match self {
            ButtonState::Reset => "reset",
            ButtonState::Start => "start",
        }
    }
}

impl HeaderState {
    /// The header's text.
    pub fn as_str(&self) -> (s: &'static str)
        ensures
            s@ == match self {
                HeaderState::Loading => "Loading..."@,
                HeaderState::Prepping => "Preparing..."@,
                HeaderState::Connecting => "Connecting..."@,
                HeaderState::Playing => "click and drag, space-click to pan, mouse wheel to zoom"@,
            },
    {
        match self {
            HeaderState::Loading => "Loading...",
            HeaderState::Prepping => "Preparing...",
            HeaderState::Connecting => "Connecting...",
            HeaderState::Playing => "click and drag, space-click to pan, mouse wheel to zoom",
        }
    }
}

} // verus!
