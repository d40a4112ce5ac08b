//! The Running/Editing state machine.
//!
//! Exactly one state holds at a time; the default at startup is `Running`.
//! The only transition is a flip on a rising edge of the toggle control;
//! both states are steady and neither is terminal.

use vstd::prelude::*;

verus! {

/// Whether the automaton advances (`Running`) or is frozen for hand
/// editing (`Editing`). Painting cells is live in both states; only
/// simulation advancement is gated.
#[derive(Clone, Copy, Debug, PartialEq, Eq, Structural)]
pub enum GameState {
    Running,
    Editing,
}

impl Default for GameState {
    /// The state at startup is `Running`.
    fn default() -> (s: GameState)
        ensures
            s is Running,
    {
        GameState::Running
    }
}

impl GameState {
    /// The other state.
    pub open spec fn flipped(self) -> GameState {
        match self {
            GameState::Running => GameState::Editing,
            GameState::Editing => GameState::Running,
        }
    }

    /// The state after this frame's toggle input: flipped on a rising edge
    /// of the toggle control (pressed this frame, not held), otherwise
    /// unchanged. No other transition exists.
    pub fn after_toggle(self, toggle_pressed: bool) -> (s: GameState)
        ensures
            s == (if toggle_pressed {
                self.flipped()
            } else {
                self
            }),
    {
        if toggle_pressed {
            match self {
                GameState::Running => GameState::Editing,
                GameState::Editing => GameState::Running,
            }
        } else {
            self
        }
    }

    /// The human-readable name of the state, for the on-screen display.
    pub fn label(self) -> (s: &'static str)
        ensures
            self is Running ==> s@ == "Running"@,
            self is Editing ==> s@ == "Editing"@,
    {
        match self {
            GameState::Running => "Running",
            GameState::Editing => "Editing",
        }
    }
}

} // verus!
