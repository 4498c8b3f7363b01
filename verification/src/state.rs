//! The high-level game state machine and the pause toggle.

use vstd::prelude::*;

verus! {

/// High-level state of the game loop.
#[derive(Clone, Copy, PartialEq, Eq, Structural, Debug)]
pub enum GameState {
    Loading,
    Playing,
    Paused,
}

impl Default for GameState {
    /// The game boots into the loading state.
    fn default() -> (s: Self)
        ensures
            s == GameState::Loading,
    {
        GameState::Loading
    }
}

/// The state after a pause-key press is handled: toggles between playing
/// and paused; a press during loading does nothing, and so does a frame
/// without a press.
pub open spec fn spec_toggle_pause(escape_pressed: bool, state: GameState) -> GameState {
    if !escape_pressed {
        state
    } else {
        match state {
            GameState::Playing => GameState::Paused,
            GameState::Paused => GameState::Playing,
            GameState::Loading => GameState::Loading,
        }
    }
}

/// Handles one frame of the pause key.
pub fn toggle_pause(escape_pressed: bool, state: GameState) -> (next: GameState)
    ensures
        next == spec_toggle_pause(escape_pressed, state),
{
    if !escape_pressed {
        return state;
    }
    match state {
        GameState::Playing => GameState::Paused,
        GameState::Paused => GameState::Playing,
        GameState::Loading => GameState::Loading,
    }
}

} // verus!
