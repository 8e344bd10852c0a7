//! Decoded player commands and their dispatch onto the game state; an
//! input layer turns raw key events into [`Command`] values and hands
//! them here.

use crate::state::GameState;
use vstd::prelude::*;

verus! {

/// One decoded gameplay command.
#[derive(Debug, Clone, Copy, PartialEq, Eq, Structural)]
pub enum Command {
    MoveLeft,
    MoveRight,
    SoftDrop,
    Rotate,
    HardDrop,
    TogglePause,
    Reset,
}

/// Apply one decoded command to the game state. `Reset` is honored only
/// after a game over, mirroring the input layer's guard; every other
/// command defers to the state machine's own phase guards.
pub fn handle_command(state: &mut GameState, cmd: Command)
    requires
        old(state).wf(),
    ensures
        final(state).wf(),
        (match cmd {
            Command::MoveLeft => GameState::move_rel(*old(state), *final(state), -1),
            Command::MoveRight => GameState::move_rel(*old(state), *final(state), 1),
            Command::SoftDrop => GameState::soft_drop_rel(*old(state), *final(state)),
            Command::Rotate => GameState::rotate_rel(*old(state), *final(state)),
            Command::HardDrop => GameState::hard_drop_rel(*old(state), *final(state)),
            Command::TogglePause => GameState::toggle_pause_rel(*old(state), *final(state)),
            Command::Reset => if old(state).game_over {
                GameState::is_fresh(*final(state))
            } else {
                *final(state) == *old(state)
            },
        }),
{
    match cmd {
        Command::MoveLeft => state.move_horizontal(-1),
        Command::MoveRight => state.move_horizontal(1),
        Command::SoftDrop => state.soft_drop(),
        Command::Rotate => state.rotate(),
        Command::HardDrop => state.hard_drop(),
        Command::TogglePause => state.toggle_pause(),
        Command::Reset => {
            if state.game_over {
                state.reset();
            }
        },
    }
}

} // verus!
