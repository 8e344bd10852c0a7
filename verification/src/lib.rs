//! Core engine for a falling-block puzzle game: a 20x10 board of colored
//! cells, a falling tetromino piece, a queued next piece, and a command
//! state machine that advances the game on ticks and player input.

pub mod board;
pub mod input;
pub mod piece;
pub mod state;

pub use board::Board;
pub use input::handle_command;
pub use input::Command;
pub use piece::Piece;
pub use piece::TetrominoType;
pub use state::GameState;
