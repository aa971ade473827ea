//! `tictactoe` is a library for building a tic-tac-toe game with as much
//! type safety as possible: the game's lifecycle is split into an active
//! phase, which accepts turns, and a final phase, which is immutable, so
//! taking a turn on a finished game cannot even be expressed.

pub mod game;

pub use crate::game::board::new;
pub use crate::game::board::Board;
pub use crate::game::board::Player;
pub use crate::game::board::Square;
pub use crate::game::error::SquareOccupied;
pub use crate::game::error::StdInFailure;
pub use crate::game::error::StringIsNotASquare;
pub use crate::game::error::TicTacToeError;
pub use crate::game::ActiveGame;
pub use crate::game::FinalGame;
pub use crate::game::Game;
pub use crate::game::State;
