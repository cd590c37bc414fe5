//! Rules and turn handling for a two-player chess game that is played with a
//! cursor: the board and its layout text, the moves of each kind of piece,
//! the players' clocks, and the game itself, which turns cursor movements and
//! a single action command into moves.
//!
//! Every function is verified against a contract over a mathematical model:
//! a board is the map from squares to the pieces on them, a list of moves is
//! a sequence, a clock is what it stores and whether it runs. The laws that
//! tie the parts together are stated as proof functions next to them.
//!
//! The only things taken on trust are the type of a reading of the system's
//! monotonic clock and the three calls that take and measure one; nothing is
//! claimed of what they return.

pub mod board;
pub mod display;
pub mod gamestate;
pub mod input;
pub mod movegen;
pub mod piece;
pub mod rules;
pub mod timer;
pub mod vec2;

pub use board::{Board, QueryResult};
pub use display::Shade;
pub use gamestate::{Chess, GameState, Mode, State};
pub use input::{Command, Key};
pub use piece::{Piece, PieceType, Player};
pub use rules::{Move, MoveResult};
pub use timer::CountdownTimer;
pub use vec2::{Direction, Vec2};
