//! Moves and what carrying one out does to the board.

use crate::piece::PieceType;
use crate::vec2::Vec2;
use vstd::prelude::*;

verus! {

/// What happens when a piece is sent to a destination.
#[derive(Clone, Copy, Debug, PartialEq, Eq, Structural)]
pub enum MoveResult {
    /// The selection is dropped; nothing moves.
    Cancel,
    /// The piece moves onto an empty square.
    Nothing,
    /// The piece moves and the occupant of the named square is removed.
    /// For an en passant capture the named square is not the destination.
    Capture(Vec2),
    /// Castling. No move of this kind is generated.
    Castle,
    /// Promotion. No move of this kind is generated.
    Promotion(PieceType),
    /// The destination is not among the legal moves.
    Invalid,
}

/// A destination together with what moving there does.
#[derive(Clone, Copy, Debug, PartialEq, Eq, Structural)]
pub struct Move {
    pub pos: Vec2,
    pub result: MoveResult,
}

impl Move {
    /// The move onto `pos` with the given result.
    #[verifier::allow_in_spec]
    pub fn new(pos: Vec2, result: MoveResult) -> Move
        returns
            (Move { pos, result }),
    {
        Move { pos, result }
    }

    /// A move onto `pos` that removes the piece standing there.
    #[verifier::allow_in_spec]
    pub fn capture(pos: Vec2) -> Move
        returns
            (Move { pos, result: MoveResult::Capture(pos) }),
    {
        Move { pos, result: MoveResult::Capture(pos) }
    }

    /// A move onto the empty square `pos`.
    #[verifier::allow_in_spec]
    pub fn to(pos: Vec2) -> Move
        returns
            (Move { pos, result: MoveResult::Nothing }),
    {
        Move { pos, result: MoveResult::Nothing }
    }

    /// The pseudo-move that drops the selection of the piece on `pos`.
    #[verifier::allow_in_spec]
    pub fn null(pos: Vec2) -> Move
        returns
            (Move { pos, result: MoveResult::Cancel }),
    {
        Move { pos, result: MoveResult::Cancel }
    }
}

} // verus!
