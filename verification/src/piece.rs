//! The chessmen and their owners.

use crate::vec2::Vec2;
use vstd::prelude::*;

verus! {

/// The six kinds of chessmen.
#[derive(Clone, Copy, Debug, PartialEq, Eq, Structural)]
pub enum PieceType {
    King,
    Queen,
    Bishop,
    Knight,
    Rook,
    Pawn,
}

/// The two sides. White moves first and advances towards the top of the board.
#[derive(Clone, Copy, Debug, PartialEq, Eq, Structural)]
pub enum Player {
    White,
    Black,
}

/// A chessman on the board. Pieces carry no identity: two of the same kind,
/// owner and move count are interchangeable.
#[derive(Clone, Copy, Debug, PartialEq, Eq, Structural)]
pub struct Piece {
    pub ty: PieceType,
    pub player: Player,
    /// How often the piece has been relocated since the board was set up.
    pub move_count: usize,
}

/// The English name of a kind of piece.
pub open spec fn kind_name(ty: PieceType) -> Seq<char> {
    match ty {
        PieceType::King => "King"@,
        PieceType::Queen => "Queen"@,
        PieceType::Bishop => "Bishop"@,
        PieceType::Knight => "Knight"@,
        PieceType::Rook => "Rook"@,
        PieceType::Pawn => "Pawn"@,
    }
}

impl PieceType {
    /// The name of the kind, as a piece is shown in text.
    pub fn name(self) -> (name: &'static str)
        ensures
            name@ == kind_name(self),
    {
        match self {
            PieceType::King => "King",
            PieceType::Queen => "Queen",
            PieceType::Bishop => "Bishop",
            PieceType::Knight => "Knight",
            PieceType::Rook => "Rook",
            PieceType::Pawn => "Pawn",
        }
    }

    /// The position of the kind in the order king, queen, bishop, knight,
    /// rook, pawn; front ends use it to pick a glyph.
    #[verifier::allow_in_spec]
    pub fn index(self) -> usize
        returns
            (match self {
                PieceType::King => 0usize,
                PieceType::Queen => 1usize,
                PieceType::Bishop => 2usize,
                PieceType::Knight => 3usize,
                PieceType::Rook => 4usize,
                PieceType::Pawn => 5usize,
            }),
    {
        match self {
            PieceType::King => 0,
            PieceType::Queen => 1,
            PieceType::Bishop => 2,
            PieceType::Knight => 3,
            PieceType::Rook => 4,
            PieceType::Pawn => 5,
        }
    }
}

impl Player {
    /// The other side.
    #[verifier::allow_in_spec]
    pub fn opponent(self) -> Player
        returns
            (match self {
                Player::White => Player::Black,
                Player::Black => Player::White,
            }),
    {
        match self {
            Player::White => Player::Black,
            Player::Black => Player::White,
        }
    }

    /// The slot of the side's clock: 0 for White, 1 for Black.
    #[verifier::allow_in_spec]
    pub fn index(self) -> usize
        returns
            (match self {
                Player::White => 0usize,
                Player::Black => 1usize,
            }),
    {
        match self {
            Player::White => 0,
            Player::Black => 1,
        }
    }

    /// The step that takes a pawn of this side one rank forward.
    #[verifier::allow_in_spec]
    pub fn forward(self) -> Vec2
        returns
            (match self {
                Player::White => Vec2::up(),
                Player::Black => Vec2::down(),
            }),
    {
        match self {
            Player::White => Vec2::up(),
            Player::Black => Vec2::down(),
        }
    }
}

impl Piece {
    /// The name under which the piece is shown in text: that of its kind.
    pub fn name(&self) -> (name: &'static str)
        ensures
            name@ == kind_name(self.ty),
    {
        self.ty.name()
    }

    /// The same piece after one more relocation.
    pub open spec fn moved(self) -> Piece {
        Piece { ty: self.ty, player: self.player, move_count: (self.move_count + 1) as usize }
    }
}

} // verus!
