//! What a front end shows: the shade of each square and the line that says
//! what the next action would do. The colours themselves are the front end's.

use crate::board::on_board;
use crate::gamestate::{GameState, Mode};
use crate::piece::Player;
use crate::rules::MoveResult;
use crate::vec2::Vec2;
use vstd::prelude::*;

verus! {

/// The role in which a square is painted. Shades that name a player are
/// drawn from that player's palette.
#[derive(Clone, Copy, Debug, PartialEq, Eq, Structural)]
pub enum Shade {
    /// An ordinary square.
    Tile(Player),
    /// A square that the held piece can be sent to.
    Highlight(Player),
    /// The square under the cursor of the player to move.
    Cursor(Player),
    /// The square under the cursor, where an action would do something.
    CursorValid,
}

/// Whether a square is one of those on which file and rank add up to an odd
/// number.
pub open spec fn is_odd_square(pos: Vec2) -> bool {
    (pos.x + pos.y) % 2 == 1
}

/// The words that tell the player what sending the held piece to the cursor
/// would do; empty where it would do nothing.
pub open spec fn label_of(result: MoveResult) -> Seq<char> {
    match result {
        MoveResult::Cancel => "Cancel"@,
        MoveResult::Nothing => "Move"@,
        MoveResult::Capture(_) => "Capture"@,
        MoveResult::Castle => "Castle"@,
        MoveResult::Promotion(_) => "Promote"@,
        MoveResult::Invalid => ""@,
    }
}

/// The status line for `result`.
pub fn status_label(result: MoveResult) -> (label: &'static str)
    ensures
        label@ == label_of(result),
{
    match result {
        MoveResult::Cancel => "Cancel",
        MoveResult::Nothing => "Move",
        MoveResult::Capture(_) => "Capture",
        MoveResult::Castle => "Castle",
        MoveResult::Promotion(_) => "Promote",
        MoveResult::Invalid => "",
    }
}

impl GameState {
    /// Whether an action with the cursor on `pos` would do something: with
    /// nothing held, whether the piece under the cursor can be moved; with a
    /// piece held, whether it can be sent to `pos` or dropped there.
    pub open spec fn responds_at(&self, pos: Vec2) -> bool {
        match self.mode {
            Mode::Selecting => self.can_move(),
            Mode::Moving(from) => !(self.board.move_result(from, pos) is Invalid),
        }
    }

    /// The shade of the square `pos`.
    ///
    /// Under the cursor: `CursorValid` where an action would do something,
    /// else the cursor shade of the player to move. Elsewhere: while a piece
    /// is held, the squares it can be sent to are highlighted, an odd square
    /// from White's palette and an even one from Black's; every other square
    /// is a plain tile, an odd square from Black's palette and an even one
    /// from White's.
    pub open spec fn shade_of(&self, pos: Vec2) -> Shade {
        if pos == self.cursor {
            if self.responds_at(pos) {
                Shade::CursorValid
            } else {
                Shade::Cursor(self.turn)
            }
        } else if self.mode is Moving && self.responds_at(pos) {
            if is_odd_square(pos) {
                Shade::Highlight(Player::White)
            } else {
                Shade::Highlight(Player::Black)
            }
        } else if is_odd_square(pos) {
            Shade::Tile(Player::Black)
        } else {
            Shade::Tile(Player::White)
        }
    }

    /// Computes the shade of the square `pos` of the board.
    pub fn shade(&self, pos: Vec2) -> (shade: Shade)
        requires
            on_board(pos),
        ensures
            shade == self.shade_of(pos),
    {
        let odd = (pos.x + pos.y) % 2 == 1;
        let responds = match self.mode {
            Mode::Selecting => pos == self.cursor && self.can_move_cursor_piece(),
            Mode::Moving(from) => !matches!(self.get_move_result(from, pos), MoveResult::Invalid),
        };
        if pos == self.cursor {
            if responds {
                Shade::CursorValid
            } else {
                Shade::Cursor(self.turn)
            }
        } else if responds {
            if odd {
                Shade::Highlight(Player::White)
            } else {
                Shade::Highlight(Player::Black)
            }
        } else if odd {
            Shade::Tile(Player::Black)
        } else {
            Shade::Tile(Player::White)
        }
    }
}

} // verus!
