//! The 8×8 board: what stands where, and the two ways of changing it.

use crate::piece::{Piece, PieceType, Player};
use crate::vec2::Vec2;
use vstd::prelude::*;
use vstd::relations::injective_on;
use vstd::set_lib::{lemma_int_range, lemma_len_subset, lemma_map_size, set_int_range};
use vstd::std_specs::iter::IteratorSpec;

verus! {

/// Whether `pos` names one of the 64 squares.
pub open spec fn on_board(pos: Vec2) -> bool {
    0 <= pos.x <= 7 && 0 <= pos.y <= 7
}

/// The executable test for [`on_board`].
pub fn is_on_board(pos: Vec2) -> (b: bool)
    ensures
        b == on_board(pos),
{
    !(pos.x < 0 || pos.x > 7 || pos.y < 0 || pos.y > 7)
}

/// The kind of piece that a layout character names, if any. Upper and lower
/// case name the same kind. Besides the twelve ASCII letters the Kelvin sign
/// U+212A is read as a capital `K`, since its lower-case form is `k`.
pub open spec fn letter_type(c: char) -> Option<PieceType> {
    if c == 'k' || c == 'K' || c == '\u{212a}' {
        Some(PieceType::King)
    } else if c == 'q' || c == 'Q' {
        Some(PieceType::Queen)
    } else if c == 'b' || c == 'B' {
        Some(PieceType::Bishop)
    } else if c == 'n' || c == 'N' {
        Some(PieceType::Knight)
    } else if c == 'r' || c == 'R' {
        Some(PieceType::Rook)
    } else if c == 'p' || c == 'P' {
        Some(PieceType::Pawn)
    } else {
        None
    }
}

/// The side that a piece letter stands for: lower case is White, anything
/// else Black.
pub open spec fn letter_player(c: char) -> Player {
    if c == 'k' || c == 'q' || c == 'b' || c == 'n' || c == 'r' || c == 'p' {
        Player::White
    } else {
        Player::Black
    }
}

/// What a layout character puts on its square: nothing for `.`, an unmoved
/// piece for a piece letter.
pub open spec fn letter_square(c: char) -> Option<Piece> {
    match letter_type(c) {
        Some(ty) => Some(Piece { ty, player: letter_player(c), move_count: 0 }),
        None => None,
    }
}

/// Whether a layout character is accepted: `.` or a piece letter.
pub open spec fn is_layout_char(c: char) -> bool {
    c == '.' || letter_type(c) is Some
}

/// Whether `text` describes a board: at least 64 characters, of which the
/// first 64 are each `.` or a piece letter. What follows them is ignored.
pub open spec fn is_layout(text: Seq<char>) -> bool {
    &&& text.len() >= 64
    &&& forall|i: int| 0 <= i < 64 ==> is_layout_char(#[trigger] text[i])
}

/// The place of a square in a layout, which lists the ranks from the top,
/// each from left to right.
pub open spec fn layout_index(pos: Vec2) -> int {
    pos.y * 8 + pos.x
}

/// The pieces that a layout sets up, by square.
pub open spec fn layout_pieces(text: Seq<char>) -> Map<Vec2, Piece> {
    Map::new(
        |pos: Vec2| on_board(pos) && letter_square(text[layout_index(pos)]) is Some,
        |pos: Vec2| letter_square(text[layout_index(pos)])->0,
    )
}

/// Whether `c` names a kind of piece.
fn is_piece_letter(c: char) -> (b: bool)
    ensures
        b == (letter_type(c) is Some),
{
    c == 'k' || c == 'K' || c == '\u{212a}' || c == 'q' || c == 'Q' || c == 'b' || c == 'B'
        || c == 'n' || c == 'N' || c == 'r' || c == 'R' || c == 'p' || c == 'P'
}

/// The side of a piece letter.
fn get_char_player(c: char) -> (player: Player)
    ensures
        player == letter_player(c),
{
    if c == 'k' || c == 'q' || c == 'b' || c == 'n' || c == 'r' || c == 'p' {
        Player::White
    } else {
        Player::Black
    }
}

/// The kind of a piece letter.
fn get_char_type(c: char) -> (ty: PieceType)
    requires
        letter_type(c) is Some,
    ensures
        Some(ty) == letter_type(c),
{
    if c == 'k' || c == 'K' || c == '\u{212a}' {
        PieceType::King
    } else if c == 'q' || c == 'Q' {
        PieceType::Queen
    } else if c == 'b' || c == 'B' {
        PieceType::Bishop
    } else if c == 'n' || c == 'N' {
        PieceType::Knight
    } else if c == 'r' || c == 'R' {
        PieceType::Rook
    } else {
        PieceType::Pawn
    }
}

/// What a look at a square finds.
pub enum QueryResult<'a> {
    Occupied(&'a Piece),
    Vacant,
    /// The position is off the board.
    Invalid,
}

/// An 8×8 grid of squares, each empty or holding one piece.
pub struct Board {
    squares: [[Option<Piece>; 8]; 8],
}

impl View for Board {
    type V = Map<Vec2, Piece>;

    /// The pieces by the square they stand on. Only squares of the board
    /// occur as keys.
    open spec fn view(&self) -> Map<Vec2, Piece> {
        Map::new(|pos: Vec2| self.at(pos) is Some, |pos: Vec2| self.at(pos)->0)
    }
}

/// The model of [`Board::take_piece`]: the pieces without the one on `pos`.
pub open spec fn without(pieces: Map<Vec2, Piece>, pos: Vec2) -> Map<Vec2, Piece> {
    pieces.remove(pos)
}

/// The model of [`Board::move_piece`]: the piece on `from`, if there is one,
/// leaves it and lands on `to` with one more move to its name, replacing
/// whatever stood there. With no piece on `from` nothing changes.
pub open spec fn relocated(pieces: Map<Vec2, Piece>, from: Vec2, to: Vec2) -> Map<Vec2, Piece> {
    if pieces.contains_key(from) {
        pieces.remove(from).insert(to, pieces[from].moved())
    } else {
        pieces
    }
}

impl Board {
    /// What the grid holds at a square of the board.
    pub closed spec fn cell(&self, pos: Vec2) -> Option<Piece> {
        self.squares@[pos.y as int]@[pos.x as int]
    }

    /// The piece on `pos`; nothing for an empty square and for a position off
    /// the board.
    pub open spec fn at(&self, pos: Vec2) -> Option<Piece> {
        if on_board(pos) {
            self.cell(pos)
        } else {
            None
        }
    }

    /// Whether `pos` is a square of the board with nothing on it.
    pub open spec fn vacant(&self, pos: Vec2) -> bool {
        on_board(pos) && self.at(pos) is None
    }

    /// Whether `pos` holds a piece of the side opposing `player`.
    pub open spec fn hostile(&self, pos: Vec2, player: Player) -> bool {
        self.at(pos) matches Some(p) && p.player != player
    }

    /// Whether the piece on `from`, if any, can take one more move without
    /// its move count leaving the range of `usize`.
    pub open spec fn can_relocate(&self, from: Vec2) -> bool {
        self.at(from) matches Some(p) ==> p.move_count < usize::MAX
    }

    /// Sets up the board that `data` describes: 64 characters, rank by rank
    /// from the top and each rank from the left, `.` for an empty square and
    /// a letter for a piece, lower case for White. Every piece starts with a
    /// move count of zero.
    pub fn from_string(data: &str) -> (board: Board)
        requires
            is_layout(data@),
        ensures
            board@ == layout_pieces(data@),
    {
        let mut iter = data.chars();
        let mut board = Board { squares: [[None; 8]; 8] };
        let mut y: i16 = 0;
        while y < 8
            invariant
                0 <= y <= 8,
                is_layout(data@),
                iter.remaining() == data@.skip(y * 8),
                iter.obeys_prophetic_iter_laws(),
                forall|pos: Vec2|
                    on_board(pos) && pos.y < y ==> #[trigger] board.at(pos) == letter_square(
                        data@[layout_index(pos)],
                    ),
            decreases 8 - y,
        {
            let mut x: i16 = 0;
            while x < 8
                invariant
                    0 <= y < 8,
                    0 <= x <= 8,
                    is_layout(data@),
                    iter.remaining() == data@.skip(y * 8 + x),
                    iter.obeys_prophetic_iter_laws(),
                    forall|pos: Vec2|
                        on_board(pos) && (pos.y < y || (pos.y == y && pos.x < x))
                            ==> #[trigger] board.at(pos) == letter_square(
                            data@[layout_index(pos)],
                        ),
                decreases 8 - x,
            {
                let pos = Vec2::new(x, y);
                let ghost i = y * 8 + x;
                assert(data@.skip(i)[0] == data@[i]);
                assert(data@.skip(i).drop_first() =~= data@.skip(i + 1));
                let c = iter.next().unwrap();
                assert(is_layout_char(data@[i]));
                if c == '.' {
                    board.set(pos, None);
                } else {
                    board.set(
                        pos,
                        Some(Piece { ty: get_char_type(c), player: get_char_player(c), move_count: 0 }),
                    );
                }
                x = x + 1;
            }
            y = y + 1;
        }
        assert(board@ =~= layout_pieces(data@));
        board
    }

    /// Whether `data` can be handed to [`Board::from_string`].
    pub fn accepts(data: &str) -> (ok: bool)
        ensures
            ok == is_layout(data@),
    {
        let mut iter = data.chars();
        let mut i: usize = 0;
        while i < 64
            invariant
                0 <= i <= 64,
                i <= data@.len(),
                iter.remaining() == data@.skip(i as int),
                iter.obeys_prophetic_iter_laws(),
                forall|k: int| 0 <= k < i ==> is_layout_char(#[trigger] data@[k]),
            decreases 64 - i,
        {
            assert(data@.skip(i as int).len() == data@.len() - i);
            match iter.next() {
                Some(c) => {
                    assert(data@.skip(i as int)[0] == data@[i as int]);
                    assert(data@.skip(i as int).drop_first() =~= data@.skip(i + 1));
                    if !(c == '.' || is_piece_letter(c)) {
                        return false;
                    }
                },
                None => {
                    return false;
                },
            }
            i = i + 1;
        }
        true
    }

    /// The piece on `pos`, if `pos` is on the board and occupied.
    pub fn get(&self, pos: Vec2) -> (found: Option<&Piece>)
        ensures
            match found {
                Some(p) => self.at(pos) == Some(*p),
                None => self.at(pos) is None,
            },
    {
        if !is_on_board(pos) {
            return None;
        }
        self.squares[pos.y as usize][pos.x as usize].as_ref()
    }

    /// Looks at `pos` and tells an empty square from a position off the board.
    pub fn query_square(&self, pos: Vec2) -> (found: QueryResult<'_>)
        ensures
            match found {
                QueryResult::Occupied(p) => self.at(pos) == Some(*p),
                QueryResult::Vacant => self.vacant(pos),
                QueryResult::Invalid => !on_board(pos),
            },
    {
        if !is_on_board(pos) {
            return QueryResult::Invalid;
        }
        match &self.squares[pos.y as usize][pos.x as usize] {
            Some(piece) => QueryResult::Occupied(piece),
            None => QueryResult::Vacant,
        }
    }

    /// Puts `square` in place of what `pos` holds.
    fn set(&mut self, pos: Vec2, square: Option<Piece>)
        requires
            on_board(pos),
        ensures
            final(self).at(pos) == square,
            forall|other: Vec2| other != pos ==> final(self).at(other) == old(self).at(other),
    {
        self.squares[pos.y as usize][pos.x as usize] = square;
    }

    /// Relocates the piece on `from` to `to` and counts the move. The piece
    /// that stood on `to` is gone. With no piece on `from` the board stays as
    /// it is. Whether the move is legal is the caller's business.
    pub fn move_piece(&mut self, from: Vec2, to: Vec2)
        requires
            on_board(from),
            on_board(to),
            old(self).can_relocate(from),
        ensures
            final(self)@ == relocated(old(self)@, from, to),
    {
        let taken = self.squares[from.y as usize][from.x as usize];
        if let Some(piece) = taken {
            self.set(from, None);
            self.set(
                to,
                Some(Piece { ty: piece.ty, player: piece.player, move_count: piece.move_count + 1 }),
            );
        }
        assert(self@ =~= relocated(old(self)@, from, to));
    }

    /// Empties the square `pos`.
    pub fn take_piece(&mut self, pos: Vec2)
        requires
            on_board(pos),
        ensures
            final(self)@ == without(old(self)@, pos),
    {
        self.set(pos, None);
        assert(self@ =~= without(old(self)@, pos));
    }

    /// Whether the square `pos` is empty; `Err` for a position off the board.
    pub fn is_vacant(&self, pos: Vec2) -> (answer: Result<bool, ()>)
        ensures
            answer == if on_board(pos) {
                Ok::<bool, ()>(self.at(pos) is None)
            } else {
                Err::<bool, ()>(())
            },
    {
        if !is_on_board(pos) {
            return Err(());
        }
        Ok(self.get(pos).is_none())
    }

    /// Whether the square `pos` holds a piece that does not belong to
    /// `player`; `Err` for a position off the board.
    pub fn is_opponent(&self, pos: Vec2, player: Player) -> (answer: Result<bool, ()>)
        ensures
            answer == if on_board(pos) {
                Ok::<bool, ()>(self.hostile(pos, player))
            } else {
                Err::<bool, ()>(())
            },
    {
        if !is_on_board(pos) {
            return Err(());
        }
        if let Some(p) = self.get(pos) {
            return Ok(p.player != player);
        }
        Ok(false)
    }
}

/// The 64 squares of the board.
pub open spec fn squares() -> Set<Vec2> {
    Set::new(|pos: Vec2| on_board(pos))
}

/// The squares whose place in a layout is at least `lo` and less than `hi`.
pub open spec fn squares_between(lo: int, hi: int) -> Set<Vec2> {
    Set::new(|pos: Vec2| on_board(pos) && lo <= layout_index(pos) < hi)
}

/// A stretch of a layout covers as many squares as it has places.
pub proof fn lemma_squares_between(lo: int, hi: int)
    requires
        0 <= lo <= hi <= 64,
    ensures
        squares_between(lo, hi).finite(),
        squares_between(lo, hi).len() == hi - lo,
{
    let square_of = |i: int| Vec2 { x: (i % 8) as i16, y: (i / 8) as i16 };
    let places = set_int_range(lo, hi);
    let covered = squares_between(lo, hi);
    lemma_int_range(lo, hi);
    assert forall|pos: Vec2| covered.contains(pos) implies places.map(square_of).contains(
        pos,
    ) by {
        let i = layout_index(pos);
        assert(places.contains(i));
        assert(square_of(i) == pos);
    }
    assert(places.map(square_of) =~= covered);
    assert(injective_on(square_of, places)) by {
        assert forall|i: int, j: int|
            places.contains(i) && places.contains(j) && #[trigger] square_of(i)
                == #[trigger] square_of(j) implies i == j by {
            assert(i == (i / 8) * 8 + i % 8);
            assert(j == (j / 8) * 8 + j % 8);
        }
    }
    lemma_map_size(places, covered, square_of);
}

/// There are 64 squares.
pub proof fn lemma_sixty_four_squares()
    ensures
        squares().finite(),
        squares().len() == 64,
{
    lemma_squares_between(0, 64);
    assert(squares() =~= squares_between(0, 64));
}

/// Neither removing a piece nor relocating one adds a piece to the board.
pub proof fn lemma_no_piece_is_added(pieces: Map<Vec2, Piece>, from: Vec2, to: Vec2)
    requires
        pieces.dom().finite(),
    ensures
        without(pieces, from).dom().finite(),
        without(pieces, from).len() <= pieces.len(),
        relocated(pieces, from, to).dom().finite(),
        relocated(pieces, from, to).len() <= pieces.len(),
{
    broadcast use vstd::set::group_set_axioms;

    assert(pieces.remove(from).dom() =~= pieces.dom().remove(from));
    if pieces.contains_key(from) {
        let moved = pieces[from].moved();
        assert(pieces.remove(from).insert(to, moved).dom() =~= pieces.dom().remove(from).insert(
            to,
        ));
    }
}

impl Board {
    /// Whatever the board holds stands on one of its 64 squares, so there
    /// are at most 64 pieces.
    pub proof fn lemma_pieces_fit_the_board(&self)
        ensures
            self@.dom().subset_of(squares()),
            self@.dom().finite(),
            self@.len() <= 64,
    {
        lemma_sixty_four_squares();
        lemma_len_subset(self@.dom(), squares());
    }

    /// What stands on a square can be read off the view, and the other way
    /// round.
    pub proof fn lemma_at_reads_view(&self, pos: Vec2)
        ensures
            self.at(pos) == if self@.contains_key(pos) {
                Some(self@[pos])
            } else {
                None
            },
    {
    }
}

} // verus!
