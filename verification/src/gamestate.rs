//! The game: whose turn it is, where the cursor stands, what is selected, and
//! the two commands that drive it.

use crate::board::{
    is_on_board, layout_pieces, lemma_no_piece_is_added, lemma_squares_between, letter_square,
    on_board, relocated, squares_between, without, Board,
};
use crate::movegen::{
    en_passant, lemma_destinations_are_distinct, lemma_moves_are_well_formed, pawn_capture,
    well_formed,
};
use crate::piece::{Piece, PieceType, Player};
use crate::rules::{Move, MoveResult};
use crate::timer::CountdownTimer;
use crate::vec2::Vec2;
use vstd::pervasive::unreached;
use vstd::prelude::*;
use vstd::set_lib::lemma_set_disjoint_lens;

verus! {

/// The starting position: Black's pieces on the two top ranks, White's on the
/// two bottom ranks.
pub const START_LAYOUT: &'static str =
    "RNBQKBNRPPPPPPPP................................pppppppprnbqkbnr";

/// The time on each player's clock at the start, in milliseconds.
pub const START_MILLIS: usize = 600000;

/// Whether the game goes on.
#[derive(Clone, Copy, Debug, PartialEq, Eq, Structural)]
pub enum State {
    Paused,
    Playing,
    Exit,
}

/// What the next action command means.
#[derive(Clone, Copy, Debug, PartialEq, Eq, Structural)]
pub enum Mode {
    /// No piece is held; the action picks the piece under the cursor.
    Selecting,
    /// The piece on the given square is held; the action sends it to the
    /// cursor. The board has not changed yet.
    Moving(Vec2),
}

/// A game in progress.
pub struct GameState {
    pub turn: Player,
    pub cursor: Vec2,
    /// White's clock, then Black's.
    pub timers: [CountdownTimer; 2],
    pub board: Board,
    pub mode: Mode,
    pub state: State,
}

/// The game under the name that front ends know it by.
pub type Chess = GameState;

/// Whether `i` is the place of the first move in `moves` that ends on `to`.
pub open spec fn is_first_onto(moves: Seq<Move>, to: Vec2, i: int) -> bool {
    &&& 0 <= i < moves.len()
    &&& moves[i].pos == to
    &&& forall|j: int| 0 <= j < i ==> (#[trigger] moves[j]).pos != to
}

/// The result of the first move in `moves` that ends on `to`; `Invalid` if
/// none does.
pub open spec fn find_result(moves: Seq<Move>, to: Vec2) -> MoveResult {
    if exists|i: int| is_first_onto(moves, to, i) {
        moves[choose|i: int| is_first_onto(moves, to, i)].result
    } else {
        MoveResult::Invalid
    }
}

impl Board {
    /// What sending the piece on `from` to `to` would do: the result of the
    /// first legal move of that piece onto `to`, the cancelling pseudo-move
    /// included; `Invalid` if there is no such move or no piece on `from`.
    pub open spec fn move_result(&self, from: Vec2, to: Vec2) -> MoveResult {
        if self.at(from) is Some {
            find_result(self.valid_moves(from, true), to)
        } else {
            MoveResult::Invalid
        }
    }
}

impl GameState {
    /// The piece under the cursor, if any.
    pub open spec fn piece_at_cursor(&self) -> Option<Piece> {
        self.board.at(self.cursor)
    }

    /// Whether the square under the cursor holds a piece of the player to
    /// move.
    pub open spec fn holds_own_piece(&self) -> bool {
        self.piece_at_cursor() matches Some(p) && p.player == self.turn
    }

    /// Whether the piece under the cursor belongs to the player to move and
    /// has somewhere to go.
    pub open spec fn can_move(&self) -> bool {
        self.holds_own_piece() && self.board.valid_moves(self.cursor, false).len() > 0
    }

    /// The clock of `player`.
    pub open spec fn timer(&self, player: Player) -> CountdownTimer {
        self.timers[player.index() as int]
    }

    /// Whether the clock of the player to move runs and the other one
    /// stands, as it is throughout play.
    pub open spec fn clock_runs(&self) -> bool {
        self.timer(self.turn).running() && !self.timer(self.turn.opponent()).running()
    }

    /// Whether the cursor stands on the board.
    pub open spec fn wf(&self) -> bool {
        on_board(self.cursor)
    }

    /// Whether the next action would move a piece: one is held and the cursor
    /// stands on one of its destinations.
    pub open spec fn about_to_move(&self) -> bool {
        self.mode matches Mode::Moving(from) && (self.board.move_result(from, self.cursor)
            is Nothing || self.board.move_result(from, self.cursor) is Capture)
    }

    /// What the action command needs: if it is going to move a piece, the
    /// clocks are as in play and the piece's move count can still grow.
    pub open spec fn can_act(&self) -> bool {
        self.about_to_move() ==> self.clock_runs() && self.board.can_relocate(self.mode->0)
    }

    /// How the game `after` a completed move relates to `self`, the game
    /// before it, apart from the board: the turn has passed, nothing is held,
    /// the clock of the player who moved has stopped without gaining time,
    /// and the other player's clock runs with what it had.
    pub open spec fn passed_turn(&self, after: GameState) -> bool {
        &&& after.turn == self.turn.opponent()
        &&& after.cursor == self.cursor
        &&& after.mode == Mode::Selecting
        &&& after.state == State::Playing
        &&& !after.timer(self.turn).running()
        &&& after.timer(self.turn).stored() <= self.timer(self.turn).stored()
        &&& after.timer(after.turn).running()
        &&& after.timer(after.turn).stored() == self.timer(after.turn).stored()
    }

    /// How the game `after` an action command relates to `self`, the game
    /// before it.
    ///
    /// With nothing held, the piece under the cursor is picked up if it
    /// belongs to the player to move; otherwise nothing changes. With a piece
    /// held, what happens depends on what sending it to the cursor would do:
    /// the selection is dropped; or the piece moves, after the captured piece
    /// has been removed if there is one, and the turn passes; or, with no
    /// legal move onto the cursor, nothing changes. Castling and promotion
    /// are not among the generated moves, so no action ever meets them.
    pub open spec fn acted(&self, after: GameState) -> bool {
        match self.mode {
            Mode::Selecting => after == (GameState {
                mode: if self.holds_own_piece() {
                    Mode::Moving(self.cursor)
                } else {
                    Mode::Selecting
                },
                ..*self
            }),
            Mode::Moving(from) => match self.board.move_result(from, self.cursor) {
                MoveResult::Cancel => after == (GameState { mode: Mode::Selecting, ..*self }),
                MoveResult::Nothing => {
                    &&& self.passed_turn(after)
                    &&& after.board@ == relocated(self.board@, from, self.cursor)
                },
                MoveResult::Capture(taken) => {
                    &&& self.passed_turn(after)
                    &&& after.board@ == relocated(without(self.board@, taken), from, self.cursor)
                },
                MoveResult::Invalid => after == *self,
                MoveResult::Castle | MoveResult::Promotion(_) => false,
            },
        }
    }

    /// A game on `board` with `millis` milliseconds on each clock: White to
    /// move, the cursor in the top left corner, nothing held, both clocks
    /// stopped.
    pub fn new(board: Board, millis: usize) -> (game: GameState)
        ensures
            game.board == board,
            game.turn == Player::White,
            game.cursor == (Vec2 { x: 0i16, y: 0i16 }),
            game.mode == Mode::Selecting,
            game.state == State::Paused,
            forall|i: int|
                0 <= i < 2 ==> !(#[trigger] game.timers[i]).running() && game.timers[i].stored()
                    == millis,
    {
        GameState {
            board,
            turn: Player::White,
            cursor: Vec2::new(0, 0),
            timers: [CountdownTimer::new(millis), CountdownTimer::new(millis)],
            mode: Mode::Selecting,
            state: State::Paused,
        }
    }

    /// The piece under the cursor, if any.
    pub fn cursor_piece(&self) -> (found: Option<&Piece>)
        ensures
            match found {
                Some(p) => self.piece_at_cursor() == Some(*p),
                None => self.piece_at_cursor() is None,
            },
    {
        self.board.get(self.cursor)
    }

    /// Whether the piece under the cursor belongs to the player to move and
    /// has at least one legal destination.
    pub fn can_move_cursor_piece(&self) -> (can: bool)
        ensures
            can == self.can_move(),
    {
        if let Some(p) = self.cursor_piece() {
            if p.player == self.turn {
                if self.board.get_valid_moves(self.cursor, false).len() > 0 {
                    return true;
                }
            }
        }
        false
    }

    /// Puts the cursor on `pos` if that is a square of the board; otherwise
    /// leaves it where it is.
    pub fn set_cursor(&mut self, pos: Vec2)
        ensures
            *final(self) == (GameState {
                cursor: if on_board(pos) {
                    pos
                } else {
                    old(self).cursor
                },
                ..*old(self)
            }),
            old(self).wf() ==> final(self).wf(),
    {
        if is_on_board(pos) {
            self.cursor = pos;
        }
    }

    /// Shifts the cursor by `dir` if that keeps it on the board; otherwise
    /// leaves it where it is. For the four unit steps this keeps the cursor
    /// within the edges.
    pub fn move_cursor(&mut self, dir: Vec2)
        ensures
            *final(self) == (GameState {
                cursor: if 0 <= old(self).cursor.x + dir.x <= 7 && 0 <= old(self).cursor.y + dir.y
                    <= 7 {
                    old(self).cursor.plus(dir)
                } else {
                    old(self).cursor
                },
                ..*old(self)
            }),
            old(self).wf() ==> final(self).wf(),
    {
        let x: i32 = self.cursor.x as i32 + dir.x as i32;
        let y: i32 = self.cursor.y as i32 + dir.y as i32;
        if x >= 0 && x < 8 && y >= 0 && y < 8 {
            self.set_cursor(Vec2::new(x as i16, y as i16));
        }
    }

    /// Starts the clock of the player to move and marks the game as being
    /// played.
    pub fn start(&mut self)
        requires
            !old(self).timer(old(self).turn).running(),
        ensures
            final(self).turn == old(self).turn,
            final(self).cursor == old(self).cursor,
            final(self).board == old(self).board,
            final(self).mode == old(self).mode,
            final(self).state == State::Playing,
            final(self).timer(old(self).turn).running(),
            final(self).timer(old(self).turn).stored() == old(self).timer(old(self).turn).stored(),
            final(self).timer(old(self).turn.opponent()) == old(self).timer(
                old(self).turn.opponent(),
            ),
    {
        self.state = State::Playing;
        let slot: usize = self.turn.index();
        self.timers[slot].start();
    }

    /// Stops the clock of the player to move.
    pub fn stop(&mut self)
        requires
            old(self).timer(old(self).turn).running(),
        ensures
            final(self).turn == old(self).turn,
            final(self).cursor == old(self).cursor,
            final(self).board == old(self).board,
            final(self).mode == old(self).mode,
            final(self).state == old(self).state,
            !final(self).timer(old(self).turn).running(),
            final(self).timer(old(self).turn).stored() <= old(self).timer(old(self).turn).stored(),
            final(self).timer(old(self).turn.opponent()) == old(self).timer(
                old(self).turn.opponent(),
            ),
    {
        let slot: usize = self.turn.index();
        self.timers[slot].stop();
    }

    /// Passes the turn: stops the clock of the player to move, starts the
    /// other player's and drops any selection.
    pub fn change_player(&mut self)
        requires
            old(self).clock_runs(),
        ensures
            old(self).passed_turn(*final(self)),
            final(self).board == old(self).board,
    {
        self.stop();
        self.turn = self.turn.opponent();
        self.start();
        self.mode = Mode::Selecting;
    }

    /// Ends the game: marks it for the front end to leave.
    pub fn quit(&mut self)
        ensures
            *final(self) == (GameState { state: State::Exit, ..*old(self) }),
    {
        self.state = State::Exit;
    }

    /// What sending the piece on `from` to `to` would do. Never `Castle` or
    /// `Promotion`.
    pub fn get_move_result(&self, from: Vec2, to: Vec2) -> (result: MoveResult)
        ensures
            result == self.board.move_result(from, to),
            !(result is Castle || result is Promotion),
            result is Nothing || result is Capture ==> on_board(from) && on_board(to),
            result matches MoveResult::Capture(taken) ==> on_board(taken) && taken != from,
    {
        if self.board.get(from).is_some() {
            let valid = self.board.get_valid_moves(from, true);
            proof {
                lemma_moves_are_well_formed(self.board, from, true);
            }
            let mut i: usize = 0;
            while i < valid.len()
                invariant
                    i <= valid@.len(),
                    self.board.at(from) is Some,
                    valid@ == self.board.valid_moves(from, true),
                    forall|j: int| 0 <= j < i ==> (#[trigger] valid@[j]).pos != to,
                    forall|j: int|
                        0 < j < valid@.len() ==> well_formed(
                            self.board,
                            self.board.at(from)->0.player,
                            #[trigger] valid@[j],
                        ),
                    valid@.len() > 0,
                    valid@[0] == Move::null(from),
                decreases valid@.len() - i,
            {
                if valid[i].pos == to {
                    assert(is_first_onto(valid@, to, i as int));
                    return valid[i].result;
                }
                i = i + 1;
            }
        }
        MoveResult::Invalid
    }

    /// Whether the action command may be given now, as [`GameState::can_act`]
    /// says.
    pub fn ready_to_act(&self) -> (ready: bool)
        ensures
            ready == self.can_act(),
    {
        match self.mode {
            Mode::Selecting => true,
            Mode::Moving(from) => match self.get_move_result(from, self.cursor) {
                MoveResult::Nothing | MoveResult::Capture(_) => {
                    let mover: usize = self.turn.index();
                    let other: usize = self.turn.opponent().index();
                    let countable = match self.board.get(from) {
                        Some(p) => p.move_count < usize::MAX,
                        None => true,
                    };
                    self.timers[mover].is_running() && !self.timers[other].is_running()
                        && countable
                },
                _ => true,
            },
        }
    }

    /// The action command: picks up the piece under the cursor, or sends the
    /// held piece to the cursor.
    pub fn action(&mut self)
        requires
            old(self).can_act(),
        ensures
            old(self).acted(*final(self)),
    {
        match self.mode {
            Mode::Selecting => {
                if let Some(p) = self.cursor_piece() {
                    if p.player == self.turn {
                        self.mode = Mode::Moving(self.cursor);
                    }
                }
            },
            Mode::Moving(from) => {
                let to = self.cursor;
                match self.get_move_result(from, to) {
                    MoveResult::Cancel => {
                        self.mode = Mode::Selecting;
                        return ;
                    },
                    MoveResult::Nothing => self.board.move_piece(from, to),
                    MoveResult::Capture(pos) => {
                        self.board.take_piece(pos);
                        proof {
                            old(self).board.lemma_at_reads_view(from);
                            self.board.lemma_at_reads_view(from);
                        }
                        self.board.move_piece(from, to);
                    },
                    MoveResult::Castle => unreached(),
                    MoveResult::Promotion(_) => unreached(),
                    MoveResult::Invalid => return ,
                }
                self.change_player();
            },
        }
    }
}

/// The first move onto a square decides: if the move at place `i` is the
/// first in `moves` that ends on `to`, its result is what is found.
pub proof fn lemma_first_move_decides(moves: Seq<Move>, to: Vec2, i: int)
    requires
        is_first_onto(moves, to, i),
    ensures
        find_result(moves, to) == moves[i].result,
{
    let found = choose|k: int| is_first_onto(moves, to, k);
    assert(is_first_onto(moves, to, found));
    if found < i {
        assert(moves[found].pos != to);
    }
    if i < found {
        assert(moves[i].pos != to);
    }
}

/// What sending a piece to a square does is what the legal move onto that
/// square does, and there is one such move at most; without one the request
/// is invalid, and only then.
pub proof fn lemma_the_move_decides(board: Board, from: Vec2, to: Vec2)
    requires
        board.at(from) is Some,
    ensures
        forall|i: int|
            0 <= i < board.valid_moves(from, true).len() && (#[trigger] board.valid_moves(
                from,
                true,
            )[i]).pos == to ==> board.move_result(from, to) == board.valid_moves(from, true)[i].result,
        board.move_result(from, to) is Invalid <==> forall|i: int|
            0 <= i < board.valid_moves(from, true).len() ==> (#[trigger] board.valid_moves(
                from,
                true,
            )[i]).pos != to,
{
    let moves = board.valid_moves(from, true);
    lemma_destinations_are_distinct(board, from, true);
    lemma_moves_are_well_formed(board, from, true);
    assert forall|i: int| 0 <= i < moves.len() && (#[trigger] moves[i]).pos == to implies board.move_result(
        from,
        to,
    ) == moves[i].result by {
        assert(is_first_onto(moves, to, i));
        lemma_first_move_decides(moves, to, i);
    }
    if exists|i: int| is_first_onto(moves, to, i) {
        let i = choose|i: int| is_first_onto(moves, to, i);
        assert(moves[i].pos == to);
        assert(!(moves[i].result is Invalid));
    }
}

/// Sending a piece anywhere never castles and never promotes.
pub proof fn lemma_no_castling_no_promotion(board: Board, from: Vec2, to: Vec2)
    ensures
        !(board.move_result(from, to) is Castle),
        !(board.move_result(from, to) is Promotion),
{
    if board.at(from) is Some {
        let moves = board.valid_moves(from, true);
        lemma_moves_are_well_formed(board, from, true);
        if exists|i: int| is_first_onto(moves, to, i) {
            let i = choose|i: int| is_first_onto(moves, to, i);
            assert(moves[i].result == board.move_result(from, to));
        }
    }
}

/// Sending a piece to the square it stands on drops the selection.
pub proof fn lemma_own_square_cancels(board: Board, from: Vec2)
    requires
        board.at(from) is Some,
    ensures
        board.move_result(from, from) == MoveResult::Cancel,
{
    let moves = board.valid_moves(from, true);
    assert(moves[0] == Move::null(from));
    lemma_first_move_decides(moves, from, 0);
}

/// A capture in passing removes the pawn beside the capturing pawn, not
/// what stands on the destination, which is empty.
///
/// Let the pawn `piece` stand on `pos`, a pawn of the other side on `flank`
/// directly to its left or right, and let the square one step forward of
/// `flank` be empty. Then sending the pawn to that square is a capture of
/// `flank`. Carrying it out leaves `flank` and `pos` empty and the pawn on the
/// destination with one more move to its name, and changes no other square.
pub proof fn lemma_en_passant_takes_the_flank(board: Board, pos: Vec2, piece: Piece, flank: Vec2)
    requires
        board.at(pos) == Some(piece),
        piece.ty == PieceType::Pawn,
        flank == pos.plus(Vec2::left()) || flank == pos.plus(Vec2::right()),
        board.vacant(flank.plus(piece.player.forward())),
        board.at(flank) matches Some(p) && p.ty == PieceType::Pawn && p.player != piece.player,
    ensures
        ({
            let target = flank.plus(piece.player.forward());
            let after = relocated(without(board@, flank), pos, target);
            &&& board.move_result(pos, target) == MoveResult::Capture(flank)
            &&& target != flank
            &&& !after.contains_key(flank)
            &&& !after.contains_key(pos)
            &&& after.contains_key(target) && after[target] == piece.moved()
            &&& forall|other: Vec2|
                other != flank && other != pos && other != target ==> (after.contains_key(other)
                    == board@.contains_key(other) && after[other] == board@[other])
        }),
{
    let forward = piece.player.forward();
    let ahead = pos.plus(forward);
    let target = flank.plus(forward);
    let a = pawn_capture(board, piece.player, ahead.plus(Vec2::right()));
    let b = pawn_capture(board, piece.player, ahead.plus(Vec2::left()));
    let c = en_passant(board, piece.player, pos.plus(Vec2::left()), forward);
    let d = en_passant(board, piece.player, pos.plus(Vec2::right()), forward);
    let moves = board.valid_moves(pos, true);
    let i = if flank == pos.plus(Vec2::left()) {
        1 + a.len() + b.len()
    } else {
        1 + a.len() + b.len() + c.len()
    };
    assert(moves[i as int] == Move::new(target, MoveResult::Capture(flank)));
    assert(is_first_onto(moves, target, i as int));
    lemma_first_move_decides(moves, target, i as int);
}

/// An action on a square that holds no piece of the player to move, be it
/// empty or the opponent's, changes nothing: nothing is held afterwards and
/// the board is as it was.
pub proof fn lemma_foreign_square_is_ignored(before: GameState, after: GameState)
    requires
        before.mode == Mode::Selecting,
        !before.holds_own_piece(),
        before.acted(after),
    ensures
        after.mode == Mode::Selecting,
        after.board == before.board,
        after == before,
{
}

/// Two actions on one square, the first of which picks up a piece, bring
/// the game back to where it was: the first holds the piece, the second
/// drops it again, and neither touches the board or the turn.
pub proof fn lemma_select_then_cancel(before: GameState, held: GameState, after: GameState)
    requires
        before.mode == Mode::Selecting,
        before.holds_own_piece(),
        before.acted(held),
        held.acted(after),
    ensures
        held.mode == Mode::Moving(before.cursor),
        held.board == before.board,
        after.mode == Mode::Selecting,
        after.board == before.board,
        after.turn == before.turn,
        after == before,
{
    lemma_own_square_cancels(held.board, held.cursor);
}

/// After an action that moves a piece, with or without a capture, the turn
/// has passed: the clock of the player who moved is stopped and shows no
/// more than before, and the clock of the player now to move runs.
pub proof fn lemma_move_passes_the_turn(before: GameState, after: GameState)
    requires
        before.about_to_move(),
        before.acted(after),
    ensures
        after.turn == before.turn.opponent(),
        after.mode == Mode::Selecting,
        !after.timer(before.turn).running(),
        after.timer(before.turn).stored() <= before.timer(before.turn).stored(),
        after.timer(after.turn).running(),
        after.clock_runs(),
{
}

/// Play goes on after every action: the cursor is still on the board, the
/// clock of the player to move still runs and the other one still stands.
pub proof fn lemma_play_goes_on(before: GameState, after: GameState)
    requires
        before.wf(),
        before.clock_runs(),
        before.acted(after),
    ensures
        after.wf(),
        after.clock_runs(),
{
}

/// No action adds a piece to the board.
pub proof fn lemma_action_adds_no_piece(before: GameState, after: GameState)
    requires
        before.acted(after),
    ensures
        after.board@.dom().finite(),
        after.board@.len() <= before.board@.len(),
{
    before.board.lemma_pieces_fit_the_board();
    after.board.lemma_pieces_fit_the_board();
    if let Mode::Moving(from) = before.mode {
        match before.board.move_result(from, before.cursor) {
            MoveResult::Nothing => {
                lemma_no_piece_is_added(before.board@, from, before.cursor);
            },
            MoveResult::Capture(taken) => {
                lemma_no_piece_is_added(before.board@, taken, taken);
                lemma_no_piece_is_added(without(before.board@, taken), from, before.cursor);
            },
            _ => {},
        }
    }
}

/// The starting position holds 32 pieces.
pub proof fn lemma_start_has_32_pieces()
    ensures
        layout_pieces(START_LAYOUT@).dom().finite(),
        layout_pieces(START_LAYOUT@).len() == 32,
{
    reveal_strlit("RNBQKBNRPPPPPPPP................................pppppppprnbqkbnr");
    let text = START_LAYOUT@;
    let top = squares_between(0, 16);
    let bottom = squares_between(48, 64);
    lemma_squares_between(0, 16);
    lemma_squares_between(48, 64);
    assert forall|i: int| 0 <= i < 64 implies (letter_square(#[trigger] text[i]) is Some) == (i
        < 16 || i >= 48) by {}
    assert(layout_pieces(text).dom() =~= top.union(bottom));
    assert(top.disjoint(bottom));
    lemma_set_disjoint_lens(top, bottom);
}

impl Default for GameState {
    /// The game at its start: the starting position and ten minutes on each
    /// clock.
    fn default() -> (game: GameState)
        ensures
            game.board@ == layout_pieces(START_LAYOUT@),
            game.board@.len() == 32,
            game.wf(),
            game.turn == Player::White,
            game.cursor == (Vec2 { x: 0i16, y: 0i16 }),
            game.mode == Mode::Selecting,
            game.state == State::Paused,
            forall|i: int|
                0 <= i < 2 ==> !(#[trigger] game.timers[i]).running() && game.timers[i].stored()
                    == START_MILLIS,
    {
        proof {
            reveal_strlit("RNBQKBNRPPPPPPPP................................pppppppprnbqkbnr");
            lemma_start_has_32_pieces();
        }
        let board = Board::from_string(START_LAYOUT);
        GameState::new(board, START_MILLIS)
    }
}

} // verus!
