//! Where each kind of piece may go: the move sets as mathematical sequences,
//! and the generators that compute them.

use crate::board::{on_board, Board, QueryResult};
use crate::piece::{Piece, PieceType, Player};
use crate::rules::{Move, MoveResult};
use crate::vec2::Vec2;
use vstd::prelude::*;

verus! {

/// A step short enough that taking it from a square of the board cannot
/// leave the range of the coordinates.
pub open spec fn is_short(step: Vec2) -> bool {
    -8 <= step.x <= 8 && -8 <= step.y <= 8
}

/// The moves of one ray-walk: starting beside `from`, one `step` at a time
/// and at most `limit` steps far. Every empty square gives a plain move. The
/// walk ends where the board ends or at the first piece in the way; a piece
/// of the other side gives one last move, a capture.
pub open spec fn ray(board: Board, player: Player, from: Vec2, step: Vec2, limit: nat) -> Seq<Move>
    decreases limit,
{
    let next = from.plus(step);
    if limit == 0 || !on_board(next) {
        Seq::empty()
    } else {
        match board.at(next) {
            Some(piece) => if piece.player != player {
                seq![Move::capture(next)]
            } else {
                Seq::empty()
            },
            None => seq![Move::to(next)] + ray(board, player, next, step, (limit - 1) as nat),
        }
    }
}

/// The moves of the ray-walks along each of `steps` in turn.
pub open spec fn rays(
    board: Board,
    player: Player,
    from: Vec2,
    steps: Seq<Vec2>,
    limit: nat,
) -> Seq<Move>
    decreases steps.len(),
{
    if steps.len() == 0 {
        Seq::empty()
    } else {
        rays(board, player, from, steps.drop_last(), limit) + ray(
            board,
            player,
            from,
            steps.last(),
            limit,
        )
    }
}

/// The eight jumps of a knight, in the order in which they are tried.
pub open spec fn knight_steps() -> Seq<Vec2> {
    seq![
        Vec2 { x: -1i16, y: -2i16 },
        Vec2 { x: -1i16, y: 2i16 },
        Vec2 { x: -2i16, y: -1i16 },
        Vec2 { x: -2i16, y: 1i16 },
        Vec2 { x: 1i16, y: -2i16 },
        Vec2 { x: 1i16, y: 2i16 },
        Vec2 { x: 2i16, y: -1i16 },
        Vec2 { x: 2i16, y: 1i16 },
    ]
}

/// Whether `c` is one of the four amounts by which a knight's jump changes a
/// coordinate.
pub open spec fn is_jump_coordinate(c: int) -> bool {
    c == -1 || c == -2 || c == 1 || c == 2
}

/// The place of a jump coordinate in the order -1, -2, 1, 2.
pub open spec fn jump_rank(c: int) -> int {
    if c == -1 {
        0
    } else if c == -2 {
        1
    } else if c == 1 {
        2
    } else {
        3
    }
}

/// Whether `v` is a knight's jump: one coordinate changes by one and the
/// other by two.
pub open spec fn is_knight_jump(v: Vec2) -> bool {
    &&& is_jump_coordinate(v.x as int)
    &&& is_jump_coordinate(v.y as int)
    &&& (v.x == 1 || v.x == -1) != (v.y == 1 || v.y == -1)
}

/// A king steps one square along a rank or file.
pub open spec fn king_moves(board: Board, pos: Vec2, player: Player) -> Seq<Move> {
    rays(board, player, pos, Vec2::axis_steps(), 1)
}

/// A rook slides along ranks and files.
pub open spec fn rook_moves(board: Board, pos: Vec2, player: Player) -> Seq<Move> {
    rays(board, player, pos, Vec2::axis_steps(), 8)
}

/// A bishop slides along diagonals.
pub open spec fn bishop_moves(board: Board, pos: Vec2, player: Player) -> Seq<Move> {
    rays(board, player, pos, Vec2::diag_steps(), 8)
}

/// A queen has the moves of a rook, then those of a bishop.
pub open spec fn queen_moves(board: Board, pos: Vec2, player: Player) -> Seq<Move> {
    rook_moves(board, pos, player) + bishop_moves(board, pos, player)
}

/// A knight tries each of its eight jumps as a walk of one step, so only the
/// square it lands on matters.
pub open spec fn knight_moves(board: Board, pos: Vec2, player: Player) -> Seq<Move> {
    rays(board, player, pos, knight_steps(), 1)
}

/// A pawn captures onto `target` if a piece of the other side stands there.
pub open spec fn pawn_capture(board: Board, player: Player, target: Vec2) -> Seq<Move> {
    if board.hostile(target, player) {
        seq![Move::capture(target)]
    } else {
        Seq::empty()
    }
}

/// A pawn captures in passing: a pawn of the other side stands on `flank`,
/// beside it, and the square one step `forward` of `flank` is empty. The pawn
/// moves onto that empty square and the pawn on `flank` is removed.
pub open spec fn en_passant(board: Board, player: Player, flank: Vec2, forward: Vec2) -> Seq<
    Move,
> {
    let target = flank.plus(forward);
    if board.vacant(target) && (board.at(flank) matches Some(p) && p.ty == PieceType::Pawn
        && p.player != player) {
        seq![Move::new(target, MoveResult::Capture(flank))]
    } else {
        Seq::empty()
    }
}

/// A pawn advances onto `target` if that square is empty.
pub open spec fn pawn_advance(board: Board, target: Vec2) -> Seq<Move> {
    if board.vacant(target) {
        seq![Move::to(target)]
    } else {
        Seq::empty()
    }
}

/// Whether a pawn may advance two squares onto `target`: it has not moved yet
/// and `target` is empty. The square in between is not looked at.
pub open spec fn double_step_allowed(board: Board, piece: Piece, target: Vec2) -> bool {
    piece.move_count == 0 && board.vacant(target)
}

/// The moves of the pawn `piece` on `pos`: the captures to the right and to
/// the left ahead, the captures in passing of the left and of the right
/// neighbour, one step ahead, two steps ahead.
pub open spec fn pawn_moves(board: Board, pos: Vec2, piece: Piece) -> Seq<Move> {
    let forward = piece.player.forward();
    let ahead = pos.plus(forward);
    let far = ahead.plus(forward);
    pawn_capture(board, piece.player, ahead.plus(Vec2::right())) + pawn_capture(
        board,
        piece.player,
        ahead.plus(Vec2::left()),
    ) + en_passant(board, piece.player, pos.plus(Vec2::left()), forward) + en_passant(
        board,
        piece.player,
        pos.plus(Vec2::right()),
        forward,
    ) + pawn_advance(board, ahead) + if double_step_allowed(board, piece, far) {
        seq![Move::to(far)]
    } else {
        Seq::empty()
    }
}

/// The moves of `piece` standing on `pos`, by its kind.
pub open spec fn piece_moves(board: Board, pos: Vec2, piece: Piece) -> Seq<Move> {
    match piece.ty {
        PieceType::King => king_moves(board, pos, piece.player),
        PieceType::Queen => queen_moves(board, pos, piece.player),
        PieceType::Bishop => bishop_moves(board, pos, piece.player),
        PieceType::Knight => knight_moves(board, pos, piece.player),
        PieceType::Rook => rook_moves(board, pos, piece.player),
        PieceType::Pawn => pawn_moves(board, pos, piece),
    }
}

/// The shape of every generated move: it ends on the board, a plain move on
/// an empty square, a capture by removing a piece of the other side, which
/// stands on the destination unless the destination is empty.
pub open spec fn well_formed(board: Board, player: Player, m: Move) -> bool {
    &&& on_board(m.pos)
    &&& match m.result {
        MoveResult::Nothing => board.vacant(m.pos),
        MoveResult::Capture(taken) => board.hostile(taken, player) && (taken == m.pos
            || board.vacant(m.pos)),
        _ => false,
    }
}

impl Board {
    /// The legal moves of the piece on `pos` in the order of generation. With
    /// `inc_cancel` the list starts with the pseudo-move that targets `pos`
    /// itself and drops the selection.
    pub open spec fn valid_moves(&self, pos: Vec2, inc_cancel: bool) -> Seq<Move> {
        let cancel = if inc_cancel {
            seq![Move::null(pos)]
        } else {
            Seq::empty()
        };
        match self.at(pos) {
            Some(piece) => cancel + piece_moves(*self, pos, piece),
            None => cancel,
        }
    }

    /// Computes the legal moves of the piece on `pos`. There must be one.
    pub fn get_valid_moves(&self, pos: Vec2, inc_cancel: bool) -> (moves: Vec<Move>)
        requires
            self.at(pos) is Some,
        ensures
            moves@ == self.valid_moves(pos, inc_cancel),
            forall|i: int| 0 <= i < moves@.len() ==> on_board(#[trigger] moves@[i].pos),
    {
        let mut valid: Vec<Move> = Vec::new();
        if inc_cancel {
            valid.push(Move::null(pos));
        }
        let ghost cancel = valid@;
        match self.get(pos) {
            Some(piece) => {
                match piece.ty {
                    PieceType::King => valid_king_moves(self, pos, piece, &mut valid),
                    PieceType::Queen => valid_queen_moves(self, pos, piece, &mut valid),
                    PieceType::Bishop => valid_bishop_moves(self, pos, piece, &mut valid),
                    PieceType::Knight => valid_knight_moves(self, pos, piece, &mut valid),
                    PieceType::Rook => valid_rook_moves(self, pos, piece, &mut valid),
                    PieceType::Pawn => valid_pawn_moves(self, pos, piece, &mut valid),
                }
                assert(valid@ == cancel + piece_moves(*self, pos, *piece));
            },
            None => {},
        }
        assert(cancel =~= if inc_cancel {
            seq![Move::null(pos)]
        } else {
            Seq::empty()
        });
        proof {
            lemma_moves_are_well_formed(*self, pos, inc_cancel);
        }
        valid
    }
}

/// Appends to `results` the moves of the ray-walks from `pos` along each of
/// `steps`.
pub fn valid_linear_moves(
    board: &Board,
    player: Player,
    pos: Vec2,
    steps: &[Vec2],
    limit: usize,
    results: &mut Vec<Move>,
)
    requires
        on_board(pos),
        forall|i: int| 0 <= i < steps@.len() ==> is_short(#[trigger] steps@[i]),
    ensures
        final(results)@ == old(results)@ + rays(*board, player, pos, steps@, limit as nat),
{
    let ghost before = results@;
    let mut i: usize = 0;
    while i < steps.len()
        invariant
            i <= steps@.len(),
            on_board(pos),
            forall|i: int| 0 <= i < steps@.len() ==> is_short(#[trigger] steps@[i]),
            results@ == before + rays(*board, player, pos, steps@.take(i as int), limit as nat),
        decreases steps@.len() - i,
    {
        let step = steps[i];
        let ghost base = results@;
        let mut test = pos;
        let mut taken: usize = 0;
        while taken < limit
            invariant_except_break
                taken <= limit,
                on_board(test),
                is_short(step),
                base + ray(*board, player, pos, step, limit as nat) == results@ + ray(
                    *board,
                    player,
                    test,
                    step,
                    (limit - taken) as nat,
                ),
            ensures
                results@ == base + ray(*board, player, pos, step, limit as nat),
            decreases limit - taken,
        {
            let ghost rest = ray(*board, player, test, step, (limit - taken) as nat);
            test = test + step;
            match board.query_square(test) {
                QueryResult::Occupied(piece) => {
                    if piece.player != player {
                        results.push(Move::capture(test));
                    }
                    assert(results@ =~= base + ray(*board, player, pos, step, limit as nat));
                    break ;
                },
                QueryResult::Vacant => {
                    results.push(Move::to(test));
                    assert(rest == seq![Move::to(test)] + ray(
                        *board,
                        player,
                        test,
                        step,
                        (limit - taken - 1) as nat,
                    ));
                    assert(base + ray(*board, player, pos, step, limit as nat) =~= results@ + ray(
                        *board,
                        player,
                        test,
                        step,
                        (limit - taken - 1) as nat,
                    ));
                },
                QueryResult::Invalid => {
                    assert(results@ =~= base + ray(*board, player, pos, step, limit as nat));
                    break ;
                },
            }
            taken = taken + 1;
        }
        proof {
            let upto = steps@.take(i + 1);
            assert(upto.drop_last() =~= steps@.take(i as int));
            assert(upto.last() == step);
            assert(results@ =~= before + rays(*board, player, pos, upto, limit as nat));
        }
        i = i + 1;
    }
    assert(steps@.take(steps@.len() as int) =~= steps@);
}

/// Appends the moves of the king of `piece`'s side on `pos`.
pub fn valid_king_moves(board: &Board, pos: Vec2, piece: &Piece, results: &mut Vec<Move>)
    requires
        on_board(pos),
    ensures
        final(results)@ == old(results)@ + king_moves(*board, pos, piece.player),
{
    let steps = Vec2::axis();
    valid_linear_moves(board, piece.player, pos, steps.as_slice(), 1, results);
}

/// Appends the moves of a queen on `pos`.
pub fn valid_queen_moves(board: &Board, pos: Vec2, piece: &Piece, results: &mut Vec<Move>)
    requires
        on_board(pos),
    ensures
        final(results)@ == old(results)@ + queen_moves(*board, pos, piece.player),
{
    let axis = Vec2::axis();
    let diag = Vec2::diag();
    valid_linear_moves(board, piece.player, pos, axis.as_slice(), 8, results);
    valid_linear_moves(board, piece.player, pos, diag.as_slice(), 8, results);
    assert(results@ =~= old(results)@ + queen_moves(*board, pos, piece.player));
}

/// Appends the moves of a bishop on `pos`.
pub fn valid_bishop_moves(board: &Board, pos: Vec2, piece: &Piece, results: &mut Vec<Move>)
    requires
        on_board(pos),
    ensures
        final(results)@ == old(results)@ + bishop_moves(*board, pos, piece.player),
{
    let steps = Vec2::diag();
    valid_linear_moves(board, piece.player, pos, steps.as_slice(), 8, results);
}

/// Appends the moves of a knight on `pos`.
pub fn valid_knight_moves(board: &Board, pos: Vec2, piece: &Piece, results: &mut Vec<Move>)
    requires
        on_board(pos),
    ensures
        final(results)@ == old(results)@ + knight_moves(*board, pos, piece.player),
{
    let steps = [
        Vec2::new(-1, -2),
        Vec2::new(-1, 2),
        Vec2::new(-2, -1),
        Vec2::new(-2, 1),
        Vec2::new(1, -2),
        Vec2::new(1, 2),
        Vec2::new(2, -1),
        Vec2::new(2, 1),
    ];
    assert(steps@ =~= knight_steps());
    valid_linear_moves(board, piece.player, pos, steps.as_slice(), 1, results);
}

/// Appends the moves of a rook on `pos`.
pub fn valid_rook_moves(board: &Board, pos: Vec2, piece: &Piece, results: &mut Vec<Move>)
    requires
        on_board(pos),
    ensures
        final(results)@ == old(results)@ + rook_moves(*board, pos, piece.player),
{
    let steps = Vec2::axis();
    valid_linear_moves(board, piece.player, pos, steps.as_slice(), 8, results);
}

/// The one place that decides whether a pawn may advance two squares.
pub fn may_advance_two(board: &Board, piece: &Piece, target: Vec2) -> (allowed: bool)
    ensures
        allowed == double_step_allowed(*board, *piece, target),
{
    piece.move_count == 0 && matches!(board.is_vacant(target), Ok(true))
}

/// Appends the capture onto `target`, if a pawn of `player` has one there.
fn push_pawn_capture(board: &Board, player: Player, target: Vec2, results: &mut Vec<Move>)
    ensures
        final(results)@ == old(results)@ + pawn_capture(*board, player, target),
{
    if let Ok(true) = board.is_opponent(target, player) {
        results.push(Move::new(target, MoveResult::Capture(target)));
    }
    assert(results@ =~= old(results)@ + pawn_capture(*board, player, target));
}

/// Appends the capture in passing of the pawn on `flank`, if there is one.
fn push_en_passant(
    board: &Board,
    player: Player,
    flank: Vec2,
    forward: Vec2,
    results: &mut Vec<Move>,
)
    requires
        flank.can_add(forward),
    ensures
        final(results)@ == old(results)@ + en_passant(*board, player, flank, forward),
{
    if let Ok(true) = board.is_vacant(flank + forward) {
        if let Some(other) = board.get(flank) {
            if other.ty == PieceType::Pawn && other.player != player {
                results.push(Move::new(flank + forward, MoveResult::Capture(flank)));
            }
        }
    }
    assert(results@ =~= old(results)@ + en_passant(*board, player, flank, forward));
}

/// Appends the plain move onto `target`, if that square is empty.
fn push_pawn_advance(board: &Board, target: Vec2, results: &mut Vec<Move>)
    ensures
        final(results)@ == old(results)@ + pawn_advance(*board, target),
{
    if let Ok(true) = board.is_vacant(target) {
        results.push(Move::new(target, MoveResult::Nothing));
    }
    assert(results@ =~= old(results)@ + pawn_advance(*board, target));
}

/// Appends the move two squares ahead onto `target`, if the pawn may make it.
fn push_double_step(board: &Board, piece: &Piece, target: Vec2, results: &mut Vec<Move>)
    ensures
        final(results)@ == old(results)@ + if double_step_allowed(*board, *piece, target) {
            seq![Move::to(target)]
        } else {
            Seq::empty()
        },
{
    if may_advance_two(board, piece, target) {
        results.push(Move::new(target, MoveResult::Nothing));
    }
    assert(results@ =~= old(results)@ + if double_step_allowed(*board, *piece, target) {
        seq![Move::to(target)]
    } else {
        Seq::empty()
    });
}

/// Appending to a sequence in two goes appends the two parts joined.
proof fn lemma_append_twice(s: Seq<Move>, a: Seq<Move>, b: Seq<Move>)
    ensures
        (s + a) + b == s + (a + b),
{
    assert((s + a) + b =~= s + (a + b));
}

/// Appends the moves of the pawn `piece` on `pos`.
pub fn valid_pawn_moves(board: &Board, pos: Vec2, piece: &Piece, results: &mut Vec<Move>)
    requires
        on_board(pos),
    ensures
        final(results)@ == old(results)@ + pawn_moves(*board, pos, *piece),
{
    let dir = piece.player.forward();
    let ahead = pos + dir;
    let far = ahead + dir;
    let ghost start = results@;

    push_pawn_capture(board, piece.player, ahead + Vec2::right(), results);
    let ghost a = pawn_capture(*board, piece.player, ahead.plus(Vec2::right()));
    push_pawn_capture(board, piece.player, ahead + Vec2::left(), results);
    let ghost b = pawn_capture(*board, piece.player, ahead.plus(Vec2::left()));
    push_en_passant(board, piece.player, pos + Vec2::left(), dir, results);
    let ghost c = en_passant(*board, piece.player, pos.plus(Vec2::left()), dir);
    push_en_passant(board, piece.player, pos + Vec2::right(), dir, results);
    let ghost d = en_passant(*board, piece.player, pos.plus(Vec2::right()), dir);
    push_pawn_advance(board, ahead, results);
    let ghost e = pawn_advance(*board, ahead);
    push_double_step(board, piece, far, results);
    let ghost f = if double_step_allowed(*board, *piece, far) {
        seq![Move::to(far)]
    } else {
        Seq::empty()
    };
    proof {
        assert(results@ == start + a + b + c + d + e + f);
        lemma_append_twice(start, a, b);
        lemma_append_twice(start, a + b, c);
        lemma_append_twice(start, a + b + c, d);
        lemma_append_twice(start, a + b + c + d, e);
        lemma_append_twice(start, a + b + c + d + e, f);
        assert(pawn_moves(*board, pos, *piece) == a + b + c + d + e + f);
    }
}

/// Every move of a ray-walk is well formed.
proof fn lemma_ray_well_formed(board: Board, player: Player, from: Vec2, step: Vec2, limit: nat)
    requires
        on_board(from),
        is_short(step),
    ensures
        forall|i: int|
            0 <= i < ray(board, player, from, step, limit).len() ==> well_formed(
                board,
                player,
                #[trigger] ray(board, player, from, step, limit)[i],
            ),
    decreases limit,
{
    let next = from.plus(step);
    let walk = ray(board, player, from, step, limit);
    if limit > 0 && on_board(next) && board.at(next) is None {
        let rest = ray(board, player, next, step, (limit - 1) as nat);
        lemma_ray_well_formed(board, player, next, step, (limit - 1) as nat);
        assert forall|i: int| 0 <= i < walk.len() implies well_formed(
            board,
            player,
            #[trigger] walk[i],
        ) by {
            if i > 0 {
                assert(walk[i] == rest[i - 1]);
            }
        }
    }
}

/// Every move of a bundle of ray-walks is well formed.
proof fn lemma_rays_well_formed(
    board: Board,
    player: Player,
    from: Vec2,
    steps: Seq<Vec2>,
    limit: nat,
)
    requires
        on_board(from),
        forall|i: int| 0 <= i < steps.len() ==> is_short(#[trigger] steps[i]),
    ensures
        forall|i: int|
            0 <= i < rays(board, player, from, steps, limit).len() ==> well_formed(
                board,
                player,
                #[trigger] rays(board, player, from, steps, limit)[i],
            ),
    decreases steps.len(),
{
    if steps.len() > 0 {
        let all = rays(board, player, from, steps, limit);
        let head = rays(board, player, from, steps.drop_last(), limit);
        let tail = ray(board, player, from, steps.last(), limit);
        lemma_rays_well_formed(board, player, from, steps.drop_last(), limit);
        lemma_ray_well_formed(board, player, from, steps.last(), limit);
        assert forall|i: int| 0 <= i < all.len() implies well_formed(
            board,
            player,
            #[trigger] all[i],
        ) by {
            if i < head.len() {
                assert(all[i] == head[i]);
            } else {
                assert(all[i] == tail[i - head.len()]);
            }
        }
    }
}

/// Every move of a pawn is well formed.
proof fn lemma_pawn_well_formed(board: Board, pos: Vec2, piece: Piece)
    requires
        on_board(pos),
    ensures
        forall|i: int|
            0 <= i < pawn_moves(board, pos, piece).len() ==> well_formed(
                board,
                piece.player,
                #[trigger] pawn_moves(board, pos, piece)[i],
            ),
{
}

/// No generated move leaves the board, and each is either the cancelling
/// pseudo-move at the head of the list or well formed: a plain move onto an
/// empty square or the capture of a piece of the other side. Castling and
/// promotion never occur.
pub proof fn lemma_moves_are_well_formed(board: Board, pos: Vec2, inc_cancel: bool)
    requires
        board.at(pos) is Some,
    ensures
        forall|i: int|
            0 <= i < board.valid_moves(pos, inc_cancel).len() ==> {
                let m = #[trigger] board.valid_moves(pos, inc_cancel)[i];
                &&& on_board(m.pos)
                &&& (inc_cancel && i == 0 && m == Move::null(pos)) || well_formed(
                    board,
                    board.at(pos)->0.player,
                    m,
                )
            },
{
    let piece = board.at(pos)->0;
    let player = piece.player;
    lemma_rays_well_formed(board, player, pos, Vec2::axis_steps(), 1);
    lemma_rays_well_formed(board, player, pos, Vec2::axis_steps(), 8);
    lemma_rays_well_formed(board, player, pos, Vec2::diag_steps(), 8);
    lemma_rays_well_formed(board, player, pos, knight_steps(), 1);
    lemma_pawn_well_formed(board, pos, piece);
}

/// The square that a walk has reached after `done` of the moves in `walk`:
/// the start before the first move, the last destination after that.
pub open spec fn reached(from: Vec2, walk: Seq<Move>, done: int) -> Vec2 {
    if done <= 0 {
        from
    } else {
        walk[done - 1].pos
    }
}

/// Whether a piece of `player` walking onto `target` is stopped short of
/// it: the board ends there, or a piece of its own side stands on it.
pub open spec fn blocked(board: Board, player: Player, target: Vec2) -> bool {
    !on_board(target) || (board.at(target) matches Some(p) && p.player == player)
}

/// What a piece of `player` gets from the one square `target`: a plain move
/// if it is empty, a capture if a piece of the other side stands on it, and
/// nothing if it is blocked.
pub open spec fn landing(board: Board, player: Player, target: Vec2) -> Seq<Move> {
    if board.vacant(target) {
        seq![Move::to(target)]
    } else if board.hostile(target, player) {
        seq![Move::capture(target)]
    } else {
        Seq::empty()
    }
}

/// A ray-walk never jumps over a piece.
///
/// Its moves visit the squares of one line in order, each one step beyond
/// the one before, so the `i`-th move ends `i + 1` steps from the start. All
/// of them end on the board. Every move but the last ends on an empty square
/// and is a plain move; the last is a plain move onto an empty square or the
/// capture of a piece of the other side that stands there. The walk ends
/// only when it has made `limit` moves, or has captured, or is blocked: by
/// the edge of the board or by a piece of the walking side.
pub proof fn lemma_ray_stops_at_first_piece(
    board: Board,
    player: Player,
    from: Vec2,
    step: Vec2,
    limit: nat,
)
    requires
        on_board(from),
        is_short(step),
    ensures
        ({
            let walk = ray(board, player, from, step, limit);
            &&& walk.len() <= limit
            &&& forall|i: int|
                0 <= i < walk.len() ==> {
                    let m = #[trigger] walk[i];
                    &&& on_board(m.pos)
                    &&& m.pos == reached(from, walk, i).plus(step)
                    &&& m.pos.x == from.x + (i + 1) * step.x
                    &&& m.pos.y == from.y + (i + 1) * step.y
                    &&& i < walk.len() - 1 ==> board.vacant(m.pos)
                    &&& m == if board.vacant(m.pos) {
                        Move::to(m.pos)
                    } else {
                        Move::capture(m.pos)
                    }
                    &&& !board.vacant(m.pos) ==> board.hostile(m.pos, player)
                }
            &&& walk.len() == limit || (walk.len() > 0 && walk.last().result is Capture) || blocked(
                board,
                player,
                reached(from, walk, walk.len() as int).plus(step),
            )
        }),
    decreases limit,
{
    let next = from.plus(step);
    let walk = ray(board, player, from, step, limit);
    if limit > 0 && on_board(next) && board.at(next) is None {
        let rest = ray(board, player, next, step, (limit - 1) as nat);
        lemma_ray_stops_at_first_piece(board, player, next, step, (limit - 1) as nat);
        assert(walk == seq![Move::to(next)] + rest);
        assert forall|i: int| 0 <= i < walk.len() implies {
            let m = #[trigger] walk[i];
            &&& on_board(m.pos)
            &&& m.pos == reached(from, walk, i).plus(step)
            &&& m.pos.x == from.x + (i + 1) * step.x
            &&& m.pos.y == from.y + (i + 1) * step.y
            &&& i < walk.len() - 1 ==> board.vacant(m.pos)
            &&& m == if board.vacant(m.pos) {
                Move::to(m.pos)
            } else {
                Move::capture(m.pos)
            }
            &&& !board.vacant(m.pos) ==> board.hostile(m.pos, player)
        } by {
            if i > 0 {
                assert(walk[i] == rest[i - 1]);
                assert(reached(from, walk, i) == reached(next, rest, i - 1));
                assert((i + 1) * step.x == i * step.x + step.x) by (nonlinear_arith);
                assert((i + 1) * step.y == i * step.y + step.y) by (nonlinear_arith);
            }
        }
        if rest.len() > 0 {
            assert(walk.last() == rest.last());
        }
        assert(reached(from, walk, walk.len() as int) == reached(next, rest, rest.len() as int));
    }
}

/// A walk of a single step looks at nothing but the square it lands on.
pub proof fn lemma_single_step_is_landing(board: Board, player: Player, from: Vec2, step: Vec2)
    ensures
        ray(board, player, from, step, 1) == landing(board, player, from.plus(step)),
{
    let next = from.plus(step);
    assert(ray(board, player, next, step, 0) == Seq::<Move>::empty());
    assert(ray(board, player, from, step, 1) =~= landing(board, player, next));
}

/// The moves of bundles of walks along the same steps agree if each walk
/// does.
proof fn lemma_rays_agree(
    a: Board,
    b: Board,
    player: Player,
    from: Vec2,
    steps: Seq<Vec2>,
    limit: nat,
)
    requires
        forall|k: int|
            0 <= k < steps.len() ==> ray(a, player, from, #[trigger] steps[k], limit) == ray(
                b,
                player,
                from,
                steps[k],
                limit,
            ),
    ensures
        rays(a, player, from, steps, limit) == rays(b, player, from, steps, limit),
    decreases steps.len(),
{
    if steps.len() > 0 {
        let init = steps.drop_last();
        assert forall|k: int| 0 <= k < init.len() implies ray(
            a,
            player,
            from,
            #[trigger] init[k],
            limit,
        ) == ray(b, player, from, init[k], limit) by {
            assert(init[k] == steps[k]);
        }
        lemma_rays_agree(a, b, player, from, init, limit);
        assert(steps.last() == steps[steps.len() - 1]);
    }
}

/// The knight's steps are its eight jumps, each once, in the order in which
/// one meets them by letting `x` go through -1, -2, 1, 2 and, for each `x`,
/// `y` through the same values.
pub proof fn lemma_knight_steps_in_order()
    ensures
        knight_steps().len() == 8,
        forall|v: Vec2| is_knight_jump(v) <==> knight_steps().contains(v),
        forall|i: int, j: int|
            0 <= i < j < 8 ==> 4 * jump_rank(#[trigger] knight_steps()[i].x as int) + jump_rank(
                knight_steps()[i].y as int,
            ) < 4 * jump_rank(#[trigger] knight_steps()[j].x as int) + jump_rank(
                knight_steps()[j].y as int,
            ),
{
    let steps = knight_steps();
    assert forall|v: Vec2| is_knight_jump(v) implies steps.contains(v) by {
        let k: int = if v.x == -1 {
            if v.y == -2 {
                0
            } else {
                1
            }
        } else if v.x == -2 {
            if v.y == -1 {
                2
            } else {
                3
            }
        } else if v.x == 1 {
            if v.y == -2 {
                4
            } else {
                5
            }
        } else if v.y == -1 {
            6
        } else {
            7
        };
        assert(steps[k] == v);
    }
}

/// A knight ignores what stands in its way: its moves are the same on any
/// two boards that hold the same on the eight squares it can jump to. Each of
/// those squares is judged by itself, as [`landing`] says.
pub proof fn lemma_knight_ignores_the_way(a: Board, b: Board, pos: Vec2, player: Player)
    requires
        forall|k: int|
            0 <= k < 8 ==> a.at(pos.plus(#[trigger] knight_steps()[k])) == b.at(
                pos.plus(knight_steps()[k]),
            ),
    ensures
        knight_moves(a, pos, player) == knight_moves(b, pos, player),
        forall|k: int|
            0 <= k < 8 ==> ray(a, player, pos, #[trigger] knight_steps()[k], 1) == landing(
                a,
                player,
                pos.plus(knight_steps()[k]),
            ),
{
    let steps = knight_steps();
    assert forall|k: int| 0 <= k < steps.len() implies ray(a, player, pos, #[trigger] steps[k], 1)
        == ray(b, player, pos, steps[k], 1) by {
        lemma_single_step_is_landing(a, player, pos, steps[k]);
        lemma_single_step_is_landing(b, player, pos, steps[k]);
    }
    lemma_rays_agree(a, b, player, pos, steps, 1);
    assert forall|k: int| 0 <= k < 8 implies ray(a, player, pos, #[trigger] knight_steps()[k], 1)
        == landing(a, player, pos.plus(knight_steps()[k])) by {
        lemma_single_step_is_landing(a, player, pos, knight_steps()[k]);
    }
}

/// A pawn reaches the square two steps ahead exactly if it has not moved yet
/// and that square is empty; then it gets there by a plain move. A pawn that
/// has moved never gets there, whatever stands on it.
pub proof fn lemma_pawn_double_step(board: Board, pos: Vec2, piece: Piece)
    requires
        on_board(pos),
    ensures
        ({
            let forward = piece.player.forward();
            let far = pos.plus(forward).plus(forward);
            let moves = pawn_moves(board, pos, piece);
            &&& (exists|i: int| 0 <= i < moves.len() && (#[trigger] moves[i]).pos == far) <==> (
            piece.move_count == 0 && board.vacant(far))
            &&& forall|i: int|
                0 <= i < moves.len() && (#[trigger] moves[i]).pos == far ==> moves[i] == Move::to(
                    far,
                )
        }),
{
    let forward = piece.player.forward();
    let far = pos.plus(forward).plus(forward);
    let moves = pawn_moves(board, pos, piece);
    if piece.move_count == 0 && board.vacant(far) {
        assert(moves[moves.len() - 1].pos == far);
    }
}

/// Whether `a` steps of `s` and `b` steps of `t` lead to the same place.
pub open spec fn meet(s: Vec2, t: Vec2, a: int, b: int) -> bool {
    a * s.x == b * t.x && a * s.y == b * t.y
}

/// Whether `pos` lies `a` steps of `step` from `from`.
pub open spec fn lies_at(pos: Vec2, from: Vec2, step: Vec2, a: int) -> bool {
    pos.x == from.x + a * step.x && pos.y == from.y + a * step.y
}

/// Whether walks of up to `limit` steps along `steps` spread out: each step
/// leads somewhere, and walks along two of them never meet.
pub open spec fn spread(steps: Seq<Vec2>, limit: nat) -> bool {
    &&& forall|k: int| 0 <= k < steps.len() ==> #[trigger] steps[k] != (Vec2 { x: 0, y: 0 })
    &&& forall|j: int, k: int, a: int, b: int|
        0 <= j < k < steps.len() && 1 <= a <= limit && 1 <= b <= limit ==> !#[trigger] meet(
            steps[j],
            steps[k],
            a,
            b,
        )
}

/// Whether walks of up to `limit` steps along a step of `some` and along a
/// step of `others` never meet.
pub open spec fn apart(some: Seq<Vec2>, others: Seq<Vec2>, limit: nat) -> bool {
    forall|j: int, k: int, a: int, b: int|
        0 <= j < some.len() && 0 <= k < others.len() && 1 <= a <= limit && 1 <= b <= limit
            ==> !#[trigger] meet(some[j], others[k], a, b)
}

/// Whether the moves in `moves` end on different squares, none of them
/// `from`.
pub open spec fn scattered(moves: Seq<Move>, from: Vec2) -> bool {
    &&& forall|n: int| 0 <= n < moves.len() ==> (#[trigger] moves[n]).pos != from
    &&& forall|n: int, m: int|
        0 <= n < m < moves.len() ==> (#[trigger] moves[n]).pos != (#[trigger] moves[m]).pos
}

/// Whether the moves in `moves` are scattered and each ends at most `limit`
/// steps from `from` along one of `steps`.
pub open spec fn fans_out(moves: Seq<Move>, from: Vec2, steps: Seq<Vec2>, limit: nat) -> bool {
    &&& scattered(moves, from)
    &&& forall|n: int|
        0 <= n < moves.len() ==> exists|k: int, a: int|
            0 <= k < steps.len() && 1 <= a <= limit && #[trigger] lies_at(
                (#[trigger] moves[n]).pos,
                from,
                steps[k],
                a,
            )
}

/// A number of steps of one unit.
proof fn lemma_unit_multiple(a: int, unit: int)
    requires
        -1 <= unit <= 1,
    ensures
        a * unit == if unit == 0 {
            0
        } else if unit == 1 {
            a
        } else {
            -a
        },
{
    assert(a * 0 == 0);
    assert(a * 1 == a);
    assert(a * (-1) == -a);
}

/// Walks along two different steps to neighbouring squares never meet.
proof fn lemma_unit_steps_never_meet(s: Vec2, t: Vec2, a: int, b: int)
    requires
        -1 <= s.x <= 1 && -1 <= s.y <= 1,
        -1 <= t.x <= 1 && -1 <= t.y <= 1,
        s != t,
        a >= 1,
        b >= 1,
    ensures
        !meet(s, t, a, b),
{
    lemma_unit_multiple(a, s.x as int);
    lemma_unit_multiple(a, s.y as int);
    lemma_unit_multiple(b, t.x as int);
    lemma_unit_multiple(b, t.y as int);
}

/// The steps of king, rook, bishop and queen spread out, and so do the
/// jumps of the knight.
proof fn lemma_steps_spread()
    ensures
        spread(Vec2::axis_steps(), 8),
        spread(Vec2::axis_steps(), 1),
        spread(Vec2::diag_steps(), 8),
        apart(Vec2::axis_steps(), Vec2::diag_steps(), 8),
        spread(knight_steps(), 1),
{
    let axis = Vec2::axis_steps();
    let diag = Vec2::diag_steps();
    assert forall|j: int, k: int, a: int, b: int|
        0 <= j < k < axis.len() && 1 <= a && 1 <= b implies !#[trigger] meet(
        axis[j],
        axis[k],
        a,
        b,
    ) by {
        lemma_unit_steps_never_meet(axis[j], axis[k], a, b);
    }
    assert forall|j: int, k: int, a: int, b: int|
        0 <= j < k < diag.len() && 1 <= a && 1 <= b implies !#[trigger] meet(
        diag[j],
        diag[k],
        a,
        b,
    ) by {
        lemma_unit_steps_never_meet(diag[j], diag[k], a, b);
    }
    assert forall|j: int, k: int, a: int, b: int|
        0 <= j < axis.len() && 0 <= k < diag.len() && 1 <= a && 1 <= b implies !#[trigger] meet(
        axis[j],
        diag[k],
        a,
        b,
    ) by {
        lemma_unit_steps_never_meet(axis[j], diag[k], a, b);
    }
}

/// The moves of one ray-walk along a step that leads somewhere end on
/// different squares, none of them the start.
proof fn lemma_ray_fans_out(board: Board, player: Player, from: Vec2, step: Vec2, limit: nat)
    requires
        on_board(from),
        is_short(step),
        step != (Vec2 { x: 0, y: 0 }),
    ensures
        ({
            let walk = ray(board, player, from, step, limit);
            &&& walk.len() <= limit
            &&& scattered(walk, from)
            &&& forall|i: int|
                0 <= i < walk.len() ==> lies_at((#[trigger] walk[i]).pos, from, step, i + 1)
        }),
{
    let walk = ray(board, player, from, step, limit);
    lemma_ray_stops_at_first_piece(board, player, from, step, limit);
    assert forall|i: int| 0 <= i < walk.len() implies (#[trigger] walk[i]).pos != from by {
        assert((i + 1) * step.x != 0 || (i + 1) * step.y != 0) by (nonlinear_arith)
            requires
                i + 1 >= 1,
                step.x != 0 || step.y != 0,
        ;
    }
    assert forall|i: int, j: int| 0 <= i < j < walk.len() implies (#[trigger] walk[i]).pos != (
    #[trigger] walk[j]).pos by {
        assert((i + 1) * step.x != (j + 1) * step.x || (i + 1) * step.y != (j + 1) * step.y)
            by (nonlinear_arith)
            requires
                i < j,
                step.x != 0 || step.y != 0,
        ;
    }
}

/// The moves of a bundle of ray-walks along steps that spread out fan out.
proof fn lemma_rays_fan_out(
    board: Board,
    player: Player,
    from: Vec2,
    steps: Seq<Vec2>,
    limit: nat,
)
    requires
        on_board(from),
        forall|i: int| 0 <= i < steps.len() ==> is_short(#[trigger] steps[i]),
        spread(steps, limit),
    ensures
        fans_out(rays(board, player, from, steps, limit), from, steps, limit),
    decreases steps.len(),
{
    let all = rays(board, player, from, steps, limit);
    if steps.len() > 0 {
        let init = steps.drop_last();
        let last = steps.last();
        let head = rays(board, player, from, init, limit);
        let tail = ray(board, player, from, last, limit);
        assert(spread(init, limit)) by {
            assert forall|k: int| 0 <= k < init.len() implies #[trigger] init[k] != (Vec2 {
                x: 0,
                y: 0,
            }) by {
                assert(init[k] == steps[k]);
            }
            assert forall|j: int, k: int, a: int, b: int|
                0 <= j < k < init.len() && 1 <= a <= limit && 1 <= b <= limit implies !#[trigger] meet(
                init[j],
                init[k],
                a,
                b,
            ) by {
                assert(!meet(steps[j], steps[k], a, b));
            }
        }
        assert forall|i: int| 0 <= i < init.len() implies is_short(#[trigger] init[i]) by {
            assert(init[i] == steps[i]);
        }
        lemma_rays_fan_out(board, player, from, init, limit);
        assert(last == steps[steps.len() - 1]);
        lemma_ray_fans_out(board, player, from, last, limit);
        assert forall|n: int| 0 <= n < all.len() implies (#[trigger] all[n]).pos != from
            && exists|k: int, a: int|
            0 <= k < steps.len() && 1 <= a <= limit && #[trigger] lies_at(
                all[n].pos,
                from,
                steps[k],
                a,
            ) by {
            if n < head.len() {
                assert(all[n] == head[n]);
                let (k, a) = choose|k: int, a: int|
                    0 <= k < init.len() && 1 <= a <= limit && #[trigger] lies_at(
                        head[n].pos,
                        from,
                        init[k],
                        a,
                    );
                assert(init[k] == steps[k]);
                assert(lies_at(all[n].pos, from, steps[k], a));
            } else {
                let i = n - head.len();
                assert(all[n] == tail[i]);
                assert(lies_at(all[n].pos, from, steps[steps.len() - 1], i + 1));
            }
        }
        assert forall|n: int, m: int| 0 <= n < m < all.len() implies (#[trigger] all[n]).pos != (
        #[trigger] all[m]).pos by {
            if m < head.len() {
                assert(all[n] == head[n] && all[m] == head[m]);
            } else if n >= head.len() {
                assert(all[n] == tail[n - head.len()] && all[m] == tail[m - head.len()]);
            } else {
                let i = m - head.len();
                assert(all[n] == head[n] && all[m] == tail[i]);
                let (k, a) = choose|k: int, a: int|
                    0 <= k < init.len() && 1 <= a <= limit && #[trigger] lies_at(
                        head[n].pos,
                        from,
                        init[k],
                        a,
                    );
                assert(init[k] == steps[k]);
                assert(lies_at(tail[i].pos, from, last, i + 1));
                if head[n].pos == tail[i].pos {
                    assert(meet(steps[k], steps[steps.len() - 1], a, i + 1));
                }
            }
        }
    }
}

/// The moves of a queen end on different squares, none of them her own.
proof fn lemma_queen_fans_out(board: Board, pos: Vec2, player: Player)
    requires
        on_board(pos),
    ensures
        scattered(queen_moves(board, pos, player), pos),
{
    let axis = Vec2::axis_steps();
    let diag = Vec2::diag_steps();
    let all = queen_moves(board, pos, player);
    let head = rook_moves(board, pos, player);
    let tail = bishop_moves(board, pos, player);
    lemma_steps_spread();
    lemma_rays_fan_out(board, player, pos, axis, 8);
    lemma_rays_fan_out(board, player, pos, diag, 8);
    assert forall|n: int| 0 <= n < all.len() implies (#[trigger] all[n]).pos != pos by {
        if n < head.len() {
            assert(all[n] == head[n]);
        } else {
            assert(all[n] == tail[n - head.len()]);
        }
    }
    assert forall|n: int, m: int| 0 <= n < m < all.len() implies (#[trigger] all[n]).pos != (
    #[trigger] all[m]).pos by {
        if m < head.len() {
            assert(all[n] == head[n] && all[m] == head[m]);
        } else if n >= head.len() {
            assert(all[n] == tail[n - head.len()] && all[m] == tail[m - head.len()]);
        } else {
            let i = m - head.len();
            assert(all[n] == head[n] && all[m] == tail[i]);
            let (j, a) = choose|j: int, a: int|
                0 <= j < axis.len() && 1 <= a <= 8 && #[trigger] lies_at(
                    head[n].pos,
                    pos,
                    axis[j],
                    a,
                );
            let (k, b) = choose|k: int, b: int|
                0 <= k < diag.len() && 1 <= b <= 8 && #[trigger] lies_at(
                    tail[i].pos,
                    pos,
                    diag[k],
                    b,
                );
            if head[n].pos == tail[i].pos {
                assert(meet(axis[j], diag[k], a, b));
            }
        }
    }
}

/// The moves of a pawn end on different squares, none of them its own.
proof fn lemma_pawn_scattered(board: Board, pos: Vec2, piece: Piece)
    requires
        on_board(pos),
    ensures
        scattered(pawn_moves(board, pos, piece), pos),
{
    let forward = piece.player.forward();
    let ahead = pos.plus(forward);
    let far = ahead.plus(forward);
    let a = pawn_capture(board, piece.player, ahead.plus(Vec2::right()));
    let b = pawn_capture(board, piece.player, ahead.plus(Vec2::left()));
    let c = en_passant(board, piece.player, pos.plus(Vec2::left()), forward);
    let d = en_passant(board, piece.player, pos.plus(Vec2::right()), forward);
    let e = pawn_advance(board, ahead);
    let f = if double_step_allowed(board, piece, far) {
        seq![Move::to(far)]
    } else {
        Seq::empty()
    };
    let moves = pawn_moves(board, pos, piece);
    assert(moves == a + b + c + d + e + f);
    assert forall|n: int| 0 <= n < moves.len() implies {
        let m = #[trigger] moves[n];
        &&& m.pos.y == pos.y + forward.y || m.pos.y == pos.y + 2 * forward.y
        &&& n < a.len() ==> m.pos.x == pos.x + 1 && m.pos.y == ahead.y && board.at(m.pos) is Some
        &&& a.len() <= n < a.len() + b.len() ==> m.pos.x == pos.x - 1 && m.pos.y == ahead.y
            && board.at(m.pos) is Some
        &&& a.len() + b.len() <= n < a.len() + b.len() + c.len() ==> m.pos.x == pos.x - 1
            && m.pos.y == ahead.y && board.at(m.pos) is None
        &&& a.len() + b.len() + c.len() <= n < a.len() + b.len() + c.len() + d.len() ==> m.pos.x
            == pos.x + 1 && m.pos.y == ahead.y && board.at(m.pos) is None
        &&& a.len() + b.len() + c.len() + d.len() <= n < a.len() + b.len() + c.len() + d.len()
            + e.len() ==> m.pos == ahead
        &&& a.len() + b.len() + c.len() + d.len() + e.len() <= n ==> m.pos == far
    } by {}
}

/// The moves of a piece end on different squares, none of them its own.
proof fn lemma_piece_scattered(board: Board, pos: Vec2, piece: Piece)
    requires
        on_board(pos),
    ensures
        scattered(piece_moves(board, pos, piece), pos),
{
    let player = piece.player;
    lemma_steps_spread();
    match piece.ty {
        PieceType::King => lemma_rays_fan_out(board, player, pos, Vec2::axis_steps(), 1),
        PieceType::Queen => lemma_queen_fans_out(board, pos, player),
        PieceType::Bishop => lemma_rays_fan_out(board, player, pos, Vec2::diag_steps(), 8),
        PieceType::Knight => lemma_rays_fan_out(board, player, pos, knight_steps(), 1),
        PieceType::Rook => lemma_rays_fan_out(board, player, pos, Vec2::axis_steps(), 8),
        PieceType::Pawn => lemma_pawn_scattered(board, pos, piece),
    }
}

/// No two legal moves of a piece end on the same square, and none but the
/// cancelling pseudo-move ends on the piece's own square. So what sending a
/// piece to a square does is decided by the one move that ends there,
/// whatever the order of generation.
pub proof fn lemma_destinations_are_distinct(board: Board, pos: Vec2, inc_cancel: bool)
    requires
        board.at(pos) is Some,
    ensures
        scattered(board.valid_moves(pos, false), pos),
        forall|n: int, m: int|
            0 <= n < m < board.valid_moves(pos, inc_cancel).len() ==> (
            #[trigger] board.valid_moves(pos, inc_cancel)[n]).pos != (#[trigger] board.valid_moves(
                pos,
                inc_cancel,
            )[m]).pos,
{
    let piece = board.at(pos)->0;
    let own = piece_moves(board, pos, piece);
    let all = board.valid_moves(pos, inc_cancel);
    lemma_piece_scattered(board, pos, piece);
    assert(board.valid_moves(pos, false) =~= own);
    assert forall|n: int, m: int| 0 <= n < m < all.len() implies (#[trigger] all[n]).pos != (
    #[trigger] all[m]).pos by {
        if inc_cancel {
            assert(all[m] == own[m - 1]);
            if n > 0 {
                assert(all[n] == own[n - 1]);
            }
        } else {
            assert(all[n] == own[n] && all[m] == own[m]);
        }
    }
}

} // verus!
