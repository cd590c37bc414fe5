use chess_core::{
    Board, Chess, GameState, Mode, MoveResult, Piece, PieceType, Player, State, Vec2,
};

const EMPTY_RANK: &str = "........";

fn board_of(ranks: [&str; 8]) -> Board {
    let mut text = String::new();
    for rank in ranks {
        text.push_str(rank);
    }
    Board::from_string(&text)
}

fn started(board: Board) -> GameState {
    let mut game = GameState::new(board, 600_000);
    game.start();
    game
}

fn squares(game: &GameState) -> Vec<Option<Piece>> {
    let mut all = Vec::new();
    for y in 0..8i16 {
        for x in 0..8i16 {
            all.push(game.board.get(Vec2::new(x, y)).copied());
        }
    }
    all
}

fn pawn(player: Player, move_count: usize) -> Piece {
    Piece { ty: PieceType::Pawn, player, move_count }
}

#[test]
fn default_game_is_the_starting_position() {
    let game = GameState::default();
    assert_eq!(game.turn, Player::White);
    assert_eq!(game.cursor, Vec2::new(0, 0));
    assert_eq!(game.mode, Mode::Selecting);
    assert_eq!(game.state, State::Paused);
    assert!(!game.timers[0].is_running());
    assert!(!game.timers[1].is_running());
    assert_eq!(game.timers[0].remaining(), 600_000);
    assert_eq!(game.timers[1].remaining(), 600_000);
    let expected = board_of([
        "RNBQKBNR", "PPPPPPPP", EMPTY_RANK, EMPTY_RANK, EMPTY_RANK, EMPTY_RANK, "pppppppp",
        "rnbqkbnr",
    ]);
    for y in 0..8i16 {
        for x in 0..8i16 {
            let pos = Vec2::new(x, y);
            assert_eq!(game.board.get(pos), expected.get(pos));
        }
    }
    assert_eq!(
        game.board.get(Vec2::new(4, 7)),
        Some(&Piece { ty: PieceType::King, player: Player::White, move_count: 0 })
    );
    assert_eq!(
        game.board.get(Vec2::new(3, 0)),
        Some(&Piece { ty: PieceType::Queen, player: Player::Black, move_count: 0 })
    );
}

#[test]
fn chess_is_the_game_state() {
    let game: Chess = Chess::default();
    assert_eq!(game.turn, Player::White);
}

#[test]
fn start_runs_whites_clock_only() {
    let mut game = GameState::default();
    game.start();
    assert_eq!(game.state, State::Playing);
    assert!(game.timers[0].is_running());
    assert!(!game.timers[1].is_running());
    assert_eq!(game.turn, Player::White);
    assert_eq!(game.mode, Mode::Selecting);
}

#[test]
fn stop_halts_the_clock_of_the_player_to_move() {
    let mut game = GameState::default();
    game.start();
    game.stop();
    assert!(!game.timers[0].is_running());
    assert!(!game.timers[1].is_running());
    assert!(game.timers[0].remaining() <= 600_000);
    assert_eq!(game.timers[1].remaining(), 600_000);
    assert_eq!(game.state, State::Playing);
}

#[test]
fn change_player_swaps_turn_and_clocks() {
    let mut game = GameState::default();
    game.start();
    game.mode = Mode::Moving(Vec2::new(3, 6));
    game.change_player();
    assert_eq!(game.turn, Player::Black);
    assert_eq!(game.mode, Mode::Selecting);
    assert!(!game.timers[0].is_running());
    assert!(game.timers[1].is_running());
    game.change_player();
    assert_eq!(game.turn, Player::White);
    assert!(game.timers[0].is_running());
    assert!(!game.timers[1].is_running());
}

#[test]
fn quit_marks_the_game_for_leaving() {
    let mut game = GameState::default();
    game.start();
    game.quit();
    assert_eq!(game.state, State::Exit);
    assert_eq!(game.turn, Player::White);
    assert_eq!(game.mode, Mode::Selecting);
    assert!(game.timers[0].is_running());
}

#[test]
fn cursor_stays_on_the_board() {
    let mut game = GameState::default();
    game.move_cursor(Vec2::up());
    assert_eq!(game.cursor, Vec2::new(0, 0));
    game.move_cursor(Vec2::left());
    assert_eq!(game.cursor, Vec2::new(0, 0));
    game.move_cursor(Vec2::right());
    assert_eq!(game.cursor, Vec2::new(1, 0));
    game.move_cursor(Vec2::down());
    assert_eq!(game.cursor, Vec2::new(1, 1));
    for _ in 0..10 {
        game.move_cursor(Vec2::right());
        game.move_cursor(Vec2::down());
    }
    assert_eq!(game.cursor, Vec2::new(7, 7));
    game.move_cursor(Vec2::new(1, -3));
    assert_eq!(game.cursor, Vec2::new(7, 7));
    game.move_cursor(Vec2::new(-2, -3));
    assert_eq!(game.cursor, Vec2::new(5, 4));
    game.move_cursor(Vec2::new(i16::MAX, i16::MAX));
    assert_eq!(game.cursor, Vec2::new(5, 4));
    game.move_cursor(Vec2::new(i16::MIN, 0));
    assert_eq!(game.cursor, Vec2::new(5, 4));
    assert_eq!(game.mode, Mode::Selecting);
    assert_eq!(game.turn, Player::White);
}

#[test]
fn set_cursor_ignores_positions_off_the_board() {
    let mut game = GameState::default();
    game.set_cursor(Vec2::new(4, 5));
    assert_eq!(game.cursor, Vec2::new(4, 5));
    game.set_cursor(Vec2::new(8, 5));
    assert_eq!(game.cursor, Vec2::new(4, 5));
    game.set_cursor(Vec2::new(4, -1));
    assert_eq!(game.cursor, Vec2::new(4, 5));
    game.set_cursor(Vec2::new(7, 0));
    assert_eq!(game.cursor, Vec2::new(7, 0));
}

#[test]
fn cursor_piece_is_what_the_cursor_stands_on() {
    let mut game = GameState::default();
    assert_eq!(
        game.cursor_piece(),
        Some(&Piece { ty: PieceType::Rook, player: Player::Black, move_count: 0 })
    );
    game.set_cursor(Vec2::new(2, 3));
    assert_eq!(game.cursor_piece(), None);
    game.set_cursor(Vec2::new(2, 6));
    assert_eq!(game.cursor_piece(), Some(&pawn(Player::White, 0)));
}

#[test]
fn can_move_cursor_piece_needs_own_piece_with_a_move() {
    let mut game = GameState::default();
    game.start();
    game.set_cursor(Vec2::new(3, 6));
    assert!(game.can_move_cursor_piece());
    game.set_cursor(Vec2::new(1, 7));
    assert!(game.can_move_cursor_piece());
    game.set_cursor(Vec2::new(0, 7));
    assert!(!game.can_move_cursor_piece());
    game.set_cursor(Vec2::new(3, 1));
    assert!(!game.can_move_cursor_piece());
    game.set_cursor(Vec2::new(3, 3));
    assert!(!game.can_move_cursor_piece());
    assert_eq!(game.mode, Mode::Selecting);
}

#[test]
fn get_move_result_finds_the_first_move_onto_the_target() {
    let game = GameState::default();
    let pawn_at = Vec2::new(3, 6);
    assert_eq!(game.get_move_result(pawn_at, pawn_at), MoveResult::Cancel);
    assert_eq!(game.get_move_result(pawn_at, Vec2::new(3, 5)), MoveResult::Nothing);
    assert_eq!(game.get_move_result(pawn_at, Vec2::new(3, 4)), MoveResult::Nothing);
    assert_eq!(game.get_move_result(pawn_at, Vec2::new(3, 3)), MoveResult::Invalid);
    assert_eq!(game.get_move_result(pawn_at, Vec2::new(4, 5)), MoveResult::Invalid);
    assert_eq!(game.get_move_result(pawn_at, Vec2::new(3, -1)), MoveResult::Invalid);
    assert_eq!(game.get_move_result(Vec2::new(3, 3), Vec2::new(3, 3)), MoveResult::Invalid);
    assert_eq!(game.get_move_result(Vec2::new(-1, 3), Vec2::new(0, 3)), MoveResult::Invalid);
    let duel = GameState::new(
        board_of([
            "r......R", EMPTY_RANK, EMPTY_RANK, EMPTY_RANK, EMPTY_RANK, EMPTY_RANK, EMPTY_RANK,
            EMPTY_RANK,
        ]),
        1_000,
    );
    assert_eq!(
        duel.get_move_result(Vec2::new(0, 0), Vec2::new(7, 0)),
        MoveResult::Capture(Vec2::new(7, 0))
    );
    assert_eq!(duel.get_move_result(Vec2::new(0, 0), Vec2::new(6, 0)), MoveResult::Nothing);
}

#[test]
fn action_on_an_opponents_piece_or_an_empty_square_does_nothing() {
    let mut game = GameState::default();
    game.start();
    let before = squares(&game);
    game.set_cursor(Vec2::new(0, 0));
    game.action();
    assert_eq!(game.mode, Mode::Selecting);
    assert_eq!(squares(&game), before);
    assert_eq!(game.turn, Player::White);
    game.set_cursor(Vec2::new(3, 3));
    game.action();
    assert_eq!(game.mode, Mode::Selecting);
    assert_eq!(squares(&game), before);
    assert_eq!(game.turn, Player::White);
    assert!(game.timers[0].is_running());
    assert!(!game.timers[1].is_running());
}

#[test]
fn action_picks_up_a_piece_even_if_it_cannot_move() {
    let mut game = GameState::default();
    game.start();
    game.set_cursor(Vec2::new(0, 7));
    game.action();
    assert_eq!(game.mode, Mode::Moving(Vec2::new(0, 7)));
}

#[test]
fn action_twice_on_one_square_selects_and_cancels() {
    let mut game = GameState::default();
    game.start();
    let before = squares(&game);
    game.set_cursor(Vec2::new(3, 6));
    game.action();
    assert_eq!(game.mode, Mode::Moving(Vec2::new(3, 6)));
    assert_eq!(squares(&game), before);
    game.action();
    assert_eq!(game.mode, Mode::Selecting);
    assert_eq!(squares(&game), before);
    assert_eq!(game.turn, Player::White);
    assert!(game.timers[0].is_running());
    assert!(!game.timers[1].is_running());
}

#[test]
fn action_on_an_illegal_target_keeps_the_piece_held() {
    let mut game = GameState::default();
    game.start();
    let before = squares(&game);
    game.set_cursor(Vec2::new(3, 6));
    game.action();
    game.set_cursor(Vec2::new(3, 3));
    game.action();
    assert_eq!(game.mode, Mode::Moving(Vec2::new(3, 6)));
    assert_eq!(squares(&game), before);
    assert_eq!(game.turn, Player::White);
    game.set_cursor(Vec2::new(4, 6));
    game.action();
    assert_eq!(game.mode, Mode::Moving(Vec2::new(3, 6)));
    assert_eq!(squares(&game), before);
}

#[test]
fn first_pawn_move_two_squares_forward() {
    let mut game = GameState::default();
    game.start();
    let before = squares(&game);
    game.set_cursor(Vec2::new(3, 6));
    game.action();
    game.move_cursor(Vec2::up());
    game.move_cursor(Vec2::up());
    assert_eq!(game.cursor, Vec2::new(3, 4));
    game.action();
    assert_eq!(game.board.get(Vec2::new(3, 4)), Some(&pawn(Player::White, 1)));
    assert_eq!(game.board.get(Vec2::new(3, 6)), None);
    assert_eq!(game.turn, Player::Black);
    assert_eq!(game.mode, Mode::Selecting);
    assert_eq!(game.cursor, Vec2::new(3, 4));
    let after = squares(&game);
    for i in 0..64 {
        if i != 6 * 8 + 3 && i != 4 * 8 + 3 {
            assert_eq!(after[i], before[i]);
        }
    }
}

#[test]
fn a_move_passes_the_turn_and_swaps_the_clocks() {
    let mut game = GameState::default();
    game.start();
    game.set_cursor(Vec2::new(1, 7));
    game.action();
    game.set_cursor(Vec2::new(2, 5));
    game.action();
    assert_eq!(game.turn, Player::Black);
    assert!(!game.timers[0].is_running());
    assert!(game.timers[0].remaining() <= 600_000);
    assert!(game.timers[1].is_running());
    assert!(game.timers[1].remaining() <= 600_000);
    assert_eq!(game.state, State::Playing);
    let white_left = game.timers[0].remaining();
    game.set_cursor(Vec2::new(4, 1));
    game.action();
    game.set_cursor(Vec2::new(4, 2));
    game.action();
    assert_eq!(game.turn, Player::White);
    assert!(game.timers[0].is_running());
    assert!(game.timers[0].remaining() <= white_left);
    assert!(!game.timers[1].is_running());
    assert_eq!(
        game.board.get(Vec2::new(2, 5)),
        Some(&Piece { ty: PieceType::Knight, player: Player::White, move_count: 1 })
    );
    assert_eq!(game.board.get(Vec2::new(4, 2)), Some(&pawn(Player::Black, 1)));
}

#[test]
fn a_capture_removes_the_piece_on_the_destination() {
    let mut game = started(board_of([
        "r..P...R", EMPTY_RANK, EMPTY_RANK, EMPTY_RANK, EMPTY_RANK, EMPTY_RANK, EMPTY_RANK,
        EMPTY_RANK,
    ]));
    game.action();
    assert_eq!(game.mode, Mode::Moving(Vec2::new(0, 0)));
    game.set_cursor(Vec2::new(4, 0));
    game.action();
    assert_eq!(game.mode, Mode::Moving(Vec2::new(0, 0)));
    game.set_cursor(Vec2::new(3, 0));
    game.action();
    assert_eq!(game.mode, Mode::Selecting);
    assert_eq!(game.turn, Player::Black);
    assert_eq!(game.board.get(Vec2::new(0, 0)), None);
    assert_eq!(
        game.board.get(Vec2::new(3, 0)),
        Some(&Piece { ty: PieceType::Rook, player: Player::White, move_count: 1 })
    );
    assert_eq!(
        game.board.get(Vec2::new(7, 0)),
        Some(&Piece { ty: PieceType::Rook, player: Player::Black, move_count: 0 })
    );
}

#[test]
fn en_passant_removes_the_flank_pawn() {
    let mut game = started(board_of([
        EMPTY_RANK, EMPTY_RANK, EMPTY_RANK, "..Pp....", EMPTY_RANK, EMPTY_RANK, EMPTY_RANK,
        EMPTY_RANK,
    ]));
    game.set_cursor(Vec2::new(3, 3));
    game.action();
    assert_eq!(game.mode, Mode::Moving(Vec2::new(3, 3)));
    game.set_cursor(Vec2::new(2, 2));
    assert_eq!(
        game.get_move_result(Vec2::new(3, 3), Vec2::new(2, 2)),
        MoveResult::Capture(Vec2::new(2, 3))
    );
    game.action();
    assert_eq!(game.board.get(Vec2::new(2, 3)), None);
    assert_eq!(game.board.get(Vec2::new(3, 3)), None);
    assert_eq!(game.board.get(Vec2::new(2, 2)), Some(&pawn(Player::White, 1)));
    assert_eq!(game.turn, Player::Black);
    assert_eq!(game.mode, Mode::Selecting);
    let mut pieces = 0;
    for square in squares(&game) {
        if square.is_some() {
            pieces += 1;
        }
    }
    assert_eq!(pieces, 1);
}

#[test]
fn black_moves_after_white() {
    let mut game = GameState::default();
    game.start();
    game.set_cursor(Vec2::new(4, 6));
    game.action();
    game.set_cursor(Vec2::new(4, 4));
    game.action();
    game.set_cursor(Vec2::new(4, 6));
    game.action();
    assert_eq!(game.mode, Mode::Selecting);
    game.set_cursor(Vec2::new(3, 6));
    game.action();
    assert_eq!(game.mode, Mode::Selecting);
    game.set_cursor(Vec2::new(3, 1));
    game.action();
    assert_eq!(game.mode, Mode::Moving(Vec2::new(3, 1)));
    game.set_cursor(Vec2::new(3, 3));
    game.action();
    assert_eq!(game.turn, Player::White);
    game.set_cursor(Vec2::new(4, 4));
    game.action();
    game.set_cursor(Vec2::new(3, 3));
    assert_eq!(
        game.get_move_result(Vec2::new(4, 4), Vec2::new(3, 3)),
        MoveResult::Capture(Vec2::new(3, 3))
    );
    game.action();
    assert_eq!(game.board.get(Vec2::new(3, 3)), Some(&pawn(Player::White, 2)));
    assert_eq!(game.board.get(Vec2::new(4, 4)), None);
    assert_eq!(game.turn, Player::Black);
}

#[test]
fn ready_to_act_tells_when_an_action_is_safe() {
    let mut game = GameState::default();
    assert!(game.ready_to_act());
    game.set_cursor(Vec2::new(3, 6));
    game.action();
    assert_eq!(game.mode, Mode::Moving(Vec2::new(3, 6)));
    assert!(game.ready_to_act());
    game.set_cursor(Vec2::new(3, 5));
    assert!(!game.ready_to_act());
    game.set_cursor(Vec2::new(0, 0));
    assert!(game.ready_to_act());
    game.start();
    game.set_cursor(Vec2::new(3, 5));
    assert!(game.ready_to_act());
    game.action();
    assert_eq!(game.turn, Player::Black);
}
