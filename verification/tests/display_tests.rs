use chess_core::display::status_label;
use chess_core::input::command_for;
use chess_core::{
    Board, Command, GameState, Key, Mode, MoveResult, PieceType, Player, Shade, State, Vec2,
};

#[test]
fn status_labels() {
    assert_eq!(status_label(MoveResult::Cancel), "Cancel");
    assert_eq!(status_label(MoveResult::Nothing), "Move");
    assert_eq!(status_label(MoveResult::Capture(Vec2::new(1, 1))), "Capture");
    assert_eq!(status_label(MoveResult::Castle), "Castle");
    assert_eq!(status_label(MoveResult::Promotion(PieceType::Queen)), "Promote");
    assert_eq!(status_label(MoveResult::Invalid), "");
}

#[test]
fn piece_kinds_are_numbered_for_glyphs() {
    assert_eq!(PieceType::King.index(), 0);
    assert_eq!(PieceType::Queen.index(), 1);
    assert_eq!(PieceType::Bishop.index(), 2);
    assert_eq!(PieceType::Knight.index(), 3);
    assert_eq!(PieceType::Rook.index(), 4);
    assert_eq!(PieceType::Pawn.index(), 5);
}

#[test]
fn players_have_slots_sides_and_directions() {
    assert_eq!(Player::White.index(), 0);
    assert_eq!(Player::Black.index(), 1);
    assert_eq!(Player::White.opponent(), Player::Black);
    assert_eq!(Player::Black.opponent(), Player::White);
    assert_eq!(Player::White.forward(), Vec2::new(0, -1));
    assert_eq!(Player::Black.forward(), Vec2::new(0, 1));
}

#[test]
fn plain_tiles_alternate() {
    let mut game = GameState::default();
    game.set_cursor(Vec2::new(7, 7));
    assert_eq!(game.shade(Vec2::new(0, 0)), Shade::Tile(Player::White));
    assert_eq!(game.shade(Vec2::new(1, 0)), Shade::Tile(Player::Black));
    assert_eq!(game.shade(Vec2::new(0, 1)), Shade::Tile(Player::Black));
    assert_eq!(game.shade(Vec2::new(1, 1)), Shade::Tile(Player::White));
    assert_eq!(game.shade(Vec2::new(3, 6)), Shade::Tile(Player::Black));
    assert_eq!(game.shade(Vec2::new(6, 7)), Shade::Tile(Player::Black));
}

#[test]
fn cursor_shade_while_selecting() {
    let mut game = GameState::default();
    assert_eq!(game.shade(Vec2::new(0, 0)), Shade::Cursor(Player::White));
    game.set_cursor(Vec2::new(3, 6));
    assert_eq!(game.shade(Vec2::new(3, 6)), Shade::CursorValid);
    assert_eq!(game.shade(Vec2::new(3, 5)), Shade::Tile(Player::White));
    assert_eq!(game.shade(Vec2::new(3, 4)), Shade::Tile(Player::Black));
    game.set_cursor(Vec2::new(0, 7));
    assert_eq!(game.shade(Vec2::new(0, 7)), Shade::Cursor(Player::White));
    game.set_cursor(Vec2::new(3, 3));
    assert_eq!(game.shade(Vec2::new(3, 3)), Shade::Cursor(Player::White));
    game.turn = Player::Black;
    assert_eq!(game.shade(Vec2::new(3, 3)), Shade::Cursor(Player::Black));
}

#[test]
fn shades_while_a_piece_is_held() {
    let mut game = GameState::default();
    game.set_cursor(Vec2::new(3, 6));
    game.action();
    assert_eq!(game.mode, Mode::Moving(Vec2::new(3, 6)));
    assert_eq!(game.shade(Vec2::new(3, 6)), Shade::CursorValid);
    assert_eq!(game.shade(Vec2::new(3, 5)), Shade::Highlight(Player::Black));
    assert_eq!(game.shade(Vec2::new(3, 4)), Shade::Highlight(Player::White));
    assert_eq!(game.shade(Vec2::new(3, 3)), Shade::Tile(Player::White));
    assert_eq!(game.shade(Vec2::new(4, 5)), Shade::Tile(Player::Black));
    game.set_cursor(Vec2::new(3, 5));
    assert_eq!(game.shade(Vec2::new(3, 5)), Shade::CursorValid);
    assert_eq!(game.shade(Vec2::new(3, 6)), Shade::Highlight(Player::White));
    game.set_cursor(Vec2::new(0, 0));
    assert_eq!(game.shade(Vec2::new(0, 0)), Shade::Cursor(Player::White));
    assert_eq!(game.shade(Vec2::new(3, 6)), Shade::Highlight(Player::White));
}

#[test]
fn keys_are_bound_to_commands() {
    assert_eq!(command_for(Key::Esc, true), Some(Command::Quit));
    assert_eq!(command_for(Key::Char('h'), true), Some(Command::MoveCursor(Vec2::new(-1, 0))));
    assert_eq!(command_for(Key::Char('j'), true), Some(Command::MoveCursor(Vec2::new(0, 1))));
    assert_eq!(command_for(Key::Char('k'), true), Some(Command::MoveCursor(Vec2::new(0, -1))));
    assert_eq!(command_for(Key::Char('l'), true), Some(Command::MoveCursor(Vec2::new(1, 0))));
    assert_eq!(command_for(Key::Char(' '), true), Some(Command::Action));
    assert_eq!(command_for(Key::Char('H'), true), None);
    assert_eq!(command_for(Key::Char('q'), true), None);
    assert_eq!(command_for(Key::Other, true), None);
    assert_eq!(command_for(Key::Esc, false), None);
    assert_eq!(command_for(Key::Char(' '), false), None);
    assert_eq!(command_for(Key::Char('h'), false), None);
}

#[test]
fn commands_drive_the_game() {
    let mut game = GameState::new(Board::from_string(chess_core::gamestate::START_LAYOUT), 5_000);
    game.start();
    for _ in 0..6 {
        game.execute(Command::MoveCursor(Vec2::down()));
    }
    for _ in 0..3 {
        game.execute(Command::MoveCursor(Vec2::right()));
    }
    assert_eq!(game.cursor, Vec2::new(3, 6));
    game.execute(Command::Action);
    assert_eq!(game.mode, Mode::Moving(Vec2::new(3, 6)));
    game.execute(Command::MoveCursor(Vec2::up()));
    game.execute(Command::Action);
    assert_eq!(game.turn, Player::Black);
    assert!(game.board.get(Vec2::new(3, 5)).is_some());
    assert!(game.board.get(Vec2::new(3, 6)).is_none());
    game.execute(Command::Quit);
    assert_eq!(game.state, State::Exit);
}

#[test]
fn pieces_are_named_by_their_kind() {
    assert_eq!(PieceType::King.name(), "King");
    assert_eq!(PieceType::Queen.name(), "Queen");
    assert_eq!(PieceType::Bishop.name(), "Bishop");
    assert_eq!(PieceType::Knight.name(), "Knight");
    assert_eq!(PieceType::Rook.name(), "Rook");
    assert_eq!(PieceType::Pawn.name(), "Pawn");
    let piece = chess_core::Piece { ty: PieceType::Rook, player: Player::Black, move_count: 3 };
    assert_eq!(piece.name(), "Rook");
    assert_eq!(piece.name(), format!("{:?}", piece.ty));
}
