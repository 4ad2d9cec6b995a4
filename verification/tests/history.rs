use chess_core::errors::ChessError;
use chess_core::game::{add_piece, Action, GameState, History, MoveRecord, PlayerData};
use chess_core::helper::chess_board;
use chess_core::spawn_game_master;
use chess_core::traits::ChessFactory;
use chess_core::ChessGame;

fn reconstructed(game_id: u64, p1: PlayerData, p2: PlayerData, hist: History) -> ChessGame {
    let state = GameState::init(false, false, None, None, p1, p2, chess_board(), hist);
    ChessGame { game_id, game: state }
}

#[test]
fn replaying_history_reconstructs_the_setup_board() {
    // Build a game by direct setup, then replay a repair-references history
    // against an unpopulated board holding the same rosters: the result
    // must be structurally equal to the directly built board.
    let live = ChessGame::new(42).unwrap();
    let mut hist = History::init("replay".to_string());
    hist.actions.push(Action::FixPlayerData);
    let mut rebuilt = reconstructed(
        42,
        live.game.p1.clone(),
        live.game.p2.clone(),
        hist,
    );
    assert_ne!(rebuilt.game.board, live.game.board, "the fresh board starts unpopulated");
    let replayed_id = rebuilt.try_apply_history().unwrap();
    assert_eq!(replayed_id, 42);
    assert_eq!(rebuilt.game.board, live.game.board, "replay must rebuild the same board");
    assert_eq!(rebuilt.game.p1.pieces, live.game.p1.pieces);
    assert_eq!(rebuilt.game.p2.pieces, live.game.p2.pieces);
}

#[test]
fn nil_and_active_player_actions_are_identities_on_the_board() {
    let mut game = ChessGame::new(1).unwrap();
    let before = game.game.board.clone();
    game.game.hist.actions.push(Action::Nil);
    game.game.hist.actions.push(Action::SetActivePlayer(true));
    game.try_apply_history().unwrap();
    assert_eq!(game.game.board, before);
}

#[test]
fn replaying_a_move_relocates_the_piece() {
    let mut game = ChessGame::new(1).unwrap();
    // The white pawn with identifier 9 stands on tile 8; push it one rank.
    game.game.hist.actions.push(Action::Move(MoveRecord {
        piece_id: 9,
        from: 8,
        to: 16,
        capture: false,
    }));
    game.try_apply_history().unwrap();
    assert_eq!(game.game.board[8].pz, None);
    assert_eq!(game.game.board[16].pz, Some(9));
    let moved = game.game.piece_by_id(&9).unwrap();
    assert_eq!(moved.loc, 16);
}

#[test]
fn replaying_a_capture_disposes_the_victim() {
    let mut board = chess_board();
    let mut p1 = PlayerData::new_white_player();
    let mut p2 = PlayerData::new_black_player();
    add_piece(&mut board, 8, &mut p1, ChessGame::pawn_white(8, 9)).unwrap();
    add_piece(&mut board, 16, &mut p2, ChessGame::pawn_black(16, -9)).unwrap();
    let mut hist = History::init("capture".to_string());
    hist.actions.push(Action::Move(MoveRecord {
        piece_id: 9,
        from: 8,
        to: 16,
        capture: true,
    }));
    let state = GameState::init(true, false, None, None, p1, p2, board, hist);
    let mut game = ChessGame { game_id: 5, game: state };
    game.try_apply_history().unwrap();
    assert_eq!(game.game.board[8].pz, None);
    assert_eq!(game.game.board[16].pz, Some(9));
    assert!(game.game.p2.pieces.is_empty(), "the captured piece leaves its roster");
    assert_eq!(game.game.p1.pieces[0].loc, 16);
}

#[test]
fn inconsistent_moves_fail_and_stop_the_replay() {
    // A capture flag without an enemy on the destination is inconsistent.
    let mut game = ChessGame::new(1).unwrap();
    game.game.hist.actions.push(Action::Move(MoveRecord {
        piece_id: 9,
        from: 8,
        to: 16,
        capture: true,
    }));
    assert_eq!(game.try_apply_history(), Err(ChessError::InconsistentAction));

    // Moving onto an allied piece is an occupied-tile conflict.
    let mut game = ChessGame::new(1).unwrap();
    game.game.hist.actions.push(Action::Move(MoveRecord {
        piece_id: 1,
        from: 0,
        to: 8,
        capture: false,
    }));
    assert_eq!(game.try_apply_history(), Err(ChessError::TileOccupied));

    // An identifier no roster carries is not found.
    let mut game = ChessGame::new(1).unwrap();
    game.game.hist.actions.push(Action::Move(MoveRecord {
        piece_id: 17,
        from: 8,
        to: 16,
        capture: false,
    }));
    assert_eq!(game.try_apply_history(), Err(ChessError::PieceNotFound));

    // A destination off the board is rejected, never wrapped.
    let mut game = ChessGame::new(1).unwrap();
    game.game.hist.actions.push(Action::Move(MoveRecord {
        piece_id: 9,
        from: 8,
        to: 64,
        capture: false,
    }));
    assert_eq!(game.try_apply_history(), Err(ChessError::TileOutOfBounds));

    // An origin that disagrees with the piece's location is inconsistent.
    let mut game = ChessGame::new(1).unwrap();
    game.game.hist.actions.push(Action::Move(MoveRecord {
        piece_id: 9,
        from: 9,
        to: 17,
        capture: false,
    }));
    assert_eq!(game.try_apply_history(), Err(ChessError::InconsistentAction));
}

#[test]
fn pawn_moves_outside_vision_are_illegal() {
    // Tile 17 is diagonal to tile 8 and empty, so the move passes every
    // structural check and fails only the vision validation.
    let mut game = ChessGame::new(1).unwrap();
    game.game.hist.actions.push(Action::Move(MoveRecord {
        piece_id: 9,
        from: 8,
        to: 17,
        capture: false,
    }));
    assert_eq!(game.try_apply_history(), Err(ChessError::IllegalMove));
    // Forward by one and by two from the opening rank are both legal.
    let mut game = ChessGame::new(1).unwrap();
    game.game.hist.actions.push(Action::Move(MoveRecord {
        piece_id: 9,
        from: 8,
        to: 24,
        capture: false,
    }));
    assert!(game.try_apply_history().is_ok());
    assert_eq!(game.game.board[24].pz, Some(9));
}

#[test]
fn internal_new_prepends_the_repair_action() {
    let mut hist = History::init("orig".to_string());
    hist.actions.push(Action::Nil);
    let game = ChessGame::internal_new(3, true, None, None, None, chess_board(), hist);
    assert_eq!(game.game_id, 3);
    assert!(game.game.started);
    assert_eq!(
        game.game.hist.actions,
        vec![Action::FixPlayerData, Action::Nil]
    );

    let mut hist = History::init("already".to_string());
    hist.actions.push(Action::FixPlayerData);
    hist.actions.push(Action::Nil);
    let game = ChessGame::internal_new(4, false, Some(true), None, None, chess_board(), hist);
    assert_eq!(
        game.game.hist.actions,
        vec![
            Action::FixPlayerData,
            Action::Nil,
            Action::SetActivePlayer(true)
        ]
    );
}

#[test]
fn arbitrary_games_reject_clocks_without_an_active_player() {
    let mut gm = spawn_game_master();
    for (c1, c2) in [
        (Some(1000), Some(1000)),
        (Some(1000), None),
        (None, Some(1000)),
    ] {
        let res = gm.try_init_arbitrary_game(
            9,
            true,
            None,
            c1,
            c2,
            chess_board(),
            History::init("arb".to_string()),
        );
        assert_eq!(res, Err(ChessError::MissingActivePlayer));
        assert!(gm.request_game_state(9).is_err(), "nothing may be committed on failure");
    }
}

#[test]
fn arbitrary_games_never_override_existing_sessions() {
    let mut gm = spawn_game_master();
    let id = gm.create_game().unwrap();
    let res = gm.try_init_arbitrary_game(
        id,
        false,
        None,
        None,
        None,
        chess_board(),
        History::init("arb".to_string()),
    );
    assert_eq!(res, Err(ChessError::GameIdInUse));
}

#[test]
fn arbitrary_games_are_stored_with_a_normalized_history() {
    let mut gm = spawn_game_master();
    let mut hist = History::init("arb".to_string());
    hist.actions.push(Action::Nil);
    let id = gm
        .try_init_arbitrary_game(77, true, Some(false), Some(1000), Some(2000), chess_board(), hist)
        .unwrap();
    assert_eq!(id, 77);
    let stored = gm.request_game_state(77).unwrap();
    assert!(stored.game.started);
    assert_eq!(stored.game.p1_clock, Some(1000));
    assert_eq!(stored.game.p2_clock, Some(2000));
    assert_eq!(
        stored.game.hist.actions,
        vec![
            Action::FixPlayerData,
            Action::Nil,
            Action::SetActivePlayer(false)
        ]
    );
    assert!(stored.game.p1.pieces.is_empty());
    assert!(stored.game.p2.pieces.is_empty());
}
