use std::collections::HashSet;

use chess_core::errors::ChessError;
use chess_core::math::{self, XyPair};
use chess_core::spawn_game_master;
use chess_core::types::{Direction, Type, VisionPiece};

#[test]
fn new_game_has_32_pieces() {
    let mut gm = spawn_game_master();
    let game_id = gm.create_game().unwrap();
    let game = gm.request_game_state(game_id);
    assert!(game.is_ok(), "Failed to create a game");
    {
        let mut count: usize = 0;
        let state = game.unwrap();
        count += state.game.p1.pieces.len();
        assert_eq!(&count, &16_usize, "p1 needs 16 pieces");
        count += state.game.p2.pieces.len();
        assert_eq!(count, 32, "incorrect board composition");
    }
}

#[test]
fn opening_white_pawn_mvmt() {
    let mut gm = spawn_game_master();
    let game_id = gm.create_game().unwrap();
    let state = gm.request_game_state(game_id).unwrap();
    // From left to right, the white pawns have the IDs 9 to 16 inclusive
    for piece_id in 9..=16 {
        let vision_options = gm.request_vision(game_id, piece_id);
        assert!(
            vision_options.is_ok(),
            "Test uses PieceId's which do not exist"
        );

        // Since no moves have happened, each pawn hasn't moved, thus it is
        // allowed three movement options: remaining where it is, moving a
        // single space forward, and moving two spaces forward.
        let ops = vision_options.unwrap();
        let pz = state.game.piece_by_id(&ops.piece_id).unwrap();
        let now: XyPair = math::index_to_xy(pz.loc);
        let viable: HashSet<XyPair> = HashSet::from([
            now.clone(),
            XyPair { x: now.x, y: now.y + 1 },
            XyPair { x: now.x, y: now.y + 2 },
        ]);
        // Only the first three moves are checked because the remaining 22
        // slots are None.
        for mvmt in &ops.moves[0..3] {
            let xy = mvmt.as_ref().unwrap().dest();
            assert!(viable.contains(&xy), "Impossible movement option found");
        }
        assert!(ops.moves[3..].iter().all(|m| m.is_none()));
    }
}

#[test]
fn game_main() {
    // The headless entry point boils down to starting and exiting cleanly.
    let run = || -> Result<(), ChessError> { Ok(()) };
    run().unwrap()
}

#[test]
fn request_single_player_game() {}

#[test]
fn sequential_game_ids_differ() {
    let mut gm = spawn_game_master();
    let first = gm.create_game().unwrap();
    let second = gm.create_game().unwrap();
    assert_ne!(first, second, "two sessions must never share an identifier");
    assert_eq!(first, 1);
    assert_eq!(second, 2);
}

#[test]
fn missing_game_is_not_found() {
    let gm = spawn_game_master();
    match gm.request_game_state(7) {
        Err(ChessError::GameNotFound) => {}
        other => panic!("expected GameNotFound, got {other:?}"),
    }
    let mut gm = spawn_game_master();
    let id = gm.create_game().unwrap();
    assert!(gm.request_game_state(id).is_ok());
    assert!(matches!(
        gm.request_vision(id + 1, 9),
        Err(ChessError::GameNotFound)
    ));
}

#[test]
fn missing_piece_is_not_found() {
    let mut gm = spawn_game_master();
    let id = gm.create_game().unwrap();
    match gm.request_vision(id, 0) {
        Err(ChessError::PieceNotFound) => {}
        other => panic!("expected PieceNotFound, got {other:?}"),
    }
    assert!(matches!(gm.request_vision(id, 17), Err(ChessError::PieceNotFound)));
}

#[test]
fn unimplemented_rules_are_reported_as_unavailable() {
    let mut gm = spawn_game_master();
    let id = gm.create_game().unwrap();
    // The white rook on tile 0 carries identifier 1.
    match gm.request_vision(id, 1) {
        Err(ChessError::RuleUnavailable) => {}
        other => panic!("expected RuleUnavailable, got {other:?}"),
    }
    // Every black piece is unavailable while mirroring is unimplemented.
    assert!(matches!(gm.request_vision(id, -1), Err(ChessError::RuleUnavailable)));
}

#[test]
fn vision_is_side_effect_free_and_repeatable() {
    let mut gm = spawn_game_master();
    let id = gm.create_game().unwrap();
    let board_before = gm.request_game_state(id).unwrap().game.board.clone();
    let first: VisionPiece = gm.request_vision(id, 12).unwrap();
    let second: VisionPiece = gm.request_vision(id, 12).unwrap();
    assert_eq!(first, second, "two vision computations must agree");
    let board_after = gm.request_game_state(id).unwrap().game.board.clone();
    assert_eq!(board_before, board_after, "vision must not mutate the board");
}

#[test]
fn created_game_queens_match_their_tiles() {
    let mut gm = spawn_game_master();
    let id = gm.create_game().unwrap();
    let state = gm.request_game_state(id).unwrap();
    let wq = state.game.p1.pieces[3];
    assert_eq!(wq.ty, Type::Queen);
    assert!(wq
        .color
        .matches_background(&state.game.board[wq.loc].color));
    let bq = state.game.p2.pieces[11];
    assert_eq!(bq.ty, Type::Queen);
    assert!(bq
        .color
        .matches_background(&state.game.board[bq.loc].color));
}

#[test]
fn opening_pawn_moves_have_expected_directions() {
    let mut gm = spawn_game_master();
    let id = gm.create_game().unwrap();
    let vision = gm.request_vision(id, 9).unwrap();
    assert_eq!(vision.piece_id, 9);
    assert_eq!(vision.moves.len(), 25);
    let m0 = vision.moves[0].unwrap();
    let m1 = vision.moves[1].unwrap();
    let m2 = vision.moves[2].unwrap();
    assert_eq!(m0.dir, Direction::Nil);
    assert_eq!(m1.dir, Direction::Forward(1));
    assert_eq!(m2.dir, Direction::Forward(2));
    assert!(!m0.cap && !m1.cap && !m2.cap);
    assert_eq!(m0.dest(), XyPair { x: 0, y: 1 });
    assert_eq!(m1.dest(), XyPair { x: 0, y: 2 });
    assert_eq!(m2.dest(), XyPair { x: 0, y: 3 });
}

#[test]
fn layout_orders_tiles_by_linear_index() {
    let mut gm = spawn_game_master();
    let id = gm.create_game().unwrap();
    let layout = gm.request_game_layout(id).unwrap();
    assert_eq!(layout.data.len(), 64);
    for (i, (xy, tile)) in layout.data.iter().enumerate() {
        assert_eq!(*xy, math::index_to_xy(i));
        assert_eq!(tile.index, i);
    }
    assert!(matches!(
        gm.request_game_layout(id + 1),
        Err(ChessError::GameNotFound)
    ));
}
