use chess_core::constants::{D1, D8};
use chess_core::game::{add_piece, PlayerData};
use chess_core::helper::chess_board;
use chess_core::traits::{ChessFactory, StandardChess};
use chess_core::types::{Background, Color, Piece, Tile, Type};
use chess_core::ChessGame;

#[test]
fn size_8_by_8_board() {
    assert_eq!(chess_board().len(), 64);
}

#[test]
fn black_queen_test() {
    let bq = Some(Piece {
        color: Color::Black,
        ty: Type::Queen,
        id: -5_i16,
        loc: <usize as Default>::default(),
    });
    bq.unwrap();
}

#[test]
fn queen_color_matches_background() {
    // On the initial setup of a standard game the color of each queen
    // matches the shading of the tile she stands on.
    let mut player_w = PlayerData::new_white_player();
    let mut player_b = PlayerData::new_black_player();

    // Pregenerate the pieces before allocating them to players and tiles.
    let w: Vec<Piece> = ChessGame::gen_std_white();
    let b: Vec<Piece> = ChessGame::gen_std_black();

    let mut board = chess_board();
    for white_pz in w.into_iter() {
        let pos = white_pz.loc;
        let res = add_piece(&mut board, pos, &mut player_w, white_pz);
        assert!(res.is_ok());
    }
    for black_pz in b.into_iter() {
        let pos = black_pz.loc;
        let res = add_piece(&mut board, pos, &mut player_b, black_pz);
        assert!(res.is_ok());
    }

    const ERR_REASON: &str = "Failed to match queen color with tile background";

    let beyonce = ChessGame::queen_black(D8, -5);
    let mut bt = Tile::dark(D8, false, true);
    bt.update_piece(Some(beyonce.id));
    assert!(
        beyonce.color.matches_background(&board[D8].color),
        "{}",
        ERR_REASON
    );

    let gaga = ChessGame::queen_white(D1, 4);
    let mut gt = Tile::light(D1, true, false);
    assert!(gt.pz.is_none());
    gt.update_piece(Some(gaga.id));
    assert_eq!(gt.pz, Some(4));
    assert!(
        gaga.color.matches_background(&board[D1].color),
        "{}",
        ERR_REASON
    );
}

#[test]
fn fresh_board_has_16_endzone_tiles_and_none_doubled() {
    let board = chess_board();
    assert_eq!(board.len(), 64);
    let w_count = board.iter().filter(|t| t.w_endzone).count();
    let b_count = board.iter().filter(|t| t.b_endzone).count();
    let both = board.iter().filter(|t| t.w_endzone && t.b_endzone).count();
    assert_eq!(w_count, 8);
    assert_eq!(b_count, 8);
    assert_eq!(w_count + b_count, 16);
    assert_eq!(both, 0);
}

#[test]
fn fresh_board_alternates_shading() {
    let board = chess_board();
    for i in 0..64usize {
        assert_eq!(board[i].index, i);
        assert!(board[i].pz.is_none());
        if i % 8 < 7 {
            assert_ne!(board[i].color, board[i + 1].color, "files must alternate at {i}");
        }
        if i < 56 {
            assert_ne!(board[i].color, board[i + 8].color, "ranks must alternate at {i}");
        }
    }
    assert_eq!(board[0].color, Background::Dark);
    assert_eq!(board[7].color, Background::Light);
}

#[test]
fn tile_constructors_set_shading_and_endzones() {
    let d = Tile::dark(5, false, true);
    assert_eq!(d.color, Background::Dark);
    assert_eq!(d.index, 5);
    assert!(!d.w_endzone && d.b_endzone);
    assert!(d.pz.is_none());
    let l = Tile::light(60, true, false);
    assert_eq!(l.color, Background::Light);
    assert!(l.w_endzone && !l.b_endzone);
}

#[test]
fn occupied_tile_placement_is_a_conflict_and_mutates_nothing() {
    let mut board = chess_board();
    let mut player = PlayerData::new_white_player();
    let first = ChessGame::pawn_white(20, 9);
    assert!(add_piece(&mut board, 20, &mut player, first).is_ok());

    let board_before = board.clone();
    let pieces_before = player.pieces.clone();
    let second = ChessGame::pawn_white(20, 10);
    let res = add_piece(&mut board, 20, &mut player, second);
    assert_eq!(res, Err(chess_core::errors::ChessError::TileOccupied));
    assert_eq!(board, board_before, "a failed placement must not touch the board");
    assert_eq!(player.pieces, pieces_before, "a failed placement must not touch the roster");
}

#[test]
fn placement_rejects_enemy_pieces_and_bad_indices() {
    let mut board = chess_board();
    let mut white = PlayerData::new_white_player();

    let black_pawn = ChessGame::pawn_black(40, -9);
    assert_eq!(
        add_piece(&mut board, 40, &mut white, black_pawn),
        Err(chess_core::errors::ChessError::OwnershipMismatch)
    );

    let white_pawn = ChessGame::pawn_white(40, 9);
    assert_eq!(
        add_piece(&mut board, 64, &mut white, white_pawn),
        Err(chess_core::errors::ChessError::TileOutOfBounds)
    );
    assert!(board.iter().all(|t| t.pz.is_none()));
    assert!(white.pieces.is_empty());
}
