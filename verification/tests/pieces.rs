use chess_core::game::{GameState, History, PlayerData};
use chess_core::image_data::{ImgPack, PlannedExtEnum, PngPack};
use chess_core::math::XyPair;
use chess_core::traits::{ChessFactory, StandardChess};
use chess_core::types::{Background, Color, Direction, Move, Piece, Type, VisionPiece};
use chess_core::ChessGame;

#[test]
fn piece_location_and_id_updates() {
    let mut p = ChessGame::pawn_white(8, 9);
    p.update_loc(16);
    assert_eq!(p.loc, 16);
    p.set_id(10);
    assert_eq!(p.id, 10);
    assert_eq!(p.color, Color::White);
    assert_eq!(p.ty, Type::Pawn);
}

#[test]
fn factory_builds_exactly_the_requested_piece() {
    let p = ChessGame::init(Type::Knight, Color::Black, 57, -7);
    assert_eq!(
        p,
        Piece { id: -7, color: Color::Black, ty: Type::Knight, loc: 57 }
    );
    assert_eq!(ChessGame::rook_black(63, -1).ty, Type::Rook);
    assert_eq!(ChessGame::king_white(4, 5).ty, Type::King);
    assert_eq!(ChessGame::bishop_white(2, 3).ty, Type::Bishop);
}

#[test]
fn standard_layouts_have_the_documented_shape() {
    let w = ChessGame::gen_std_white();
    assert_eq!(w.len(), 16);
    assert_eq!(w[0], Piece { id: 1, color: Color::White, ty: Type::Rook, loc: 0 });
    assert_eq!(w[3], Piece { id: 4, color: Color::White, ty: Type::Queen, loc: 3 });
    assert_eq!(w[4], Piece { id: 5, color: Color::White, ty: Type::King, loc: 4 });
    for (i, p) in w[8..].iter().enumerate() {
        assert_eq!(p.ty, Type::Pawn);
        assert_eq!(p.loc, 8 + i);
    }

    let b = ChessGame::gen_std_black();
    assert_eq!(b.len(), 16);
    assert_eq!(b[0], Piece { id: -16, color: Color::Black, ty: Type::Pawn, loc: 48 });
    assert_eq!(b[11], Piece { id: -5, color: Color::Black, ty: Type::Queen, loc: 59 });
    assert_eq!(b[15], Piece { id: -1, color: Color::Black, ty: Type::Rook, loc: 63 });
}

#[test]
fn move_destinations_follow_the_direction() {
    let pawn = ChessGame::pawn_white(10, 11);
    let nil = Move::new_nil(&pawn);
    assert_eq!(nil.dir, Direction::Nil);
    assert!(!nil.cap);
    assert_eq!(nil.dest(), XyPair { x: 2, y: 1 });
    let f2 = Move::forward(&pawn, 2);
    assert_eq!(f2.dir, Direction::Forward(2));
    assert_eq!(f2.dest(), XyPair { x: 2, y: 3 });
}

#[test]
fn vision_buffers_hold_25_slots() {
    let empty = VisionPiece::new_empty(9);
    assert_eq!(empty.piece_id, 9);
    assert_eq!(empty.moves.len(), 25);
    assert!(empty.moves.iter().all(|m| m.is_none()));

    let pawn = ChessGame::pawn_white(8, 9);
    let filled = VisionPiece::new_with_moves(
        9,
        vec![Move::new_nil(&pawn), Move::forward(&pawn, 1)],
    );
    assert_eq!(filled.moves.len(), 25);
    assert!(filled.moves[0].is_some() && filled.moves[1].is_some());
    assert!(filled.moves[2..].iter().all(|m| m.is_none()));

    let many: Vec<Move> = (0..30).map(|_| Move::new_nil(&pawn)).collect();
    let capped = VisionPiece::new_with_moves(9, many);
    assert_eq!(capped.moves.len(), 25);
    assert!(capped.moves.iter().all(|m| m.is_some()));
}

#[test]
fn roster_constructors_fill_in_defaults() {
    let w = PlayerData::new_white_player();
    assert_eq!(w.color, Color::White);
    assert_eq!(w.name, "player_1");
    assert!(w.pieces.is_empty());
    let b = PlayerData::new_black_player();
    assert_eq!(b.color, Color::Black);
    assert_eq!(b.name, "player_2");

    let named = PlayerData::incomplete_init(Color::Black, Some("ada".to_string()), None);
    assert_eq!(named.name, "ada");
    assert!(named.pieces.is_empty());
    let unnamed = PlayerData::incomplete_init(Color::Black, None, None);
    assert_eq!(unnamed.name, "player_2");
    let with_pieces = PlayerData::incomplete_init(
        Color::White,
        None,
        Some(vec![ChessGame::pawn_white(8, 9)]),
    );
    assert_eq!(with_pieces.name, "player_1");
    assert_eq!(with_pieces.pieces.len(), 1);
}

#[test]
fn default_values_match_the_documented_ones() {
    assert_eq!(Color::default(), Color::White);
    assert_eq!(Background::default(), Background::Dark);
    assert_eq!(Direction::default(), Direction::Nil);
    let pd = PlayerData::default();
    assert_eq!(pd.color, Color::White);
    assert!(pd.name.is_empty());
    assert!(pd.pieces.is_empty());
}

#[test]
fn color_background_consistency_table() {
    assert!(Color::White.matches_background(&Background::Light));
    assert!(Color::Black.matches_background(&Background::Dark));
    assert!(!Color::White.matches_background(&Background::Dark));
    assert!(!Color::Black.matches_background(&Background::Light));
}

#[test]
fn blank_game_state_is_untimed_and_empty() {
    let g = GameState::new();
    assert!(!g.started && !g.finished);
    assert!(g.p1_clock.is_none() && g.p2_clock.is_none());
    assert_eq!(g.board.len(), 64);
    assert!(g.board.iter().all(|t| t.pz.is_none()));
    assert!(g.hist.actions.is_empty());

    let h = History::init("fresh".to_string());
    assert!(h.actions.is_empty());
}

#[test]
fn image_packs_carry_their_bytes() {
    let bytes: [u8; 4] = [1, 2, 3, 4];
    let png = PngPack::new("pawn-white", &bytes);
    assert_eq!(png.path, "pawn-white");
    assert_eq!(png.data, &bytes);
    let img = ImgPack::new("pawn-black", &bytes, PlannedExtEnum::Png);
    assert_eq!(img.path, "pawn-black");
    assert!(matches!(img.ext, PlannedExtEnum::Png));
}
