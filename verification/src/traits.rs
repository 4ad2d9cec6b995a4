//! Piece factories: per-type and per-color constructors, and the standard
//! opening layout for both sides.

use vstd::prelude::*;

use crate::msg::{PieceId, TileId};
use crate::types::{Color, Piece, Type};

verus! {

/// The back-rank piece type at a file: rooks on the outside, then knights,
/// then bishops, the queen on the fourth file and the king on the fifth.
pub open spec fn back_rank_type(file: int) -> Type {
    if file == 0 || file == 7 {
        Type::Rook
    } else if file == 1 || file == 6 {
        Type::Knight
    } else if file == 2 || file == 5 {
        Type::Bishop
    } else if file == 3 {
        Type::Queen
    } else {
        Type::King
    }
}

/// The `j`-th piece of the first player's standard layout: the back rank on
/// tiles 0 through 7 with identifiers 1 through 8, then the pawn rank on
/// tiles 8 through 15 with identifiers 9 through 16.
pub open spec fn std_white_piece(j: int) -> Piece {
    Piece {
        id: (j + 1) as i16,
        color: Color::White,
        ty: if j < 8 {
            back_rank_type(j)
        } else {
            Type::Pawn
        },
        loc: j as usize,
    }
}

/// The `j`-th piece of the second player's standard layout: the pawn rank on
/// tiles 48 through 55, then the back rank on tiles 56 through 63, each
/// piece's identifier its tile index minus 64.
pub open spec fn std_black_piece(j: int) -> Piece {
    Piece {
        id: (j - 16) as i16,
        color: Color::Black,
        ty: if j < 8 {
            Type::Pawn
        } else {
            back_rank_type(j - 8)
        },
        loc: (48 + j) as usize,
    }
}

/// Constructors for single pieces; the per-type methods fix the type and
/// color and pass the location and identifier through.
pub trait ChessFactory {
    fn init(ty: Type, color: Color, loc: TileId, id: PieceId) -> (r: Piece)
        ensures
            r == (Piece { id, color, ty, loc }),
    {
        Piece { color, ty, loc, id }
    }

    fn pawn_white(loc: TileId, id: PieceId) -> (r: Piece)
        ensures
            r == (Piece { id, color: Color::White, ty: Type::Pawn, loc }),
    {
        Self::init(Type::Pawn, Color::White, loc, id)
    }

    fn rook_white(loc: TileId, id: PieceId) -> (r: Piece)
        ensures
            r == (Piece { id, color: Color::White, ty: Type::Rook, loc }),
    {
        Self::init(Type::Rook, Color::White, loc, id)
    }

    fn knight_white(loc: TileId, id: PieceId) -> (r: Piece)
        ensures
            r == (Piece { id, color: Color::White, ty: Type::Knight, loc }),
    {
        Self::init(Type::Knight, Color::White, loc, id)
    }

    fn bishop_white(loc: TileId, id: PieceId) -> (r: Piece)
        ensures
            r == (Piece { id, color: Color::White, ty: Type::Bishop, loc }),
    {
        Self::init(Type::Bishop, Color::White, loc, id)
    }

    fn king_white(loc: TileId, id: PieceId) -> (r: Piece)
        ensures
            r == (Piece { id, color: Color::White, ty: Type::King, loc }),
    {
        Self::init(Type::King, Color::White, loc, id)
    }

    fn queen_white(loc: TileId, id: PieceId) -> (r: Piece)
        ensures
            r == (Piece { id, color: Color::White, ty: Type::Queen, loc }),
    {
        Self::init(Type::Queen, Color::White, loc, id)
    }

    fn pawn_black(loc: TileId, id: PieceId) -> (r: Piece)
        ensures
            r == (Piece { id, color: Color::Black, ty: Type::Pawn, loc }),
    {
        Self::init(Type::Pawn, Color::Black, loc, id)
    }

    fn rook_black(loc: TileId, id: PieceId) -> (r: Piece)
        ensures
            r == (Piece { id, color: Color::Black, ty: Type::Rook, loc }),
    {
        Self::init(Type::Rook, Color::Black, loc, id)
    }

    fn knight_black(loc: TileId, id: PieceId) -> (r: Piece)
        ensures
            r == (Piece { id, color: Color::Black, ty: Type::Knight, loc }),
    {
        Self::init(Type::Knight, Color::Black, loc, id)
    }

    fn bishop_black(loc: TileId, id: PieceId) -> (r: Piece)
        ensures
            r == (Piece { id, color: Color::Black, ty: Type::Bishop, loc }),
    {
        Self::init(Type::Bishop, Color::Black, loc, id)
    }

    fn king_black(loc: TileId, id: PieceId) -> (r: Piece)
        ensures
            r == (Piece { id, color: Color::Black, ty: Type::King, loc }),
    {
        Self::init(Type::King, Color::Black, loc, id)
    }

    fn queen_black(loc: TileId, id: PieceId) -> (r: Piece)
        ensures
            r == (Piece { id, color: Color::Black, ty: Type::Queen, loc }),
    {
        Self::init(Type::Queen, Color::Black, loc, id)
    }
}

/// The standard opening layout, sixteen pieces a side.
pub trait StandardChess: ChessFactory {
    fn gen_std_white() -> (r: Vec<Piece>)
        ensures
            r@.len() == 16,
            forall|j: int| 0 <= j < 16 ==> #[trigger] r@[j] == std_white_piece(j),
    {
        let mut v: Vec<Piece> = Vec::new();
        v.push(Self::rook_white(crate::constants::A1, 1));
        v.push(Self::knight_white(crate::constants::B1, 2));
        v.push(Self::bishop_white(crate::constants::C1, 3));
        v.push(Self::queen_white(crate::constants::D1, 4));
        v.push(Self::king_white(crate::constants::E1, 5));
        v.push(Self::bishop_white(crate::constants::F1, 6));
        v.push(Self::knight_white(crate::constants::G1, 7));
        v.push(Self::rook_white(crate::constants::H1, 8));
        v.push(Self::pawn_white(crate::constants::A2, 9));
        v.push(Self::pawn_white(crate::constants::B2, 10));
        v.push(Self::pawn_white(crate::constants::C2, 11));
        v.push(Self::pawn_white(crate::constants::D2, 12));
        v.push(Self::pawn_white(crate::constants::E2, 13));
        v.push(Self::pawn_white(crate::constants::F2, 14));
        v.push(Self::pawn_white(crate::constants::G2, 15));
        v.push(Self::pawn_white(crate::constants::H2, 16));
        v
    }

    fn gen_std_black() -> (r: Vec<Piece>)
        ensures
            r@.len() == 16,
            forall|j: int| 0 <= j < 16 ==> #[trigger] r@[j] == std_black_piece(j),
    {
        let mut v: Vec<Piece> = Vec::new();
        v.push(Self::pawn_black(crate::constants::A7, -16));
        v.push(Self::pawn_black(crate::constants::B7, -15));
        v.push(Self::pawn_black(crate::constants::C7, -14));
        v.push(Self::pawn_black(crate::constants::D7, -13));
        v.push(Self::pawn_black(crate::constants::E7, -12));
        v.push(Self::pawn_black(crate::constants::F7, -11));
        v.push(Self::pawn_black(crate::constants::G7, -10));
        v.push(Self::pawn_black(crate::constants::H7, -9));
        v.push(Self::rook_black(crate::constants::A8, -8));
        v.push(Self::knight_black(crate::constants::B8, -7));
        v.push(Self::bishop_black(crate::constants::C8, -6));
        v.push(Self::queen_black(crate::constants::D8, -5));
        v.push(Self::king_black(crate::constants::E8, -4));
        v.push(Self::bishop_black(crate::constants::F8, -3));
        v.push(Self::knight_black(crate::constants::G8, -2));
        v.push(Self::rook_black(crate::constants::H8, -1));
        v
    }
}

} // verus!
