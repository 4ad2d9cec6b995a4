//! The board's data model: pieces, tiles, movement directions, and the
//! bounded vision record produced for a piece.

use vstd::prelude::*;

use crate::math::{index_to_xy, index_to_xy_spec, XyPair};
use crate::msg::{PieceId, TileId};

verus! {

/// A flat sequence of 64 tiles backing one game's board.
pub type RawBoard = Vec<Tile>;

/// An 8x8 view of a board, row by row.
pub struct Board(pub Vec<Tile>);

/// One chess piece. A piece is owned by exactly one player's roster; tiles
/// refer to it only through its identifier.
#[derive(Debug, Clone, Copy, PartialEq, Eq, Structural)]
pub struct Piece {
    pub id: PieceId,
    pub color: Color,
    pub ty: Type,
    pub loc: TileId,
}

/// The sign of a piece identifier encodes its color: the first player's
/// identifiers are positive, the second player's negative.
pub open spec fn id_is_white(id: PieceId) -> bool {
    id > 0
}

/// A well-formed piece: its identifier sign matches its color, the
/// identifier magnitude fits one roster, and it sits on the board.
pub open spec fn piece_wf(p: Piece) -> bool {
    &&& p.color == Color::White ==> 1 <= p.id <= 16
    &&& p.color == Color::Black ==> -16 <= p.id <= -1
    &&& p.loc < 64
}

impl Piece {
    /// Records the piece's new position after it moves.
    pub fn update_loc(&mut self, new_loc: TileId)
        ensures
            *final(self) == (Piece { loc: new_loc, ..*old(self) }),
    {
        self.loc = new_loc;
    }

    /// Assigns the piece's identifier during setup.
    pub fn set_id(&mut self, new_id: PieceId)
        ensures
            *final(self) == (Piece { id: new_id, ..*old(self) }),
    {
        self.id = new_id;
    }
}

/// A direction-typed displacement relative to a piece's color-normalized
/// orientation. Only the no-op and forward variants carry implemented
/// destination math; the rest are extension points.
#[derive(Debug, Default, Clone, Copy, PartialEq, Eq, Structural)]
pub enum Direction {
    Forward(usize),
    Backward(usize),
    Right(usize),
    Left(usize),
    ForwardRight(usize),
    BackwardRight(usize),
    ForwardLeft(usize),
    BackwardLeft(usize),
    ForwardTwoRightOne,
    ForwardOneRightTwo,
    BackwardTwoRightOne,
    BackwardOneRightTwo,
    ForwardTwoLeftOne,
    ForwardOneLeftTwo,
    BackwardTwoLeftOne,
    BacwardOneLeftTwo,
    #[default]
    Nil,
}

/// One candidate movement of a piece: the piece, the tile it starts from,
/// whether the destination holds an enemy piece, and the displacement.
#[derive(Debug, Clone, Copy, PartialEq, Eq, Structural)]
pub struct Move {
    pub piece_id: PieceId,
    pub from: TileId,
    pub cap: bool,
    pub dir: Direction,
}

/// The coordinate a move arrives at, for the directions whose math is
/// implemented. Forward displacement raises the rank.
pub open spec fn move_dest_spec(m: Move) -> XyPair {
    match m.dir {
        Direction::Forward(delta_y) => XyPair {
            x: (m.from % 8) as isize,
            y: (m.from / 8 + delta_y) as isize,
        },
        _ => index_to_xy_spec(m.from as int),
    }
}

impl Move {
    /// The coordinate this move arrives at. Only the first player's
    /// orientation and the no-op and forward directions are implemented;
    /// forward destinations must stay on the board.
    pub fn dest(&self) -> (r: XyPair)
        requires
            id_is_white(self.piece_id),
            self.from < 64,
            self.dir is Nil || self.dir is Forward,
            self.dir matches Direction::Forward(dy) ==> self.from / 8 + dy <= 7,
        ensures
            r == move_dest_spec(*self),
    {
        match self.dir {
            Direction::Nil => index_to_xy(self.from),
            Direction::Forward(delta_y) => {
                let XyPair { x, y } = index_to_xy(self.from);
                let new_y: usize = y as usize + delta_y;
                XyPair { x, y: new_y as isize }
            },
            _ => index_to_xy(self.from),
        }
    }

    /// The no-op move: the piece stays where it is.
    pub fn new_nil(on: &Piece) -> (r: Move)
        ensures
            r == (Move { piece_id: on.id, from: on.loc, cap: false, dir: Direction::Nil }),
    {
        Move { piece_id: on.id, from: on.loc, cap: false, dir: Direction::Nil }
    }

    /// A forward displacement of `len` ranks, away from the owner's back
    /// rank.
    pub fn forward(on: &Piece, len: usize) -> (r: Move)
        ensures
            r == (Move { piece_id: on.id, from: on.loc, cap: false, dir: Direction::Forward(len) }),
    {
        Move { piece_id: on.id, from: on.loc, cap: false, dir: Direction::Forward(len) }
    }
}

/// The playable kinds of chess piece.
#[derive(Clone, Copy, Debug, Eq, PartialEq, Structural)]
pub enum Type {
    Pawn,
    Rook,
    Bishop,
    Knight,
    Queen,
    King,
}

/// The two sides of a game. Turns proceed white first.
#[derive(Clone, Copy, Debug, Eq, PartialEq, Structural)]
pub enum Color {
    White,
    Black,
}

impl Default for Color {
    fn default() -> (r: Color)
        ensures
            r == Color::White,
    {
        Color::White
    }
}

/// The fixed shading of a tile.
#[derive(Debug, Clone, Copy, Eq, PartialEq, Structural)]
pub enum Background {
    Light,
    Dark,
}

impl Default for Background {
    fn default() -> (r: Background)
        ensures
            r == Background::Dark,
    {
        Background::Dark
    }
}

/// Whether a piece color corresponds to a tile shading: white pieces pair
/// with light tiles, black pieces with dark ones.
pub open spec fn color_matches_background_spec(c: Color, b: Background) -> bool {
    (c == Color::White && b == Background::Light) || (c == Color::Black && b == Background::Dark)
}

impl Color {
    /// Compares a piece color against a tile shading, for the standard-setup
    /// consistency check on queens.
    pub fn matches_background(&self, other: &Background) -> (r: bool)
        ensures
            r == color_matches_background_spec(*self, *other),
    {
        match (self, other) {
            (Color::White, Background::Light) => true,
            (Color::Black, Background::Dark) => true,
            _ => false,
        }
    }
}

/// One of the 64 board cells. The two endzone flags mark the promotion back
/// ranks and are never both set; `pz` is a non-owning reference, by
/// identifier, to the piece standing on the tile.
#[derive(Debug, Clone, Copy, PartialEq, Eq, Structural)]
pub struct Tile {
    pub w_endzone: bool,
    pub b_endzone: bool,
    pub color: Background,
    pub index: TileId,
    pub pz: Option<PieceId>,
}

impl Tile {
    /// A fresh dark tile. Marking a tile as both endzones is a fatal
    /// configuration error and is ruled out up front.
    pub fn dark(index: TileId, w_endzone: bool, b_endzone: bool) -> (r: Tile)
        requires
            !(w_endzone && b_endzone),
        ensures
            r == (Tile { w_endzone, b_endzone, color: Background::Dark, index, pz: None }),
    {
        Tile { w_endzone, b_endzone, color: Background::Dark, index, pz: None }
    }

    /// A fresh light tile. Marking a tile as both endzones is a fatal
    /// configuration error and is ruled out up front.
    pub fn light(index: TileId, w_endzone: bool, b_endzone: bool) -> (r: Tile)
        requires
            !(w_endzone && b_endzone),
        ensures
            r == (Tile { w_endzone, b_endzone, color: Background::Light, index, pz: None }),
    {
        Tile { w_endzone, b_endzone, color: Background::Light, index, pz: None }
    }

    /// Installs, replaces or clears the tile's piece reference.
    pub fn update_piece(&mut self, new_piece: Option<PieceId>)
        ensures
            *final(self) == (Tile { pz: new_piece, ..*old(self) }),
    {
        self.pz = new_piece;
    }
}

/// A well-formed tile at position `i`: it knows its own index and is not
/// flagged as both endzones.
pub open spec fn tile_wf(t: Tile, i: int) -> bool {
    &&& t.index == i
    &&& !(t.w_endzone && t.b_endzone)
}

/// A well-formed raw board: exactly 64 tiles, each well formed at its
/// position.
pub open spec fn board_wf(b: Seq<Tile>) -> bool {
    &&& b.len() == 64
    &&& forall|i: int| 0 <= i < 64 ==> tile_wf(#[trigger] b[i], i)
}

/// The number of movement slots a vision record carries: one no-op plus the
/// largest plausible ray and offset combination of any piece type.
pub open spec fn vision_slots() -> int {
    25
}

/// The candidate movements computed for one piece: a bounded buffer of 25
/// optional moves, unused slots empty.
#[derive(Debug, Clone, PartialEq, Eq)]
pub struct VisionPiece {
    pub piece_id: PieceId,
    pub moves: Vec<Option<Move>>,
}

/// A well-formed vision record fills exactly the 25 slots.
pub open spec fn vision_wf(v: VisionPiece) -> bool {
    v.moves.len() == vision_slots()
}

impl VisionPiece {
    /// A vision record with every slot empty.
    pub fn new_empty(piece_id: PieceId) -> (r: VisionPiece)
        ensures
            r.piece_id == piece_id,
            vision_wf(r),
            forall|i: int| 0 <= i < 25 ==> r.moves@[i] is None,
    {
        let mut moves: Vec<Option<Move>> = Vec::new();
        while moves.len() < 25
            invariant
                moves.len() <= 25,
                forall|i: int| 0 <= i < moves.len() ==> moves@[i] is None,
            decreases 25 - moves.len(),
        {
            moves.push(None);
        }
        VisionPiece { piece_id, moves }
    }

    /// A vision record holding the given moves in order, the remaining slots
    /// empty. At most 25 moves are kept.
    pub fn new_with_moves(piece_id: PieceId, moves: Vec<Move>) -> (r: VisionPiece)
        ensures
            r.piece_id == piece_id,
            vision_wf(r),
            forall|i: int|
                0 <= i < 25 ==> r.moves@[i] == (if i < moves@.len() {
                    Some(moves@[i])
                } else {
                    None::<Move>
                }),
    {
        let mut buffer: Vec<Option<Move>> = Vec::new();
        let mut i: usize = 0;
        while i < moves.len() && i < 25
            invariant
                i <= moves.len(),
                i <= 25,
                buffer.len() == i,
                forall|j: int| 0 <= j < i ==> buffer@[j] == Some(moves@[j]),
            decreases 25 - i,
        {
            buffer.push(Some(moves[i]));
            i = i + 1;
        }
        while buffer.len() < 25
            invariant
                i <= 25,
                i <= moves.len(),
                i == 25 || i == moves.len(),
                i <= buffer.len() <= 25,
                forall|j: int| 0 <= j < i ==> buffer@[j] == Some(moves@[j]),
                forall|j: int| i <= j < buffer.len() ==> buffer@[j] is None,
            decreases 25 - buffer.len(),
        {
            buffer.push(None);
        }
        VisionPiece { piece_id, moves: buffer }
    }
}

} // verus!
