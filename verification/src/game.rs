//! Game state: player rosters, the action history, piece placement, and the
//! vision generator for candidate moves.

use vstd::prelude::*;

use crate::errors::ChessError;
use crate::helper::chess_board;
use crate::msg::{PieceId, PlayerId, TileId};
use crate::types::{
    id_is_white, piece_wf, vision_wf, Color, Direction, Move, Piece, RawBoard, Tile, VisionPiece,
};

verus! {

// ---------------------------------------------------------------------------
// Roster lookups
// ---------------------------------------------------------------------------
/// The first piece of a roster carrying the given identifier, scanning in
/// insertion order.
pub open spec fn find_piece_by_id(ps: Seq<Piece>, id: PieceId) -> Option<Piece>
    decreases ps.len(),
{
    if ps.len() == 0 {
        None
    } else if ps[0].id == id {
        Some(ps[0])
    } else {
        find_piece_by_id(ps.skip(1), id)
    }
}

/// The identifier of the first roster piece standing on the given tile,
/// scanning in insertion order.
pub open spec fn find_piece_at(ps: Seq<Piece>, loc: TileId) -> Option<PieceId>
    decreases ps.len(),
{
    if ps.len() == 0 {
        None
    } else if ps[0].loc == loc {
        Some(ps[0].id)
    } else {
        find_piece_at(ps.skip(1), loc)
    }
}

/// Piece lookup across both rosters: the identifier's sign selects which
/// roster is scanned, and out-of-range identifiers find nothing.
pub open spec fn piece_by_id_spec(p1: Seq<Piece>, p2: Seq<Piece>, id: PieceId) -> Option<Piece> {
    if 1 <= id <= 16 {
        find_piece_by_id(p1, id)
    } else if -16 <= id <= -1 {
        find_piece_by_id(p2, id)
    } else {
        None
    }
}

/// Skipping past elements that do not carry the identifier leaves the lookup
/// result unchanged.
proof fn lemma_find_by_id_skip(ps: Seq<Piece>, id: PieceId, k: int)
    requires
        0 <= k <= ps.len(),
        forall|j: int| 0 <= j < k ==> ps[j].id != id,
    ensures
        find_piece_by_id(ps, id) == find_piece_by_id(ps.skip(k), id),
    decreases k,
{
    if k > 0 {
        assert(ps[0].id != id);
        assert forall|j: int| 0 <= j < k - 1 implies ps.skip(1)[j].id != id by {
            assert(ps.skip(1)[j] == ps[j + 1]);
        }
        lemma_find_by_id_skip(ps.skip(1), id, k - 1);
        assert(ps.skip(1).skip(k - 1) =~= ps.skip(k));
    } else {
        assert(ps.skip(0) =~= ps);
    }
}

/// Skipping past elements that do not stand on the tile leaves the lookup
/// result unchanged.
pub(crate) proof fn lemma_find_at_skip(ps: Seq<Piece>, loc: TileId, k: int)
    requires
        0 <= k <= ps.len(),
        forall|j: int| 0 <= j < k ==> ps[j].loc != loc,
    ensures
        find_piece_at(ps, loc) == find_piece_at(ps.skip(k), loc),
    decreases k,
{
    if k > 0 {
        assert(ps[0].loc != loc);
        assert forall|j: int| 0 <= j < k - 1 implies ps.skip(1)[j].loc != loc by {
            assert(ps.skip(1)[j] == ps[j + 1]);
        }
        lemma_find_at_skip(ps.skip(1), loc, k - 1);
        assert(ps.skip(1).skip(k - 1) =~= ps.skip(k));
    } else {
        assert(ps.skip(0) =~= ps);
    }
}

/// Scans a roster for the piece carrying the given identifier.
fn scan_by_id(ps: &Vec<Piece>, id: PieceId) -> (r: Option<Piece>)
    ensures
        r == find_piece_by_id(ps@, id),
{
    let mut k: usize = 0;
    while k < ps.len()
        invariant
            k <= ps@.len(),
            forall|j: int| 0 <= j < k ==> ps@[j].id != id,
        decreases ps@.len() - k,
    {
        if ps[k].id == id {
            proof {
                lemma_find_by_id_skip(ps@, id, k as int);
                assert(ps@.skip(k as int)[0] == ps@[k as int]);
            }
            return Some(ps[k]);
        }
        k = k + 1;
    }
    proof {
        lemma_find_by_id_skip(ps@, id, ps@.len() as int);
    }
    None
}

/// Scans a roster for the identifier of the piece standing on a tile.
fn scan_at_loc(ps: &Vec<Piece>, loc: TileId) -> (r: Option<PieceId>)
    ensures
        r == find_piece_at(ps@, loc),
{
    let mut k: usize = 0;
    while k < ps.len()
        invariant
            k <= ps@.len(),
            forall|j: int| 0 <= j < k ==> ps@[j].loc != loc,
        decreases ps@.len() - k,
    {
        if ps[k].loc == loc {
            proof {
                lemma_find_at_skip(ps@, loc, k as int);
                assert(ps@.skip(k as int)[0] == ps@[k as int]);
            }
            return Some(ps[k].id);
        }
        k = k + 1;
    }
    proof {
        lemma_find_at_skip(ps@, loc, ps@.len() as int);
    }
    None
}

// ---------------------------------------------------------------------------
// Player rosters
// ---------------------------------------------------------------------------
/// One player's identity and owned pieces. The roster is the unique owner of
/// its pieces; boards refer to them only by identifier.
#[derive(Debug, Clone)]
pub struct PlayerData {
    pub color: Color,
    pub name: String,
    pub pieces: Vec<Piece>,
}

impl Default for PlayerData {
    fn default() -> (r: PlayerData)
        ensures
            r.color == Color::White,
            r.name@ == Seq::<char>::empty(),
            r.pieces@ == Seq::<Piece>::empty(),
    {
        PlayerData { color: Color::White, name: String::new(), pieces: Vec::new() }
    }
}

impl PlayerData {
    /// Builds a roster from whichever parts are at hand; a missing name falls
    /// back to the color's default and missing pieces to an empty roster.
    pub fn incomplete_init(color: Color, name: Option<String>, pieces: Option<Vec<Piece>>) -> (r:
        PlayerData)
        ensures
            r.color == color,
            match name {
                Some(n) => r.name == n,
                None => r.name@ == (if color == Color::White {
                    "player_1"@
                } else {
                    "player_2"@
                }),
            },
            match pieces {
                Some(ps) => r.pieces == ps,
                None => r.pieces@ == Seq::<Piece>::empty(),
            },
    {
        let name = if let Some(thing) = name {
            thing
        } else {
            match color {
                Color::White => "player_1".to_owned(),
                Color::Black => "player_2".to_owned(),
            }
        };
        let pieces = if let Some(thing) = pieces {
            thing
        } else {
            Vec::<Piece>::new()
        };
        PlayerData { color, name, pieces }
    }

    /// The first player's empty roster.
    pub fn new_white_player() -> (r: PlayerData)
        ensures
            r.color == Color::White,
            r.name@ == "player_1"@,
            r.pieces@ == Seq::<Piece>::empty(),
    {
        PlayerData {
            color: Color::White,
            name: "player_1".to_owned(),
            pieces: Vec::with_capacity(16),
        }
    }

    /// The second player's empty roster.
    pub fn new_black_player() -> (r: PlayerData)
        ensures
            r.color == Color::Black,
            r.name@ == "player_2"@,
            r.pieces@ == Seq::<Piece>::empty(),
    {
        PlayerData {
            color: Color::Black,
            name: "player_2".to_owned(),
            pieces: Vec::with_capacity(16),
        }
    }

    fn add_piece(&mut self, pz: Piece)
        ensures
            final(self).color == old(self).color,
            final(self).name == old(self).name,
            final(self).pieces@ == old(self).pieces@.push(pz),
    {
        self.pieces.push(pz);
    }
}

// ---------------------------------------------------------------------------
// History
// ---------------------------------------------------------------------------
/// A fully typed move payload: which piece moves, from which tile to which,
/// and whether the move captures the piece standing on the destination.
#[derive(Debug, Clone, Copy, PartialEq, Eq, Structural)]
pub struct MoveRecord {
    pub piece_id: PieceId,
    pub from: TileId,
    pub to: TileId,
    pub capture: bool,
}

/// One game-altering event of the history log.
#[derive(Default, Debug, Clone, Copy, PartialEq, Eq, Structural)]
pub enum Action {
    /// A pure identity transition.
    #[default]
    Nil,
    /// Re-establishes the board's non-owning piece references from the
    /// rosters, after a reconstructed state.
    FixPlayerData,
    /// Designates whose clock should be debited; clock accounting itself is
    /// an extension point.
    SetActivePlayer(PlayerId),
    /// Applies a move under the same placement discipline as direct
    /// placement.
    Move(MoveRecord),
}

/// An ordered, append-only log of actions plus an identifying label.
/// Replaying it against a reconstructed board reproduces the live board.
#[derive(Debug, Clone, PartialEq, Eq)]
pub struct History {
    pub id: String,
    pub actions: Vec<Action>,
}

impl Default for History {
    fn default() -> (r: History)
        ensures
            r.actions@ == Seq::<Action>::empty(),
    {
        History { id: String::new(), actions: Vec::new() }
    }
}

impl History {
    /// A fresh, empty log under the given label.
    pub fn init(id: String) -> (r: History)
        ensures
            r.id == id,
            r.actions@ == Seq::<Action>::empty(),
    {
        let actions: Vec<Action> = Vec::new();
        History { id, actions }
    }
}

// ---------------------------------------------------------------------------
// Placement
// ---------------------------------------------------------------------------
/// Installs a piece on a board tile and transfers its ownership into a
/// roster: the only sanctioned way to populate a tile. Fails with an
/// ownership mismatch when the piece's color is not the roster's, with an
/// out-of-bounds condition when the index misses the board, and with an
/// occupied-tile conflict when the destination already holds a piece; on
/// failure board and roster are left unchanged.
pub fn add_piece(board: &mut RawBoard, idx: TileId, player: &mut PlayerData, pz: Piece) -> (r:
    Result<(), ChessError>)
    requires
        old(board)@.len() == 64,
    ensures
        match r {
            Ok(()) => {
                &&& pz.color == old(player).color
                &&& idx < 64
                &&& old(board)@[idx as int].pz is None
                &&& final(board)@ == old(board)@.update(
                    idx as int,
                    Tile { pz: Some(pz.id), ..old(board)@[idx as int] },
                )
                &&& final(player).pieces@ == old(player).pieces@.push(
                    Piece { loc: idx, ..pz },
                )
                &&& final(player).color == old(player).color
                &&& final(player).name == old(player).name
            },
            Err(e) => {
                &&& final(board)@ == old(board)@
                &&& final(player).pieces@ == old(player).pieces@
                &&& final(player).color == old(player).color
                &&& final(player).name == old(player).name
                &&& e == ChessError::OwnershipMismatch <==> pz.color != old(player).color
                &&& e == ChessError::TileOutOfBounds <==> (pz.color == old(player).color && idx
                    >= 64)
                &&& e == ChessError::TileOccupied <==> (pz.color == old(player).color && idx < 64
                    && old(board)@[idx as int].pz is Some)
            },
        },
        r is Ok <==> (pz.color == old(player).color && idx < 64 && old(board)@[
            idx as int
        ].pz is None),
{
    if !matches!((pz.color, player.color), (Color::White, Color::White) | (
        Color::Black,
        Color::Black,
    )) {
        return Err(ChessError::OwnershipMismatch);
    }
    if idx >= 64 {
        return Err(ChessError::TileOutOfBounds);
    }
    if board[idx].pz.is_some() {
        return Err(ChessError::TileOccupied);
    }
    let mut pz = pz;
    pz.update_loc(idx);
    board[idx].pz = Some(pz.id);
    player.add_piece(pz);
    Ok(())
}

// ---------------------------------------------------------------------------
// Vision
// ---------------------------------------------------------------------------
/// Whether the tile at `d` holds a piece allied to the piece with identifier
/// `id`: the signs of the two identifiers agree.
pub open spec fn ally_at(board: Seq<Tile>, id: PieceId, d: int) -> bool {
    match board[d].pz {
        Some(q) => id_is_white(q) == id_is_white(id),
        None => false,
    }
}

/// Whether the tile at `d` holds a piece opposed to the piece with
/// identifier `id`: the signs of the two identifiers differ.
pub open spec fn enemy_at(board: Seq<Tile>, id: PieceId, d: int) -> bool {
    match board[d].pz {
        Some(q) => id_is_white(q) != id_is_white(id),
        None => false,
    }
}

/// Whether a forward step of `n` ranks keeps the piece on the board and
/// clear of allied occupancy.
pub open spec fn pawn_step_ok(p: Piece, board: Seq<Tile>, n: int) -> bool {
    &&& p.loc / 8 + n <= 7
    &&& !ally_at(board, p.id, p.loc + 8 * n)
}

/// The forward move of `n` ranks for a pawn, marked as a capture when an
/// enemy piece stands on the destination.
pub open spec fn pawn_forward_move(p: Piece, board: Seq<Tile>, n: int) -> Move {
    Move {
        piece_id: p.id,
        from: p.loc,
        cap: enemy_at(board, p.id, p.loc + 8 * n),
        dir: Direction::Forward(n as usize),
    }
}

/// The no-op move of a piece: it stays where it stands.
pub open spec fn nil_move(p: Piece) -> Move {
    Move { piece_id: p.id, from: p.loc, cap: false, dir: Direction::Nil }
}

/// The candidate moves of a pawn, in enumeration order: the no-op first,
/// then forward by one and by two, each kept only while it stays on the
/// board and is not blocked by an allied piece.
pub open spec fn pawn_vision_seq(p: Piece, board: Seq<Tile>) -> Seq<Move> {
    let s0 = seq![nil_move(p)];
    let s1 = if pawn_step_ok(p, board, 1) {
        s0.push(pawn_forward_move(p, board, 1))
    } else {
        s0
    };
    if pawn_step_ok(p, board, 2) {
        s1.push(pawn_forward_move(p, board, 2))
    } else {
        s1
    }
}

/// Whether the vision of a piece on this board is implemented: only the
/// first player's pawns have a rule set so far.
pub open spec fn vision_available(p: Piece) -> bool {
    p.color == Color::White && p.ty == crate::types::Type::Pawn
}

/// A white pawn standing on its initial rank with both tiles ahead of it
/// free sees exactly three destinations — stay, forward by one, forward by
/// two — none of them captures, and every destination lies within the board
/// bounds.
pub proof fn lemma_opening_pawn_vision(p: Piece, board: Seq<Tile>)
    requires
        piece_wf(p),
        p.color == Color::White,
        p.ty == crate::types::Type::Pawn,
        8 <= p.loc < 16,
        board.len() == 64,
        board[p.loc + 8].pz is None,
        board[p.loc + 16].pz is None,
    ensures
        pawn_vision_seq(p, board).len() == 3,
        pawn_vision_seq(p, board)[0] == nil_move(p),
        pawn_vision_seq(p, board)[1] == (Move {
            piece_id: p.id,
            from: p.loc,
            cap: false,
            dir: Direction::Forward(1),
        }),
        pawn_vision_seq(p, board)[2] == (Move {
            piece_id: p.id,
            from: p.loc,
            cap: false,
            dir: Direction::Forward(2),
        }),
        forall|i: int|
            0 <= i < 3 ==> crate::math::xy_in_bounds(
                crate::types::move_dest_spec(#[trigger] pawn_vision_seq(p, board)[i]),
            ),
{
    assert(p.loc / 8 == 1);
}

/// No candidate a pawn's vision lists leaves the board: every destination
/// stays within the 8x8 bounds, because out-of-range steps are discarded
/// rather than wrapped.
pub proof fn lemma_vision_stays_on_board(p: Piece, board: Seq<Tile>)
    requires
        piece_wf(p),
        board.len() == 64,
    ensures
        forall|k: int|
            0 <= k < pawn_vision_seq(p, board).len() ==> crate::math::xy_in_bounds(
                crate::types::move_dest_spec(#[trigger] pawn_vision_seq(p, board)[k]),
            ),
{
}

/// Vision is a pure function of its inputs: computing it twice for the same
/// piece and board yields identical candidate moves, and the computation
/// takes the piece and the board by shared reference, so neither is ever
/// written.
pub proof fn lemma_vision_deterministic(pa: Piece, ba: Seq<Tile>, pb: Piece, bb: Seq<Tile>)
    requires
        pa == pb,
        ba == bb,
    ensures
        pawn_vision_seq(pa, ba) == pawn_vision_seq(pb, bb),
{
}

// ---------------------------------------------------------------------------
// Game state
// ---------------------------------------------------------------------------
/// A piece sequence whose members all carry the given color and are well
/// formed.
pub open spec fn roster_pieces_wf(ps: Seq<Piece>, color: Color) -> bool {
    forall|j: int| 0 <= j < ps.len() ==> piece_wf(#[trigger] ps[j]) && ps[j].color == color
}

/// A roster whose pieces all carry the roster's color and are well formed.
pub open spec fn roster_wf(pd: PlayerData) -> bool {
    roster_pieces_wf(pd.pieces@, pd.color)
}

/// The piece reference a tile at `loc` should hold, given the two rosters:
/// the first roster piece standing there, the first player's roster scanned
/// first.
pub open spec fn roster_link(p1: Seq<Piece>, p2: Seq<Piece>, loc: TileId) -> Option<PieceId> {
    match find_piece_at(p1, loc) {
        Some(id) => Some(id),
        None => find_piece_at(p2, loc),
    }
}

/// The aggregate state of one game: flags, clocks, both rosters, the board,
/// and the replayable history.
#[derive(Debug, Clone)]
pub struct GameState {
    pub started: bool,
    pub finished: bool,
    pub p1_clock: Option<u32>,
    pub p2_clock: Option<u32>,
    pub p1: PlayerData,
    pub p2: PlayerData,
    pub board: RawBoard,
    pub hist: History,
}

impl GameState {
    /// A blank game: fresh board, empty default rosters, no clocks, empty
    /// history.
    pub fn new() -> (r: GameState)
        ensures
            !r.started,
            !r.finished,
            r.p1_clock is None,
            r.p2_clock is None,
            crate::helper::is_fresh_board(r.board@),
            r.p1.color == Color::White,
            r.p1.name@ == Seq::<char>::empty(),
            r.p1.pieces@ == Seq::<Piece>::empty(),
            r.p2.color == Color::White,
            r.p2.name@ == Seq::<char>::empty(),
            r.p2.pieces@ == Seq::<Piece>::empty(),
            r.hist.actions@ == Seq::<Action>::empty(),
    {
        let board: RawBoard = chess_board();
        GameState {
            started: false,
            finished: false,
            p1_clock: None,
            p2_clock: None,
            p1: PlayerData::default(),
            p2: PlayerData::default(),
            board,
            hist: History::default(),
        }
    }

    /// Aggregates already-built parts into a game state.
    pub fn init(
        started: bool,
        finished: bool,
        p1_clock: Option<u32>,
        p2_clock: Option<u32>,
        p1: PlayerData,
        p2: PlayerData,
        board: RawBoard,
        hist: History,
    ) -> (r: GameState)
        ensures
            r.started == started,
            r.finished == finished,
            r.p1_clock == p1_clock,
            r.p2_clock == p2_clock,
            r.p1 == p1,
            r.p2 == p2,
            r.board == board,
            r.hist == hist,
    {
        GameState { started, finished, p1_clock, p2_clock, p1, p2, board, hist }
    }

    /// Looks a piece up by identifier; the identifier's sign selects the
    /// roster scanned, and identifiers outside both ranges find nothing.
    pub fn piece_by_id(&self, piece_id: &PieceId) -> (r: Option<Piece>)
        ensures
            r == piece_by_id_spec(self.p1.pieces@, self.p2.pieces@, *piece_id),
    {
        let pid = *piece_id;
        if 1 <= pid && pid <= 16 {
            scan_by_id(&self.p1.pieces, pid)
        } else if -16 <= pid && pid <= -1 {
            scan_by_id(&self.p2.pieces, pid)
        } else {
            None
        }
    }

    /// Derives the candidate destination set of a piece on the given board.
    /// Succeeds exactly for the piece and color combinations whose movement
    /// rule is implemented; the result lists the candidates of
    /// [`pawn_vision_seq`] in order, the remaining slots empty. The board and
    /// the piece are read, never written.
    pub fn calculate_vision(&self, piece: &Piece, board: &RawBoard) -> (r: Result<
        VisionPiece,
        ChessError,
    >)
        requires
            piece_wf(*piece),
            board@.len() == 64,
        ensures
            r is Ok <==> vision_available(*piece),
            match r {
                Ok(v) => {
                    &&& vision_wf(v)
                    &&& v.piece_id == piece.id
                    &&& forall|i: int|
                        0 <= i < 25 ==> v.moves@[i] == (if i < pawn_vision_seq(
                            *piece,
                            board@,
                        ).len() {
                            Some(pawn_vision_seq(*piece, board@)[i])
                        } else {
                            None::<Move>
                        })
                },
                Err(e) => e == ChessError::RuleUnavailable,
            },
    {
        let invert: bool = matches!(piece.color, Color::Black);
        if invert {
            // Movement of the second player awaits the mirror-transform
            // normalization.
            return Err(ChessError::RuleUnavailable);
        }
        match piece.ty {
            crate::types::Type::Pawn => {
                let mut mv: Vec<Move> = Vec::new();
                mv.push(Move::new_nil(piece));
                if piece.loc / 8 + 1 <= 7 {
                    let mut f1 = Move::forward(piece, 1);
                    match board[piece.loc + 8].pz {
                        Some(q) => {
                            if (q > 0) != (piece.id > 0) {
                                f1.cap = true;
                                mv.push(f1);
                            }
                        },
                        None => {
                            mv.push(f1);
                        },
                    }
                }
                if piece.loc / 8 + 2 <= 7 {
                    let mut f2 = Move::forward(piece, 2);
                    match board[piece.loc + 16].pz {
                        Some(q) => {
                            if (q > 0) != (piece.id > 0) {
                                f2.cap = true;
                                mv.push(f2);
                            }
                        },
                        None => {
                            mv.push(f2);
                        },
                    }
                }
                proof {
                    assert(mv@ =~= pawn_vision_seq(*piece, board@));
                }
                Ok(VisionPiece::new_with_moves(piece.id, mv))
            },
            _ => Err(ChessError::RuleUnavailable),
        }
    }
}

/// A found piece is a member of the roster it was found in and carries the
/// identifier it was looked up by.
pub proof fn lemma_find_by_id_is_member(ps: Seq<Piece>, id: PieceId)
    ensures
        match find_piece_by_id(ps, id) {
            Some(p) => ps.contains(p) && p.id == id,
            None => true,
        },
    decreases ps.len(),
{
    if ps.len() > 0 && ps[0].id != id {
        lemma_find_by_id_is_member(ps.skip(1), id);
        match find_piece_by_id(ps.skip(1), id) {
            Some(p) => {
                let j = choose|j: int| 0 <= j < ps.skip(1).len() && ps.skip(1)[j] == p;
                assert(ps[j + 1] == p);
            },
            None => {},
        }
    }
}

/// The action log stored for a reconstructed session: a repair-references
/// action is prepended whenever the supplied log does not already begin with
/// one, and the designated active player, if any, is appended.
pub open spec fn normalized_actions(orig: Seq<Action>, active: Option<PlayerId>) -> Seq<Action> {
    let base = if orig.len() > 0 && orig[0] == Action::FixPlayerData {
        orig
    } else {
        seq![Action::FixPlayerData] + orig
    };
    match active {
        Some(pid) => base.push(Action::SetActivePlayer(pid)),
        None => base,
    }
}

// ---------------------------------------------------------------------------
// Replay model
// ---------------------------------------------------------------------------
/// A roster with the first piece carrying the identifier relocated to `to`;
/// a roster without the identifier is left unchanged.
pub open spec fn set_loc_by_id(ps: Seq<Piece>, id: PieceId, to: TileId) -> Seq<Piece>
    decreases ps.len(),
{
    if ps.len() == 0 {
        ps
    } else if ps[0].id == id {
        seq![Piece { loc: to, ..ps[0] }] + ps.skip(1)
    } else {
        seq![ps[0]] + set_loc_by_id(ps.skip(1), id, to)
    }
}

/// A roster with the first piece carrying the identifier disposed of; a
/// roster without the identifier is left unchanged.
pub open spec fn remove_by_id(ps: Seq<Piece>, id: PieceId) -> Seq<Piece>
    decreases ps.len(),
{
    if ps.len() == 0 {
        ps
    } else if ps[0].id == id {
        ps.skip(1)
    } else {
        seq![ps[0]] + remove_by_id(ps.skip(1), id)
    }
}

proof fn lemma_set_loc_first(ps: Seq<Piece>, id: PieceId, to: TileId, k: int)
    requires
        0 <= k < ps.len(),
        ps[k].id == id,
        forall|j: int| 0 <= j < k ==> ps[j].id != id,
    ensures
        set_loc_by_id(ps, id, to) == ps.update(k, Piece { loc: to, ..ps[k] }),
    decreases k,
{
    if k == 0 {
        assert(set_loc_by_id(ps, id, to) =~= ps.update(0, Piece { loc: to, ..ps[0] }));
    } else {
        assert forall|j: int| 0 <= j < k - 1 implies ps.skip(1)[j].id != id by {
            assert(ps.skip(1)[j] == ps[j + 1]);
        }
        assert(ps.skip(1)[k - 1] == ps[k]);
        lemma_set_loc_first(ps.skip(1), id, to, k - 1);
        assert(seq![ps[0]] + ps.skip(1).update(k - 1, Piece { loc: to, ..ps[k] }) =~= ps.update(
            k,
            Piece { loc: to, ..ps[k] },
        ));
    }
}

proof fn lemma_set_loc_absent(ps: Seq<Piece>, id: PieceId, to: TileId)
    requires
        forall|j: int| 0 <= j < ps.len() ==> ps[j].id != id,
    ensures
        set_loc_by_id(ps, id, to) == ps,
    decreases ps.len(),
{
    if ps.len() > 0 {
        assert forall|j: int| 0 <= j < ps.skip(1).len() implies ps.skip(1)[j].id != id by {
            assert(ps.skip(1)[j] == ps[j + 1]);
        }
        lemma_set_loc_absent(ps.skip(1), id, to);
        assert(seq![ps[0]] + ps.skip(1) =~= ps);
    }
}

proof fn lemma_remove_first(ps: Seq<Piece>, id: PieceId, k: int)
    requires
        0 <= k < ps.len(),
        ps[k].id == id,
        forall|j: int| 0 <= j < k ==> ps[j].id != id,
    ensures
        remove_by_id(ps, id) == ps.remove(k),
    decreases k,
{
    if k == 0 {
        assert(remove_by_id(ps, id) =~= ps.remove(0));
    } else {
        assert forall|j: int| 0 <= j < k - 1 implies ps.skip(1)[j].id != id by {
            assert(ps.skip(1)[j] == ps[j + 1]);
        }
        assert(ps.skip(1)[k - 1] == ps[k]);
        lemma_remove_first(ps.skip(1), id, k - 1);
        assert(seq![ps[0]] + ps.skip(1).remove(k - 1) =~= ps.remove(k));
    }
}

proof fn lemma_remove_absent(ps: Seq<Piece>, id: PieceId)
    requires
        forall|j: int| 0 <= j < ps.len() ==> ps[j].id != id,
    ensures
        remove_by_id(ps, id) == ps,
    decreases ps.len(),
{
    if ps.len() > 0 {
        assert forall|j: int| 0 <= j < ps.skip(1).len() implies ps.skip(1)[j].id != id by {
            assert(ps.skip(1)[j] == ps[j + 1]);
        }
        lemma_remove_absent(ps.skip(1), id);
        assert(seq![ps[0]] + ps.skip(1) =~= ps);
    }
}

/// Relocates the first roster piece carrying the identifier, if any.
fn set_loc_exec(ps: &mut Vec<Piece>, id: PieceId, to: TileId)
    ensures
        final(ps)@ == set_loc_by_id(old(ps)@, id, to),
{
    let mut k: usize = 0;
    while k < ps.len()
        invariant
            ps@ == old(ps)@,
            k <= ps@.len(),
            forall|j: int| 0 <= j < k ==> ps@[j].id != id,
        decreases ps@.len() - k,
    {
        if ps[k].id == id {
            let mut tmp = ps[k];
            tmp.loc = to;
            ps[k] = tmp;
            proof {
                lemma_set_loc_first(old(ps)@, id, to, k as int);
            }
            return ;
        }
        k = k + 1;
    }
    proof {
        lemma_set_loc_absent(ps@, id, to);
    }
}

/// Disposes of the first roster piece carrying the identifier, if any.
fn remove_exec(ps: &mut Vec<Piece>, id: PieceId)
    ensures
        final(ps)@ == remove_by_id(old(ps)@, id),
{
    let mut k: usize = 0;
    while k < ps.len()
        invariant
            ps@ == old(ps)@,
            k <= ps@.len(),
            forall|j: int| 0 <= j < k ==> ps@[j].id != id,
        decreases ps@.len() - k,
    {
        if ps[k].id == id {
            let _ = ps.remove(k);
            proof {
                lemma_remove_first(old(ps)@, id, k as int);
            }
            return ;
        }
        k = k + 1;
    }
    proof {
        lemma_remove_absent(ps@, id);
    }
}

proof fn lemma_set_loc_preserves_wf(ps: Seq<Piece>, color: Color, id: PieceId, to: TileId)
    requires
        roster_pieces_wf(ps, color),
        to < 64,
    ensures
        roster_pieces_wf(set_loc_by_id(ps, id, to), color),
    decreases ps.len(),
{
    if ps.len() > 0 {
        assert forall|j: int| 0 <= j < ps.skip(1).len() implies piece_wf(#[trigger] ps.skip(1)[j])
            && ps.skip(1)[j].color == color by {
            assert(ps.skip(1)[j] == ps[j + 1]);
        }
        lemma_set_loc_preserves_wf(ps.skip(1), color, id, to);
    }
}

proof fn lemma_remove_preserves_wf(ps: Seq<Piece>, color: Color, id: PieceId)
    requires
        roster_pieces_wf(ps, color),
    ensures
        roster_pieces_wf(remove_by_id(ps, id), color),
    decreases ps.len(),
{
    if ps.len() > 0 {
        assert forall|j: int| 0 <= j < ps.skip(1).len() implies piece_wf(#[trigger] ps.skip(1)[j])
            && ps.skip(1)[j].color == color by {
            assert(ps.skip(1)[j] == ps[j + 1]);
        }
        lemma_remove_preserves_wf(ps.skip(1), color, id);
    }
}

/// The board with every tile's piece reference re-derived from the rosters,
/// tile skeleton unchanged.
pub open spec fn fix_links(p1: Seq<Piece>, p2: Seq<Piece>, board: Seq<Tile>) -> Seq<Tile> {
    Seq::new(board.len(), |i: int| Tile { pz: roster_link(p1, p2, i as usize), ..board[i] })
}

/// Rebuilds every tile's piece reference from the rosters.
fn fix_links_exec(board: &mut RawBoard, p1: &Vec<Piece>, p2: &Vec<Piece>)
    requires
        old(board)@.len() == 64,
    ensures
        final(board)@ == fix_links(p1@, p2@, old(board)@),
{
    let mut i: usize = 0;
    while i < 64
        invariant
            board@.len() == 64,
            old(board)@.len() == 64,
            i <= 64,
            forall|j: int| 0 <= j < i ==> board@[j] == fix_links(p1@, p2@, old(board)@)[j],
            forall|j: int| i <= j < 64 ==> board@[j] == old(board)@[j],
        decreases 64 - i,
    {
        let link = match scan_at_loc(p1, i) {
            Some(id) => Some(id),
            None => scan_at_loc(p2, i),
        };
        board[i].pz = link;
        i = i + 1;
    }
    proof {
        assert(board@ =~= fix_links(p1@, p2@, old(board)@));
    }
}

/// The error an apply-move action fails with, if any, checked in the order
/// the engine tests the conditions: tile indices on the board, the piece
/// found by identifier, its recorded origin and the board's reference in
/// agreement, the destination free of allied pieces, the capture flag
/// matching enemy occupancy of the destination, and — for a piece whose
/// movement rule is implemented — the destination among those its vision
/// lists.
pub open spec fn move_error(p1: Seq<Piece>, p2: Seq<Piece>, b: Seq<Tile>, mr: MoveRecord) -> Option<
    ChessError,
> {
    if mr.from >= 64 || mr.to >= 64 {
        Some(ChessError::TileOutOfBounds)
    } else if piece_by_id_spec(p1, p2, mr.piece_id) is None {
        Some(ChessError::PieceNotFound)
    } else if piece_by_id_spec(p1, p2, mr.piece_id)->Some_0.loc != mr.from {
        Some(ChessError::InconsistentAction)
    } else if b[mr.from as int].pz != Some(mr.piece_id) {
        Some(ChessError::InconsistentAction)
    } else if ally_at(b, mr.piece_id, mr.to as int) {
        Some(ChessError::TileOccupied)
    } else if mr.capture != enemy_at(b, mr.piece_id, mr.to as int) {
        Some(ChessError::InconsistentAction)
    } else if vision_available(piece_by_id_spec(p1, p2, mr.piece_id)->Some_0) && !(mr.to
        == mr.from + 8 || mr.to == mr.from + 16) {
        Some(ChessError::IllegalMove)
    } else {
        None
    }
}

/// An accepted apply-move action of a piece with an implemented rule set
/// lands on a destination that the piece's own vision lists, with the same
/// capture marking.
pub proof fn lemma_accepted_moves_lie_in_vision(
    p1: Seq<Piece>,
    p2: Seq<Piece>,
    b: Seq<Tile>,
    mr: MoveRecord,
)
    requires
        b.len() == 64,
        move_error(p1, p2, b, mr) is None,
        vision_available(piece_by_id_spec(p1, p2, mr.piece_id)->Some_0),
    ensures
        ({
            let p = piece_by_id_spec(p1, p2, mr.piece_id)->Some_0;
            let n: usize = if mr.to == mr.from + 8 {
                1
            } else {
                2
            };
            exists|k: int|
                0 <= k < pawn_vision_seq(p, b).len() && (#[trigger] pawn_vision_seq(p, b)[k])
                    == (Move { piece_id: p.id, from: mr.from, cap: mr.capture, dir: Direction::Forward(n) })
        }),
{
    let p = piece_by_id_spec(p1, p2, mr.piece_id)->Some_0;
    lemma_find_by_id_is_member(p1, mr.piece_id);
    lemma_find_by_id_is_member(p2, mr.piece_id);
    if mr.to == mr.from + 8 {
        assert(pawn_step_ok(p, b, 1));
        assert(pawn_vision_seq(p, b)[1] == pawn_forward_move(p, b, 1));
    } else {
        assert(pawn_step_ok(p, b, 2));
        if pawn_step_ok(p, b, 1) {
            assert(pawn_vision_seq(p, b)[2] == pawn_forward_move(p, b, 2));
        } else {
            assert(pawn_vision_seq(p, b)[1] == pawn_forward_move(p, b, 2));
        }
    }
}

/// The rosters and board after a legal apply-move action: the captured
/// enemy piece, if any, leaves its roster; the moving piece is relocated in
/// its own roster; the origin tile is cleared and the destination tile set.
pub open spec fn apply_move(p1: Seq<Piece>, p2: Seq<Piece>, b: Seq<Tile>, mr: MoveRecord) -> (
    Seq<Piece>,
    Seq<Piece>,
    Seq<Tile>,
) {
    let q1 = if id_is_white(mr.piece_id) {
        set_loc_by_id(p1, mr.piece_id, mr.to)
    } else if mr.capture {
        remove_by_id(p1, b[mr.to as int].pz->Some_0)
    } else {
        p1
    };
    let q2 = if !id_is_white(mr.piece_id) {
        set_loc_by_id(p2, mr.piece_id, mr.to)
    } else if mr.capture {
        remove_by_id(p2, b[mr.to as int].pz->Some_0)
    } else {
        p2
    };
    let b1 = b.update(mr.from as int, Tile { pz: None, ..b[mr.from as int] }).update(
        mr.to as int,
        Tile { pz: Some(mr.piece_id), ..b[mr.to as int] },
    );
    (q1, q2, b1)
}

/// One transition of the history state machine over (first roster, second
/// roster, board). The no-op and active-player actions are identities on
/// these parts; repairing references rebuilds the board's links; a move
/// applies under the placement discipline or fails.
pub open spec fn step_spec(p1: Seq<Piece>, p2: Seq<Piece>, b: Seq<Tile>, a: Action) -> Option<
    (Seq<Piece>, Seq<Piece>, Seq<Tile>),
> {
    match a {
        Action::Nil => Some((p1, p2, b)),
        Action::SetActivePlayer(_) => Some((p1, p2, b)),
        Action::FixPlayerData => Some((p1, p2, fix_links(p1, p2, b))),
        Action::Move(mr) => if move_error(p1, p2, b, mr) is None {
            Some(apply_move(p1, p2, b, mr))
        } else {
            None
        },
    }
}

/// Replays a whole action log, stopping at the first failing action.
pub open spec fn replay_spec(
    p1: Seq<Piece>,
    p2: Seq<Piece>,
    b: Seq<Tile>,
    actions: Seq<Action>,
) -> Option<(Seq<Piece>, Seq<Piece>, Seq<Tile>)>
    decreases actions.len(),
{
    if actions.len() == 0 {
        Some((p1, p2, b))
    } else {
        match step_spec(p1, p2, b, actions[0]) {
            Some(st) => replay_spec(st.0, st.1, st.2, actions.skip(1)),
            None => None,
        }
    }
}

/// Every accepted history transition preserves the state invariant: both
/// rosters keep only well-formed pieces of their own color, and the board
/// keeps its 64 tiles.
pub proof fn lemma_step_preserves_wf(p1: Seq<Piece>, p2: Seq<Piece>, b: Seq<Tile>, a: Action)
    requires
        roster_pieces_wf(p1, Color::White),
        roster_pieces_wf(p2, Color::Black),
        b.len() == 64,
        step_spec(p1, p2, b, a) is Some,
    ensures
        ({
            let st = step_spec(p1, p2, b, a)->Some_0;
            &&& roster_pieces_wf(st.0, Color::White)
            &&& roster_pieces_wf(st.1, Color::Black)
            &&& st.2.len() == 64
        }),
{
    match a {
        Action::Move(mr) => {
            lemma_set_loc_preserves_wf(p1, Color::White, mr.piece_id, mr.to);
            lemma_set_loc_preserves_wf(p2, Color::Black, mr.piece_id, mr.to);
            lemma_remove_preserves_wf(p1, Color::White, b[mr.to as int].pz->Some_0);
            lemma_remove_preserves_wf(p2, Color::Black, b[mr.to as int].pz->Some_0);
        },
        _ => {},
    }
}

/// Replaying any accepted action log preserves the state invariant.
pub proof fn lemma_replay_preserves_wf(
    p1: Seq<Piece>,
    p2: Seq<Piece>,
    b: Seq<Tile>,
    actions: Seq<Action>,
)
    requires
        roster_pieces_wf(p1, Color::White),
        roster_pieces_wf(p2, Color::Black),
        b.len() == 64,
        replay_spec(p1, p2, b, actions) is Some,
    ensures
        ({
            let st = replay_spec(p1, p2, b, actions)->Some_0;
            &&& roster_pieces_wf(st.0, Color::White)
            &&& roster_pieces_wf(st.1, Color::Black)
            &&& st.2.len() == 64
        }),
    decreases actions.len(),
{
    if actions.len() > 0 {
        let st = step_spec(p1, p2, b, actions[0])->Some_0;
        lemma_step_preserves_wf(p1, p2, b, actions[0]);
        lemma_replay_preserves_wf(st.0, st.1, st.2, actions.skip(1));
    }
}

/// Replaying a history that begins with a repair-references action against
/// an unpopulated board — same tile skeleton as the live board, arbitrary
/// piece references — reconstructs the live board exactly: same occupancy,
/// same piece identifiers and positions, with the rosters untouched.
pub proof fn lemma_replay_reconstructs(
    p1: Seq<Piece>,
    p2: Seq<Piece>,
    live: Seq<Tile>,
    fresh: Seq<Tile>,
)
    requires
        live.len() == 64,
        fresh.len() == 64,
        forall|i: int|
            0 <= i < 64 ==> (Tile { pz: None, ..#[trigger] fresh[i] }) == (Tile {
                pz: None,
                ..live[i]
            }),
        forall|i: int| 0 <= i < 64 ==> (#[trigger] live[i]).pz == roster_link(p1, p2, i as usize),
    ensures
        replay_spec(p1, p2, fresh, seq![Action::FixPlayerData]) == Some((p1, p2, live)),
{
    assert forall|i: int| 0 <= i < 64 implies fix_links(p1, p2, fresh)[i] == live[i] by {
        assert((Tile { pz: None, ..fresh[i] }) == (Tile { pz: None, ..live[i] }));
    }
    assert(fix_links(p1, p2, fresh) =~= live);
    assert(seq![Action::FixPlayerData].skip(1) =~= Seq::<Action>::empty());
    assert(replay_spec(p1, p2, live, Seq::<Action>::empty()) == Some((p1, p2, live)));
}

/// Applies one history action to a game's rosters and board, as
/// [`step_spec`] describes; flags, clocks and the history itself are
/// untouched, and a failing action leaves the whole state unchanged.
pub fn apply_step(game: &mut GameState, action: Action) -> (r: Result<(), ChessError>)
    requires
        old(game).board@.len() == 64,
    ensures
        final(game).started == old(game).started,
        final(game).finished == old(game).finished,
        final(game).p1_clock == old(game).p1_clock,
        final(game).p2_clock == old(game).p2_clock,
        final(game).hist == old(game).hist,
        final(game).p1.color == old(game).p1.color,
        final(game).p1.name == old(game).p1.name,
        final(game).p2.color == old(game).p2.color,
        final(game).p2.name == old(game).p2.name,
        final(game).board@.len() == 64,
        r is Ok <==> step_spec(
            old(game).p1.pieces@,
            old(game).p2.pieces@,
            old(game).board@,
            action,
        ) is Some,
        match r {
            Ok(()) => step_spec(old(game).p1.pieces@, old(game).p2.pieces@, old(game).board@, action)
                == Some((final(game).p1.pieces@, final(game).p2.pieces@, final(game).board@)),
            Err(e) => {
                &&& final(game).p1.pieces@ == old(game).p1.pieces@
                &&& final(game).p2.pieces@ == old(game).p2.pieces@
                &&& final(game).board@ == old(game).board@
                &&& match action {
                    Action::Move(mr) => move_error(
                        old(game).p1.pieces@,
                        old(game).p2.pieces@,
                        old(game).board@,
                        mr,
                    ) == Some(e),
                    _ => false,
                }
            },
        },
{
    match action {
        Action::Nil => Ok(()),
        Action::SetActivePlayer(_) => Ok(()),
        Action::FixPlayerData => {
            fix_links_exec(&mut game.board, &game.p1.pieces, &game.p2.pieces);
            Ok(())
        },
        Action::Move(mr) => {
            if mr.from >= 64 || mr.to >= 64 {
                return Err(ChessError::TileOutOfBounds);
            }
            let found = game.piece_by_id(&mr.piece_id);
            let pz = match found {
                None => {
                    return Err(ChessError::PieceNotFound);
                },
                Some(pz) => pz,
            };
            if pz.loc != mr.from {
                return Err(ChessError::InconsistentAction);
            }
            let linked = match game.board[mr.from].pz {
                Some(q) => q == mr.piece_id,
                None => false,
            };
            if !linked {
                return Err(ChessError::InconsistentAction);
            }
            let target = game.board[mr.to].pz;
            match target {
                Some(q) => {
                    if (q > 0) == (mr.piece_id > 0) {
                        return Err(ChessError::TileOccupied);
                    }
                    if !mr.capture {
                        return Err(ChessError::InconsistentAction);
                    }
                },
                None => {
                    if mr.capture {
                        return Err(ChessError::InconsistentAction);
                    }
                },
            }
            if matches!(pz.color, Color::White) && matches!(pz.ty, crate::types::Type::Pawn) {
                // The pawn's rule set exists, so the destination must be one
                // its vision lists: forward by one or by two ranks.
                if !(mr.to == mr.from + 8 || mr.to == mr.from + 16) {
                    return Err(ChessError::IllegalMove);
                }
            }
            // All checks passed; mutate. A captured enemy piece leaves its
            // roster first.
            if let Some(q) = target {
                if mr.piece_id > 0 {
                    remove_exec(&mut game.p2.pieces, q);
                } else {
                    remove_exec(&mut game.p1.pieces, q);
                }
            }
            if mr.piece_id > 0 {
                set_loc_exec(&mut game.p1.pieces, mr.piece_id, mr.to);
            } else {
                set_loc_exec(&mut game.p2.pieces, mr.piece_id, mr.to);
            }
            game.board[mr.from].pz = None;
            game.board[mr.to].pz = Some(mr.piece_id);
            Ok(())
        },
    }
}

} // verus!
