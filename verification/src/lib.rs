//! A verified chess rules engine: board and tile modeling, coordinate
//! transforms, piece ownership, pawn vision generation, a replayable action
//! history, and a session orchestrator that manages independent games.

pub mod constants;
pub mod errors;
pub mod game;
pub mod helper;
pub mod image_data;
pub mod layout;
pub mod math;
pub mod msg;
pub mod traits;
pub mod types;
pub mod utils;

use vstd::prelude::*;

use crate::errors::ChessError;
use crate::game::{
    add_piece, apply_step, lemma_find_by_id_is_member, normalized_actions, piece_by_id_spec,
    replay_spec, roster_wf, step_spec, Action, GameState, History, PlayerData,
};
use crate::helper::{chess_board, std_tile};
use crate::layout::Layout;
use crate::msg::{GameId, PieceId, PlayerId};
use crate::traits::{std_black_piece, std_white_piece, ChessFactory, StandardChess};
use crate::types::{vision_wf, Piece, RawBoard, Tile, VisionPiece};

use std::collections::BTreeMap;

verus! {

broadcast use vstd::laws_cmp::group_laws_cmp;

/// Builds the session orchestrator that owns and serves games.
pub fn spawn_game_master() -> (r: GameMaster)
    ensures
        r.sessions@ == Map::<GameId, ChessGame>::empty(),
        r.next_id == 1u64,
        gm_wf(r),
{
    GameMaster::new()
}

// ---------------------------------------------------------------------------
// The standard setup
// ---------------------------------------------------------------------------
/// The piece reference a standard-setup board holds at tile `i`: the first
/// sixteen tiles carry the first player's pieces in identifier order, the
/// last sixteen the second player's, whose identifier at tile `i` is
/// `47 - i`.
pub open spec fn std_setup_board_ref(i: int) -> Option<PieceId> {
    if i < 16 {
        Some((i + 1) as i16)
    } else if i >= 48 {
        Some((47 - i) as i16)
    } else {
        None
    }
}

/// The `j`-th piece of the first player's roster after standard setup.
pub open spec fn std_setup_white(j: int) -> Piece {
    std_white_piece(j)
}

/// The `j`-th piece of the second player's roster after standard setup: the
/// layout piece with its identifier reassigned to `-(j + 1)` in setup order.
pub open spec fn std_setup_black(j: int) -> Piece {
    Piece { id: (-(j + 1)) as i16, ..std_black_piece(j) }
}

/// A session exactly as [`ChessGame::new`] creates it: standard board and
/// rosters, default clocks, an empty history, not yet started.
pub open spec fn std_setup_game(c: ChessGame, game_id: GameId) -> bool {
    &&& c.game_id == game_id
    &&& !c.game.started
    &&& !c.game.finished
    &&& c.game.p1_clock == Some(5400000u32)
    &&& c.game.p2_clock == Some(5400000u32)
    &&& c.game.p1.color == crate::types::Color::White
    &&& c.game.p1.name@ == "player_1"@
    &&& c.game.p2.color == crate::types::Color::Black
    &&& c.game.p2.name@ == "player_2"@
    &&& c.game.p1.pieces@.len() == 16
    &&& forall|j: int| 0 <= j < 16 ==> #[trigger] c.game.p1.pieces@[j] == std_setup_white(j)
    &&& c.game.p2.pieces@.len() == 16
    &&& forall|j: int| 0 <= j < 16 ==> #[trigger] c.game.p2.pieces@[j] == std_setup_black(j)
    &&& c.game.board@.len() == 64
    &&& forall|i: int|
        0 <= i < 64 ==> #[trigger] c.game.board@[i] == (Tile {
            pz: std_setup_board_ref(i),
            ..std_tile(i)
        })
    &&& c.game.hist.actions@ == Seq::<Action>::empty()
}

/// A game state whose board has its 64 tiles and whose rosters carry only
/// well-formed pieces of their own color.
pub open spec fn game_state_wf(g: GameState) -> bool {
    &&& g.board@.len() == 64
    &&& roster_wf(g.p1)
    &&& roster_wf(g.p2)
    &&& g.p1.color == crate::types::Color::White
    &&& g.p2.color == crate::types::Color::Black
}

/// A well-formed session.
pub open spec fn chess_game_wf(c: ChessGame) -> bool {
    game_state_wf(c.game)
}

// ---------------------------------------------------------------------------
// One session
// ---------------------------------------------------------------------------
/// One game session: its identifier and its aggregate state.
#[derive(Debug)]
pub struct ChessGame {
    pub game_id: GameId,
    pub game: GameState,
}

impl ChessFactory for ChessGame {

}

impl StandardChess for ChessGame {

}

impl ChessGame {
    /// Creates a session with the standard initial setup: thirty-two pieces
    /// placed through the sanctioned placement discipline, default clocks,
    /// and an empty history. Setup always succeeds.
    pub fn new(game_id: GameId) -> (r: Result<ChessGame, ChessError>)
        ensures
            r is Ok,
            match r {
                Ok(c) => std_setup_game(c, game_id) && chess_game_wf(c),
                Err(_) => false,
            },
    {
        let mut p1 = PlayerData::new_white_player();
        let mut p2 = PlayerData::new_black_player();

        let w = <Self as StandardChess>::gen_std_white();
        let b = <Self as StandardChess>::gen_std_black();

        let mut board = chess_board();

        for j in 0..16usize
            invariant
                w@.len() == 16,
                forall|t: int| 0 <= t < 16 ==> #[trigger] w@[t] == std_white_piece(t),
                board@.len() == 64,
                forall|i: int|
                    0 <= i < 64 ==> #[trigger] board@[i] == (Tile {
                        pz: if i < j {
                            Some((i + 1) as i16)
                        } else {
                            None
                        },
                        ..std_tile(i)
                    }),
                p1.color == crate::types::Color::White,
                p1.name@ == "player_1"@,
                p1.pieces@.len() == j,
                forall|t: int| 0 <= t < j ==> #[trigger] p1.pieces@[t] == std_setup_white(t),
        {
            let mut white_piece = w[j];
            let id: i16 = (j as i16) + 1;
            white_piece.set_id(id);
            let res = add_piece(&mut board, white_piece.loc, &mut p1, white_piece);
            match res {
                Ok(()) => {},
                Err(e) => {
                    proof {
                        assert(false);
                    }
                    return Err(e);
                },
            }
        }

        for j in 0..16usize
            invariant
                b@.len() == 16,
                forall|t: int| 0 <= t < 16 ==> #[trigger] b@[t] == std_black_piece(t),
                board@.len() == 64,
                forall|i: int|
                    0 <= i < 64 ==> #[trigger] board@[i] == (Tile {
                        pz: if i < 16 {
                            Some((i + 1) as i16)
                        } else if 48 <= i < 48 + j {
                            Some((47 - i) as i16)
                        } else {
                            None
                        },
                        ..std_tile(i)
                    }),
                p2.color == crate::types::Color::Black,
                p2.name@ == "player_2"@,
                p2.pieces@.len() == j,
                forall|t: int| 0 <= t < j ==> #[trigger] p2.pieces@[t] == std_setup_black(t),
        {
            let mut black_piece = b[j];
            let id: i16 = -((j as i16) + 1);
            black_piece.set_id(id);
            let res = add_piece(&mut board, black_piece.loc, &mut p2, black_piece);
            match res {
                Ok(()) => {},
                Err(e) => {
                    proof {
                        assert(false);
                    }
                    return Err(e);
                },
            }
        }

        let hist = History::init("History of Game".to_owned());
        let game = GameState::init(false, false, Some(5400000), Some(5400000), p1, p2, board, hist);

        Ok(ChessGame { game_id, game })
    }

    /// Reconstructs a session from already-built parts. The supplied history
    /// is normalized: a repair-references action is prepended whenever the
    /// log does not already begin with one, and the designated active
    /// player, if any, is appended. The rosters start empty; replaying the
    /// history re-links and mutates the board.
    pub fn internal_new(
        game_id: GameId,
        started: bool,
        active_player: Option<PlayerId>,
        p1_clock: Option<u32>,
        p2_clock: Option<u32>,
        board: RawBoard,
        hist: History,
    ) -> (r: ChessGame)
        ensures
            r.game_id == game_id,
            r.game.started == started,
            !r.game.finished,
            r.game.p1_clock == p1_clock,
            r.game.p2_clock == p2_clock,
            r.game.p1.color == crate::types::Color::White,
            r.game.p1.name@ == "player_1"@,
            r.game.p1.pieces@ == Seq::<Piece>::empty(),
            r.game.p2.color == crate::types::Color::Black,
            r.game.p2.name@ == "player_2"@,
            r.game.p2.pieces@ == Seq::<Piece>::empty(),
            r.game.board == board,
            r.game.hist.actions@ == normalized_actions(hist.actions@, active_player),
    {
        let needs_fix = hist.actions.len() == 0 || !matches!(hist.actions[0], Action::FixPlayerData);
        let mut new_hist = if needs_fix {
            let mut h = History::init("ChessGame::internal_new->new_history".to_owned());
            h.actions.push(Action::FixPlayerData);
            h
        } else {
            History::init("ChessGame::internal_new->new_history_without_fix_player_data".to_owned())
        };
        let ghost prefix = new_hist.actions@;
        for k in 0..hist.actions.len()
            invariant
                new_hist.actions@ == prefix + hist.actions@.take(k as int),
        {
            new_hist.actions.push(hist.actions[k]);
            proof {
                assert(prefix + hist.actions@.take(k as int) + seq![hist.actions@[k as int]]
                    =~= prefix + hist.actions@.take(k + 1));
            }
        }
        proof {
            assert(hist.actions@.take(hist.actions@.len() as int) =~= hist.actions@);
        }
        if let Some(player_id) = active_player {
            new_hist.actions.push(Action::SetActivePlayer(player_id));
        }
        proof {
            assert(new_hist.actions@ =~= normalized_actions(hist.actions@, active_player));
        }
        ChessGame {
            game_id,
            game: GameState::init(
                started,
                false,
                p1_clock,
                p2_clock,
                PlayerData::incomplete_init(crate::types::Color::White, None, None),
                PlayerData::incomplete_init(crate::types::Color::Black, None, None),
                board,
                new_hist,
            ),
        }
    }

    /// Replays the session's whole action log against its current rosters
    /// and board, stopping at the first failing action. On success the state
    /// is exactly the replay of the log; on failure the state is the replay
    /// of the longest prefix that succeeded.
    pub fn try_apply_history(&mut self) -> (r: Result<GameId, ChessError>)
        requires
            old(self).game.board@.len() == 64,
        ensures
            final(self).game_id == old(self).game_id,
            final(self).game.hist == old(self).game.hist,
            final(self).game.started == old(self).game.started,
            final(self).game.finished == old(self).game.finished,
            final(self).game.p1_clock == old(self).game.p1_clock,
            final(self).game.p2_clock == old(self).game.p2_clock,
            final(self).game.p1.color == old(self).game.p1.color,
            final(self).game.p1.name == old(self).game.p1.name,
            final(self).game.p2.color == old(self).game.p2.color,
            final(self).game.p2.name == old(self).game.p2.name,
            final(self).game.board@.len() == 64,
            r is Ok <==> replay_spec(
                old(self).game.p1.pieces@,
                old(self).game.p2.pieces@,
                old(self).game.board@,
                old(self).game.hist.actions@,
            ) is Some,
            match r {
                Ok(id) => id == old(self).game_id && replay_spec(
                    old(self).game.p1.pieces@,
                    old(self).game.p2.pieces@,
                    old(self).game.board@,
                    old(self).game.hist.actions@,
                ) == Some(
                    (
                        final(self).game.p1.pieces@,
                        final(self).game.p2.pieces@,
                        final(self).game.board@,
                    ),
                ),
                Err(e) => exists|k: int|
                    0 <= k < old(self).game.hist.actions@.len() && replay_spec(
                        old(self).game.p1.pieces@,
                        old(self).game.p2.pieces@,
                        old(self).game.board@,
                        #[trigger] old(self).game.hist.actions@.take(k),
                    ) == Some(
                        (
                            final(self).game.p1.pieces@,
                            final(self).game.p2.pieces@,
                            final(self).game.board@,
                        ),
                    ) && step_spec(
                        final(self).game.p1.pieces@,
                        final(self).game.p2.pieces@,
                        final(self).game.board@,
                        old(self).game.hist.actions@[k],
                    ) is None && (match old(self).game.hist.actions@[k] {
                        Action::Move(mr) => crate::game::move_error(
                            final(self).game.p1.pieces@,
                            final(self).game.p2.pieces@,
                            final(self).game.board@,
                            mr,
                        ) == Some(e),
                        _ => false,
                    }),
            },
    {
        let ghost p1_0 = self.game.p1.pieces@;
        let ghost p2_0 = self.game.p2.pieces@;
        let ghost b_0 = self.game.board@;
        let ghost acts = self.game.hist.actions@;
        let n = self.game.hist.actions.len();
        proof {
            assert(acts.skip(0) =~= acts);
            assert(acts.take(0) =~= Seq::<Action>::empty());
        }
        let mut i: usize = 0;
        while i < n
            invariant
                i <= n,
                n == self.game.hist.actions@.len(),
                self.game.hist == old(self).game.hist,
                self.game_id == old(self).game_id,
                self.game.started == old(self).game.started,
                self.game.finished == old(self).game.finished,
                self.game.p1_clock == old(self).game.p1_clock,
                self.game.p2_clock == old(self).game.p2_clock,
                self.game.p1.color == old(self).game.p1.color,
                self.game.p1.name == old(self).game.p1.name,
                self.game.p2.color == old(self).game.p2.color,
                self.game.p2.name == old(self).game.p2.name,
                self.game.board@.len() == 64,
                acts == old(self).game.hist.actions@,
                p1_0 == old(self).game.p1.pieces@,
                p2_0 == old(self).game.p2.pieces@,
                b_0 == old(self).game.board@,
                replay_spec(p1_0, p2_0, b_0, acts.take(i as int)) == Some(
                    (self.game.p1.pieces@, self.game.p2.pieces@, self.game.board@),
                ),
                replay_spec(p1_0, p2_0, b_0, acts) == replay_spec(
                    self.game.p1.pieces@,
                    self.game.p2.pieces@,
                    self.game.board@,
                    acts.skip(i as int),
                ),
            decreases n - i,
        {
            let ghost cur_p1 = self.game.p1.pieces@;
            let ghost cur_p2 = self.game.p2.pieces@;
            let ghost cur_b = self.game.board@;
            let action = self.game.hist.actions[i];
            let res = apply_step(&mut self.game, action);
            proof {
                assert(acts.skip(i as int)[0] == acts[i as int]);
                assert(acts.skip(i as int).skip(1) =~= acts.skip(i as int + 1));
            }
            match res {
                Ok(()) => {
                    proof {
                        lemma_replay_snoc(p1_0, p2_0, b_0, acts.take(i as int), action);
                        assert(acts.take(i as int).push(acts[i as int]) =~= acts.take(i as int + 1));
                    }
                    i = i + 1;
                },
                Err(e) => {
                    proof {
                        assert(step_spec(cur_p1, cur_p2, cur_b, action) is None);
                        assert(replay_spec(p1_0, p2_0, b_0, acts) is None);
                    }
                    return Err(e);
                },
            }
        }
        proof {
            assert(acts.take(n as int) =~= acts);
        }
        Ok(self.game_id)
    }

    fn request_vision(&self, piece_id: PieceId) -> (r: Result<VisionPiece, ChessError>)
        requires
            game_state_wf(self.game),
        ensures
            ({
                let found = piece_by_id_spec(self.game.p1.pieces@, self.game.p2.pieces@, piece_id);
                &&& r is Ok <==> (found is Some && crate::game::vision_available(found->Some_0))
                &&& match r {
                    Ok(v) => {
                        &&& vision_wf(v)
                        &&& v.piece_id == found->Some_0.id
                        &&& forall|i: int|
                            0 <= i < 25 ==> v.moves@[i] == (if i < crate::game::pawn_vision_seq(
                                found->Some_0,
                                self.game.board@,
                            ).len() {
                                Some(
                                    crate::game::pawn_vision_seq(
                                        found->Some_0,
                                        self.game.board@,
                                    )[i],
                                )
                            } else {
                                None::<crate::types::Move>
                            })
                    },
                    Err(e) => if found is None {
                        e == ChessError::PieceNotFound
                    } else {
                        e == ChessError::RuleUnavailable
                    },
                }
            }),
    {
        let piece: Option<Piece> = self.game.piece_by_id(&piece_id);
        if let Some(pz) = piece {
            proof {
                if 1 <= piece_id <= 16 {
                    lemma_find_by_id_is_member(self.game.p1.pieces@, piece_id);
                } else {
                    lemma_find_by_id_is_member(self.game.p2.pieces@, piece_id);
                }
            }
            self.game.calculate_vision(&pz, &self.game.board)
        } else {
            Err(ChessError::PieceNotFound)
        }
    }

    fn request_game_layout(&self) -> (r: Layout)
        requires
            self.game.board@.len() == 64,
        ensures
            r.data@.len() == 64,
            forall|i: int|
                0 <= i < 64 ==> #[trigger] r.data@[i] == (
                    crate::math::index_to_xy_spec(i),
                    self.game.board@[i],
                ),
    {
        Layout::generate(&self.game)
    }
}

/// Replaying one more action is replaying the prefix and then stepping once.
pub proof fn lemma_replay_snoc(
    p1: Seq<Piece>,
    p2: Seq<Piece>,
    b: Seq<Tile>,
    actions: Seq<Action>,
    a: Action,
)
    ensures
        replay_spec(p1, p2, b, actions.push(a)) == (match replay_spec(p1, p2, b, actions) {
            Some(st) => step_spec(st.0, st.1, st.2, a),
            None => None,
        }),
    decreases actions.len(),
{
    if actions.len() == 0 {
        assert(actions.push(a)[0] == a);
        assert(actions.push(a).skip(1) =~= Seq::<Action>::empty());
        if step_spec(p1, p2, b, a) is Some {
            let st = step_spec(p1, p2, b, a)->Some_0;
            assert(st == (st.0, st.1, st.2));
            assert(replay_spec(st.0, st.1, st.2, Seq::<Action>::empty()) == Some(
                (st.0, st.1, st.2),
            ));
        }
    } else {
        assert(actions.push(a)[0] == actions[0]);
        assert(actions.push(a).skip(1) =~= actions.skip(1).push(a));
        if step_spec(p1, p2, b, actions[0]) is Some {
            let st = step_spec(p1, p2, b, actions[0])->Some_0;
            lemma_replay_snoc(st.0, st.1, st.2, actions.skip(1), a);
        }
    }
}

// ---------------------------------------------------------------------------
// The orchestrator
// ---------------------------------------------------------------------------
/// Every session the orchestrator serves is well formed and stored under
/// its own identifier.
pub open spec fn gm_wf(gm: GameMaster) -> bool {
    forall|id: GameId|
        gm.sessions@.contains_key(id) ==> chess_game_wf(#[trigger] gm.sessions@[id])
            && gm.sessions@[id].game_id == id
}

/// The identifier issued after `id`: the successor, wrapping to zero only
/// after the whole unsigned range is exhausted.
pub open spec fn next_counter(id: GameId) -> GameId {
    if id == u64::MAX {
        0
    } else {
        (id + 1) as u64
    }
}

/// The session orchestrator: a table of independent games keyed by a
/// monotonically issued identifier, and the issuance counter itself.
pub struct GameMaster {
    pub next_id: GameId,
    pub sessions: BTreeMap<GameId, ChessGame>,
}

impl GameMaster {
    /// An orchestrator with no sessions; identifier issuance starts at one.
    pub fn new() -> (r: GameMaster)
        ensures
            r.sessions@ == Map::<GameId, ChessGame>::empty(),
            r.next_id == 1u64,
            gm_wf(r),
    {
        GameMaster { next_id: 1, sessions: BTreeMap::new() }
    }

    /// Allocates a fresh session with the standard initial setup under the
    /// next identifier. Fails with a conflict only if the identifier is
    /// already in use, which can happen only after the counter has wrapped;
    /// an identifier currently in use is never reissued.
    pub fn create_game(&mut self) -> (r: Result<GameId, ChessError>)
        ensures
            r is Ok <==> !old(self).sessions@.contains_key(old(self).next_id),
            match r {
                Ok(id) => {
                    &&& id == old(self).next_id
                    &&& !old(self).sessions@.contains_key(id)
                    &&& final(self).sessions@.contains_key(id)
                    &&& exists|c: ChessGame|
                        #![trigger std_setup_game(c, id)]
                        std_setup_game(c, id) && chess_game_wf(c) && final(self).sessions@ == old(
                            self,
                        ).sessions@.insert(id, c)
                    &&& final(self).next_id == next_counter(id)
                },
                Err(e) => {
                    &&& e == ChessError::GameIdInUse
                    &&& final(self).sessions@ == old(self).sessions@
                    &&& final(self).next_id == old(self).next_id
                },
            },
            gm_wf(*old(self)) ==> gm_wf(*final(self)),
    {
        let game_id = self.next_id;
        if self.sessions.contains_key(&game_id) {
            return Err(ChessError::GameIdInUse);
        }
        let new_game = match ChessGame::new(game_id) {
            Ok(g) => g,
            Err(e) => {
                proof {
                    assert(false);
                }
                return Err(e);
            },
        };
        let ghost g = new_game;
        self.next_id = if game_id == u64::MAX {
            0
        } else {
            game_id + 1
        };
        let _ = self.sessions.insert(game_id, new_game);
        proof {
            assert(std_setup_game(g, game_id) && chess_game_wf(g) && self.sessions@ == old(
                self,
            ).sessions@.insert(game_id, g));
            if gm_wf(*old(self)) {
                assert forall|id: GameId|
                    self.sessions@.contains_key(id) implies chess_game_wf(
                    #[trigger] self.sessions@[id],
                ) && self.sessions@[id].game_id == id by {
                    if id != game_id {
                        assert(old(self).sessions@.contains_key(id));
                    }
                }
            }
        }
        Ok(game_id)
    }

    /// Looks a session up by identifier, failing with a not-found condition
    /// when no session carries it.
    pub fn request_game_state(&self, game_id: GameId) -> (r: Result<&ChessGame, ChessError>)
        requires
            gm_wf(*self),
        ensures
            r is Ok <==> self.sessions@.contains_key(game_id),
            match r {
                Ok(g) => self.sessions@.contains_key(game_id) && *g == self.sessions@[game_id]
                    && g.game_id == game_id,
                Err(e) => e == ChessError::GameNotFound,
            },
    {
        if let Some(ref_game) = self.sessions.get(&game_id) {
            Ok(ref_game)
        } else {
            Err(ChessError::GameNotFound)
        }
    }

    /// Composes session lookup, piece lookup and vision calculation. Fails
    /// with not-found conditions when the session or the piece is missing,
    /// and with an unavailable-rule condition when the piece's movement rule
    /// is not implemented.
    pub fn request_vision(&self, game_id: GameId, piece_id: PieceId) -> (r: Result<
        VisionPiece,
        ChessError,
    >)
        requires
            gm_wf(*self),
        ensures
            ({
                let present = self.sessions@.contains_key(game_id);
                let g = self.sessions@[game_id];
                let found = piece_by_id_spec(g.game.p1.pieces@, g.game.p2.pieces@, piece_id);
                &&& r is Ok <==> (present && found is Some && crate::game::vision_available(
                    found->Some_0,
                ))
                &&& match r {
                    Ok(v) => {
                        &&& vision_wf(v)
                        &&& v.piece_id == found->Some_0.id
                        &&& forall|i: int|
                            0 <= i < 25 ==> v.moves@[i] == (if i < crate::game::pawn_vision_seq(
                                found->Some_0,
                                g.game.board@,
                            ).len() {
                                Some(
                                    crate::game::pawn_vision_seq(found->Some_0, g.game.board@)[i],
                                )
                            } else {
                                None::<crate::types::Move>
                            })
                    },
                    Err(e) => if !present {
                        e == ChessError::GameNotFound
                    } else if found is None {
                        e == ChessError::PieceNotFound
                    } else {
                        e == ChessError::RuleUnavailable
                    },
                }
            }),
    {
        let chess = self.request_game_state(game_id)?;
        chess.request_vision(piece_id)
    }

    /// Composes session lookup and layout generation for rendering.
    pub fn request_game_layout(&self, game_id: GameId) -> (r: Result<Layout, ChessError>)
        requires
            gm_wf(*self),
        ensures
            r is Ok <==> self.sessions@.contains_key(game_id),
            match r {
                Ok(l) => {
                    &&& l.data@.len() == 64
                    &&& forall|i: int|
                        0 <= i < 64 ==> #[trigger] l.data@[i] == (
                            crate::math::index_to_xy_spec(i),
                            self.sessions@[game_id].game.board@[i],
                        )
                },
                Err(e) => e == ChessError::GameNotFound,
            },
    {
        let chess = self.request_game_state(game_id)?;
        Ok(chess.request_game_layout())
    }

    /// Registers an already-built session under the requested identifier,
    /// for recovery and testing. Rejects an identifier already in use as a
    /// conflict, and clock values supplied without a designated active
    /// player as invalid, before committing anything. The stored history is
    /// normalized as [`ChessGame::internal_new`] describes.
    pub fn try_init_arbitrary_game(
        &mut self,
        game_id: GameId,
        started: bool,
        active_player: Option<PlayerId>,
        p1_clock: Option<u32>,
        p2_clock: Option<u32>,
        board: RawBoard,
        hist: History,
    ) -> (r: Result<GameId, ChessError>)
        requires
            board@.len() == 64,
        ensures
            r is Ok <==> (!old(self).sessions@.contains_key(game_id) && (active_player is Some
                || (p1_clock is None && p2_clock is None))),
            match r {
                Ok(id) => {
                    &&& id == game_id
                    &&& exists|c: ChessGame|
                        #![trigger chess_game_wf(c)]
                        {
                            &&& c.game_id == game_id
                            &&& c.game.started == started
                            &&& !c.game.finished
                            &&& c.game.p1_clock == p1_clock
                            &&& c.game.p2_clock == p2_clock
                            &&& c.game.p1.pieces@ == Seq::<Piece>::empty()
                            &&& c.game.p2.pieces@ == Seq::<Piece>::empty()
                            &&& c.game.board == board
                            &&& c.game.hist.actions@ == normalized_actions(
                                hist.actions@,
                                active_player,
                            )
                            &&& chess_game_wf(c)
                            &&& final(self).sessions@ == old(self).sessions@.insert(game_id, c)
                        }
                },
                Err(e) => {
                    &&& final(self).sessions@ == old(self).sessions@
                    &&& final(self).next_id == old(self).next_id
                    &&& e == ChessError::GameIdInUse <==> old(self).sessions@.contains_key(game_id)
                    &&& e == ChessError::MissingActivePlayer <==> (!old(
                        self,
                    ).sessions@.contains_key(game_id) && active_player is None && (p1_clock is Some
                        || p2_clock is Some))
                },
            },
            final(self).next_id == old(self).next_id,
            gm_wf(*old(self)) ==> gm_wf(*final(self)),
    {
        if self.sessions.contains_key(&game_id) {
            return Err(ChessError::GameIdInUse);
        }
        if active_player.is_none() && (p1_clock.is_some() || p2_clock.is_some()) {
            return Err(ChessError::MissingActivePlayer);
        }
        let pregame = ChessGame::internal_new(
            game_id,
            started,
            active_player,
            p1_clock,
            p2_clock,
            board,
            hist,
        );
        let ghost g = pregame;
        let _ = self.sessions.insert(game_id, pregame);
        proof {
            assert(self.sessions@ == old(self).sessions@.insert(game_id, g));
            assert(roster_wf(g.game.p1));
            assert(roster_wf(g.game.p2));
            assert(chess_game_wf(g));
            if gm_wf(*old(self)) {
                assert forall|id: GameId|
                    self.sessions@.contains_key(id) implies chess_game_wf(
                    #[trigger] self.sessions@[id],
                ) && self.sessions@[id].game_id == id by {
                    if id != game_id {
                        assert(old(self).sessions@.contains_key(id));
                    }
                }
            }
        }
        Ok(game_id)
    }
}

/// The standard-setup board's piece references agree with its rosters:
/// every occupied tile's reference is exactly what a roster scan finds, so
/// a repair-references replay over a cleared board rebuilds this board.
pub proof fn lemma_std_setup_links(c: ChessGame, game_id: GameId)
    requires
        std_setup_game(c, game_id),
    ensures
        forall|i: int|
            0 <= i < 64 ==> (#[trigger] c.game.board@[i]).pz == crate::game::roster_link(
                c.game.p1.pieces@,
                c.game.p2.pieces@,
                i as usize,
            ),
{
    let w = c.game.p1.pieces@;
    let bk = c.game.p2.pieces@;
    assert forall|i: int| 0 <= i < 64 implies (#[trigger] c.game.board@[i]).pz
        == crate::game::roster_link(w, bk, i as usize) by {
        let loc = i as usize;
        if i < 16 {
            crate::game::lemma_find_at_skip(w, loc, i);
            assert(w.skip(i)[0] == w[i]);
            assert(crate::game::find_piece_at(w, loc) == Some((i + 1) as i16));
        } else {
            crate::game::lemma_find_at_skip(w, loc, 16);
            assert(w.skip(16).len() == 0);
            assert(crate::game::find_piece_at(w, loc) is None);
            if i < 48 {
                crate::game::lemma_find_at_skip(bk, loc, 16);
                assert(bk.skip(16).len() == 0);
                assert(crate::game::find_piece_at(bk, loc) is None);
            } else {
                crate::game::lemma_find_at_skip(bk, loc, i - 48);
                assert(bk.skip(i - 48)[0] == bk[i - 48]);
                assert(crate::game::find_piece_at(bk, loc) == Some((47 - i) as i16));
            }
        }
    }
}

proof fn lemma_std_occupied_prefix(b: Seq<Tile>, n: int)
    requires
        0 <= n <= 64,
        b.len() == 64,
        forall|i: int| 0 <= i < 64 ==> ((#[trigger] b[i]).pz is Some <==> (i < 16 || i >= 48)),
    ensures
        crate::helper::count_occupied(b.take(n)) == (if n <= 16 {
            n
        } else if n <= 48 {
            16int
        } else {
            16 + (n - 48)
        }),
    decreases n,
{
    if n > 0 {
        lemma_std_occupied_prefix(b, n - 1);
        assert(b.take(n).drop_last() =~= b.take(n - 1));
        assert(b.take(n).last() == b[n - 1]);
    }
}

/// After standard setup each roster owns exactly sixteen pieces, and the
/// two rosters together account for thirty-two occupied tiles: a tile is
/// occupied exactly when it lies on one of the four outer ranks.
pub proof fn lemma_std_setup_piece_count(c: ChessGame, game_id: GameId)
    requires
        std_setup_game(c, game_id),
    ensures
        c.game.p1.pieces@.len() == 16,
        c.game.p2.pieces@.len() == 16,
        forall|i: int|
            0 <= i < 64 ==> ((#[trigger] c.game.board@[i]).pz is Some <==> (i < 16 || i >= 48)),
        crate::helper::count_occupied(c.game.board@) == 32,
{
    lemma_std_occupied_prefix(c.game.board@, 64);
    assert(c.game.board@.take(64) =~= c.game.board@);
}

/// In the standard setup each queen stands on a tile whose shading matches
/// her color: the first player's queen on a light tile, the second
/// player's on a dark one.
pub proof fn lemma_std_setup_queen_shading(c: ChessGame, game_id: GameId)
    requires
        std_setup_game(c, game_id),
    ensures
        ({
            let wq = c.game.p1.pieces@[3];
            &&& wq.ty == crate::types::Type::Queen
            &&& wq.color == crate::types::Color::White
            &&& crate::types::color_matches_background_spec(
                wq.color,
                c.game.board@[wq.loc as int].color,
            )
        }),
        ({
            let bq = c.game.p2.pieces@[11];
            &&& bq.ty == crate::types::Type::Queen
            &&& bq.color == crate::types::Color::Black
            &&& crate::types::color_matches_background_spec(
                bq.color,
                c.game.board@[bq.loc as int].color,
            )
        }),
{
    assert(c.game.p1.pieces@[3] == std_setup_white(3));
    assert(c.game.p2.pieces@[11] == std_setup_black(11));
    assert(c.game.board@[3] == (Tile { pz: std_setup_board_ref(3), ..std_tile(3) }));
    assert(c.game.board@[59] == (Tile { pz: std_setup_board_ref(59), ..std_tile(59) }));
}

/// While the issuance counter has not wrapped, every table key lies below
/// it, so the next identifier is fresh — creation succeeds and never
/// reissues an identifier in use — and storing the new session keeps every
/// key below the advanced counter.
pub proof fn lemma_issuance_stays_fresh(
    sessions: Map<GameId, ChessGame>,
    c: ChessGame,
    next: GameId,
)
    requires
        next < u64::MAX,
        forall|id: GameId| sessions.contains_key(id) ==> id < next,
    ensures
        !sessions.contains_key(next),
        forall|id: GameId|
            #[trigger] sessions.insert(next, c).contains_key(id) ==> id < next + 1,
{
}

/// Two sequential successful game creations never return the same
/// identifier: the first call leaves its identifier in the session table,
/// and the second call's identifier is not in that table.
pub proof fn lemma_distinct_game_ids(
    sessions0: Map<GameId, ChessGame>,
    sessions1: Map<GameId, ChessGame>,
    c1: ChessGame,
    id1: GameId,
    id2: GameId,
)
    requires
        !sessions0.contains_key(id1),
        sessions1 == sessions0.insert(id1, c1),
        !sessions1.contains_key(id2),
    ensures
        id1 != id2,
{
}

} // verus!
