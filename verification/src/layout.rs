//! A rendering-friendly view of a board: every tile paired with its board
//! coordinate, in the deterministic order of the linear tile index.

use vstd::prelude::*;

use crate::game::GameState;
use crate::math::{index_to_xy, index_to_xy_spec, XyPair};
use crate::types::Tile;

verus! {

/// The 64 tiles of a board keyed by coordinate. Entries are ordered by the
/// linear tile index, which is also the total order of the coordinates.
pub struct Layout {
    pub data: Vec<(XyPair, Tile)>,
}

impl Layout {
    /// Pairs every tile of the game's board with its coordinate, in linear
    /// index order.
    pub fn generate(game: &GameState) -> (r: Layout)
        requires
            game.board@.len() == 64,
        ensures
            r.data@.len() == 64,
            forall|i: int|
                0 <= i < 64 ==> #[trigger] r.data@[i] == (
                    index_to_xy_spec(i),
                    game.board@[i],
                ),
    {
        let mut data: Vec<(XyPair, Tile)> = Vec::new();
        for idx in 0..64usize
            invariant
                game.board@.len() == 64,
                data@.len() == idx,
                forall|i: int|
                    0 <= i < idx ==> #[trigger] data@[i] == (
                        index_to_xy_spec(i),
                        game.board@[i],
                    ),
        {
            let xy = index_to_xy(idx);
            data.push((xy, game.board[idx]));
        }
        Layout { data }
    }
}

} // verus!
