//! Construction of the standard empty board: 64 tiles with alternating
//! shading and the two back ranks marked as the opposing color's promotion
//! endzone.

use vstd::prelude::*;

use crate::types::{board_wf, Background, RawBoard, Tile};

verus! {

/// The shading of the tile at linear index `i`: dark where file plus rank is
/// even, light where it is odd.
pub open spec fn std_background(i: int) -> Background {
    if (i / 8 + i % 8) % 2 == 0 {
        Background::Dark
    } else {
        Background::Light
    }
}

/// The tile at linear index `i` of a freshly built board: correct shading,
/// the first rank flagged as the second player's endzone, the last rank as
/// the first player's, and no piece.
pub open spec fn std_tile(i: int) -> Tile {
    Tile {
        w_endzone: i >= 56,
        b_endzone: i < 8,
        color: std_background(i),
        index: i as usize,
        pz: None,
    }
}

/// A board whose tiles all match the freshly built layout.
pub open spec fn is_fresh_board(b: Seq<Tile>) -> bool {
    &&& b.len() == 64
    &&& forall|i: int| 0 <= i < 64 ==> #[trigger] b[i] == std_tile(i)
}

/// Builds the standard empty board deterministically.
pub fn chess_board() -> (r: RawBoard)
    ensures
        is_fresh_board(r@),
        board_wf(r@),
{
    let mut tiles: Vec<Tile> = Vec::new();
    for i in 0..64usize
        invariant
            tiles.len() == i,
            forall|j: int| 0 <= j < i ==> #[trigger] tiles@[j] == std_tile(j),
    {
        let w_endzone: bool = i >= 56;
        let b_endzone: bool = i < 8;
        let t = if (i / 8 + i % 8) % 2 == 0 {
            Tile::dark(i, w_endzone, b_endzone)
        } else {
            Tile::light(i, w_endzone, b_endzone)
        };
        tiles.push(t);
    }
    tiles
}

/// How many tiles of a board are flagged as the first player's endzone.
pub open spec fn count_w_endzone(b: Seq<Tile>) -> int
    decreases b.len(),
{
    if b.len() == 0 {
        0
    } else {
        count_w_endzone(b.drop_last()) + if b.last().w_endzone {
            1int
        } else {
            0int
        }
    }
}

/// How many tiles of a board are flagged as the second player's endzone.
pub open spec fn count_b_endzone(b: Seq<Tile>) -> int
    decreases b.len(),
{
    if b.len() == 0 {
        0
    } else {
        count_b_endzone(b.drop_last()) + if b.last().b_endzone {
            1int
        } else {
            0int
        }
    }
}

/// How many tiles of a board are flagged as both endzones at once.
pub open spec fn count_double_endzone(b: Seq<Tile>) -> int
    decreases b.len(),
{
    if b.len() == 0 {
        0
    } else {
        count_double_endzone(b.drop_last()) + if b.last().w_endzone && b.last().b_endzone {
            1int
        } else {
            0int
        }
    }
}

/// How many tiles of a board hold a piece reference.
pub open spec fn count_occupied(b: Seq<Tile>) -> int
    decreases b.len(),
{
    if b.len() == 0 {
        0
    } else {
        count_occupied(b.drop_last()) + if b.last().pz is Some {
            1int
        } else {
            0int
        }
    }
}

proof fn lemma_fresh_prefix_counts(b: Seq<Tile>, n: int)
    requires
        is_fresh_board(b),
        0 <= n <= 64,
    ensures
        count_w_endzone(b.take(n)) == if n <= 56 {
            0int
        } else {
            n - 56
        },
        count_b_endzone(b.take(n)) == if n <= 8 {
            n
        } else {
            8int
        },
        count_double_endzone(b.take(n)) == 0,
    decreases n,
{
    if n > 0 {
        lemma_fresh_prefix_counts(b, n - 1);
        assert(b.take(n).drop_last() =~= b.take(n - 1));
        assert(b.take(n).last() == std_tile(n - 1));
    }
}

/// A freshly built board has 64 tiles shaded by file-plus-rank parity, eight
/// tiles flagged as each player's promotion endzone — sixteen flagged tiles
/// in all — and no tile flagged for both.
pub proof fn lemma_fresh_board_endzones(b: Seq<Tile>)
    requires
        is_fresh_board(b),
    ensures
        forall|i: int| 0 <= i < 64 ==> (#[trigger] b[i]).color == std_background(i),
        count_w_endzone(b) == 8,
        count_b_endzone(b) == 8,
        count_w_endzone(b) + count_b_endzone(b) == 16,
        count_double_endzone(b) == 0,
{
    lemma_fresh_prefix_counts(b, 64);
    assert(b.take(64) =~= b);
}

/// Neighboring tiles of a freshly built board never share a shading: one
/// step along a rank or along a file flips the parity of file plus rank.
pub proof fn lemma_fresh_board_alternates(b: Seq<Tile>, i: int)
    requires
        is_fresh_board(b),
        0 <= i < 64,
    ensures
        i % 8 < 7 ==> b[i].color != b[i + 1].color,
        i < 56 ==> b[i].color != b[i + 8].color,
{
    assert(b[i] == std_tile(i));
    if i % 8 < 7 {
        assert(b[i + 1] == std_tile(i + 1));
        assert((i + 1) / 8 == i / 8 && (i + 1) % 8 == i % 8 + 1) by (nonlinear_arith)
            requires 0 <= i < 64 && i % 8 < 7;
    }
    if i < 56 {
        assert(b[i + 8] == std_tile(i + 8));
        assert((i + 8) / 8 == i / 8 + 1 && (i + 8) % 8 == i % 8) by (nonlinear_arith)
            requires 0 <= i < 56;
    }
}

} // verus!
