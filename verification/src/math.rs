//! Coordinate transforms between the linear tile index of a board and the
//! two-axis (file, rank) coordinate, plus the rotation used to interpret
//! black-piece movement in white's forward-is-positive convention.

use vstd::prelude::*;

use crate::msg::TileId;

verus! {

/// A two-axis board coordinate: `x` is the file and `y` is the rank, each in
/// `[0, 7]` for an on-board coordinate.
#[derive(Debug, Clone, Copy, PartialEq, Eq, Hash, Structural)]
pub struct XyPair {
    pub x: isize,
    pub y: isize,
}

/// Whether a coordinate lies on the 8x8 board.
pub open spec fn xy_in_bounds(xy: XyPair) -> bool {
    0 <= xy.x < 8 && 0 <= xy.y < 8
}

impl XyPair {
    /// Validates a raw pair of axis values: a pair with any component
    /// outside the board's `[0, 7]` range is rejected, never wrapped into a
    /// valid-looking coordinate.
    pub fn try_new(it: (isize, isize)) -> (r: Result<XyPair, crate::errors::ChessError>)
        ensures
            r is Ok <==> (0 <= it.0 <= 7 && 0 <= it.1 <= 7),
            match r {
                Ok(xy) => xy == (XyPair { x: it.0, y: it.1 }) && xy_in_bounds(xy),
                Err(e) => e == crate::errors::ChessError::TileOutOfBounds,
            },
    {
        if it.0 < 0 || it.0 > 7 || it.1 < 0 || it.1 > 7 {
            return Err(crate::errors::ChessError::TileOutOfBounds);
        }
        Ok(XyPair { x: it.0, y: it.1 })
    }

    /// The total order of on-board coordinates, consistent with the linear
    /// tile index: deterministic iteration over a coordinate-keyed map
    /// follows the tile indices.
    pub fn index_cmp(&self, other: &XyPair) -> (r: core::cmp::Ordering)
        requires
            xy_in_bounds(*self),
            xy_in_bounds(*other),
        ensures
            r == core::cmp::Ordering::Equal <==> xy_to_index_spec(*self) == xy_to_index_spec(
                *other,
            ),
            r == core::cmp::Ordering::Less <==> xy_to_index_spec(*self) < xy_to_index_spec(*other),
            r == core::cmp::Ordering::Greater <==> xy_to_index_spec(*self) > xy_to_index_spec(
                *other,
            ),
    {
        let mysize = xy_to_index(*self);
        let theirsize = xy_to_index(*other);
        if mysize == theirsize {
            core::cmp::Ordering::Equal
        } else if mysize > theirsize {
            core::cmp::Ordering::Greater
        } else {
            core::cmp::Ordering::Less
        }
    }
}

/// The coordinate a linear tile index stands for: file is the index modulo 8,
/// rank is the index divided by 8.
pub open spec fn index_to_xy_spec(index: int) -> XyPair {
    XyPair { x: (index % 8) as isize, y: (index / 8) as isize }
}

/// The linear tile index a coordinate stands for: `rank * 8 + file`.
pub open spec fn xy_to_index_spec(xy: XyPair) -> int {
    xy.y * 8 + xy.x
}

/// Maps a linear tile index in `[0, 63]` to its board coordinate.
pub fn index_to_xy(index: TileId) -> (r: XyPair)
    requires
        index < 64,
    ensures
        r == index_to_xy_spec(index as int),
        xy_in_bounds(r),
{
    let x: usize = index % 8;
    let y: usize = index / 8;
    XyPair { x: x as isize, y: y as isize }
}

/// Maps a board coordinate to its linear tile index in `[0, 63]`.
pub fn xy_to_index(xypair: XyPair) -> (r: TileId)
    requires
        xy_in_bounds(xypair),
    ensures
        r == xy_to_index_spec(xypair),
        r < 64,
{
    let x: usize = xypair.x as usize;
    let y: usize = xypair.y as usize;
    y * 8 + x
}

/// Rotates a tile index by a half turn of the board, so that movement of the
/// second player can be read in the first player's orientation.
pub fn rot_index(index: TileId) -> (r: usize)
    requires
        index < 64,
    ensures
        r == 63 - index,
        r < 64,
{
    63 - index
}

/// Converting an index to a coordinate and back returns the index unchanged.
pub proof fn lemma_index_round_trip(index: int)
    requires
        0 <= index < 64,
    ensures
        xy_to_index_spec(index_to_xy_spec(index)) == index,
{
}

/// Converting an on-board coordinate to an index and back returns the
/// coordinate unchanged.
pub proof fn lemma_xy_round_trip(xy: XyPair)
    requires
        xy_in_bounds(xy),
    ensures
        index_to_xy_spec(xy_to_index_spec(xy)) == xy,
{
}

} // verus!
