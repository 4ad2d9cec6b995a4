//! Small transforms between board coordinates and screen rows and columns,
//! for a presentation layer that draws rank 8 at the top.

use vstd::prelude::*;

use crate::math::{xy_in_bounds, XyPair};

verus! {

/// Flips a display column in `[0, 7]` into the rank it shows: the top row
/// shows the highest rank.
pub fn get_y_from_col(col: i32) -> (r: usize)
    requires
        0 <= col < 8,
    ensures
        r == 7 - col,
{
    (7 - col) as usize
}

/// Splits an on-board coordinate into the screen row and column that draw
/// it.
pub fn xy_to_row_col(xy: &XyPair) -> (r: (i32, i32))
    requires
        xy_in_bounds(*xy),
    ensures
        r.0 == xy.x,
        r.1 == 7 - xy.y,
{
    let x: i32 = xy.x as i32;
    let y: i32 = get_y_from_col(xy.y as i32) as i32;
    (x, y)
}

} // verus!
