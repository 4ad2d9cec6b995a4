use std::cmp::Ordering;

use chess_core::math::{index_to_xy, rot_index, xy_to_index, XyPair};
use chess_core::utils::{get_y_from_col, xy_to_row_col};

#[test]
fn index_coord_round_trip_all_tiles() {
    for i in 0..64usize {
        let xy = index_to_xy(i);
        assert!(xy.x >= 0 && xy.x <= 7, "file out of bounds for {i}");
        assert!(xy.y >= 0 && xy.y <= 7, "rank out of bounds for {i}");
        assert_eq!(xy_to_index(xy), i, "round trip failed for {i}");
    }
}

#[test]
fn coord_index_round_trip_all_coords() {
    for x in 0..8isize {
        for y in 0..8isize {
            let xy = XyPair { x, y };
            let i = xy_to_index(xy);
            assert_eq!(index_to_xy(i), xy, "round trip failed for ({x}, {y})");
        }
    }
}

#[test]
fn index_to_xy_exact_values() {
    assert_eq!(index_to_xy(0), XyPair { x: 0, y: 0 });
    assert_eq!(index_to_xy(7), XyPair { x: 7, y: 0 });
    assert_eq!(index_to_xy(8), XyPair { x: 0, y: 1 });
    assert_eq!(index_to_xy(11), XyPair { x: 3, y: 1 });
    assert_eq!(index_to_xy(63), XyPair { x: 7, y: 7 });
}

#[test]
fn xy_to_index_exact_values() {
    assert_eq!(xy_to_index(XyPair { x: 3, y: 0 }), 3);
    assert_eq!(xy_to_index(XyPair { x: 3, y: 7 }), 59);
    assert_eq!(xy_to_index(XyPair { x: 0, y: 6 }), 48);
}

#[test]
fn rot_index_mirrors_the_board() {
    assert_eq!(rot_index(0), 63);
    assert_eq!(rot_index(63), 0);
    assert_eq!(rot_index(8), 55);
    for i in 0..64usize {
        assert_eq!(rot_index(rot_index(i)), i, "rotation must be an involution");
    }
}

#[test]
fn negative_pairs_are_rejected_not_wrapped() {
    assert_eq!(XyPair::try_new((3, 4)), Ok(XyPair { x: 3, y: 4 }));
    assert_eq!(XyPair::try_new((0, 0)), Ok(XyPair { x: 0, y: 0 }));
    assert_eq!(XyPair::try_new((7, 7)), Ok(XyPair { x: 7, y: 7 }));
    let out = Err(chess_core::errors::ChessError::TileOutOfBounds);
    assert_eq!(XyPair::try_new((-3, 5)), out);
    assert_eq!(XyPair::try_new((-3, 2)), out);
    assert_eq!(XyPair::try_new((0, -1)), out);
    assert_eq!(XyPair::try_new((8, 0)), out);
    assert_eq!(XyPair::try_new((0, 8)), out);
}

#[test]
fn coordinate_order_follows_the_linear_index() {
    let a = XyPair { x: 7, y: 0 }; // index 7
    let b = XyPair { x: 0, y: 1 }; // index 8
    assert_eq!(a.index_cmp(&b), Ordering::Less);
    assert_eq!(b.index_cmp(&a), Ordering::Greater);
    assert_eq!(a.index_cmp(&a), Ordering::Equal);
}

#[test]
fn screen_rows_flip_ranks() {
    assert_eq!(get_y_from_col(0), 7);
    assert_eq!(get_y_from_col(7), 0);
    assert_eq!(xy_to_row_col(&XyPair { x: 2, y: 5 }), (2, 2));
    assert_eq!(xy_to_row_col(&XyPair { x: 0, y: 0 }), (0, 7));
}
