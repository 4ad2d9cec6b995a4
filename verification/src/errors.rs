//! The engine's error taxonomy: conflicts, missing lookups, movement rules
//! that are not implemented yet, and invalid argument combinations. All of
//! these are recoverable conditions returned to the caller.

use vstd::prelude::*;

verus! {

/// A recoverable failure reported by the engine.
#[derive(Debug, Clone, Copy, PartialEq, Eq, Structural)]
pub enum ChessError {
    /// Conflict: the destination tile already holds a piece.
    TileOccupied,
    /// Conflict: a piece's color does not match the roster it was assigned to.
    OwnershipMismatch,
    /// Conflict: a session with the requested identifier already exists.
    GameIdInUse,
    /// Not found: no session carries the requested game identifier.
    GameNotFound,
    /// Not found: no roster piece carries the requested piece identifier.
    PieceNotFound,
    /// Not found: a tile index lies outside the board; it is never wrapped
    /// into a valid-looking index.
    TileOutOfBounds,
    /// The movement rule for the requested piece or color is not implemented
    /// yet; this signals an engine gap, not a rules violation.
    RuleUnavailable,
    /// A rules violation: the move's destination is not among the
    /// destinations the piece's vision lists. Reported only for pieces whose
    /// movement rule is implemented.
    IllegalMove,
    /// Validation: clock values were supplied without a designated active
    /// player when reconstructing an arbitrary session.
    MissingActivePlayer,
    /// Validation: a history action disagrees with the board it is replayed
    /// against.
    InconsistentAction,
}

} // verus!
