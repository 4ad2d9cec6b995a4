//! The identifier value types the engine exchanges with a presentation or
//! transport layer.

use vstd::prelude::*;

verus! {

/// Identifies one game session managed by a [`crate::GameMaster`].
pub type GameId = u64;

/// Identifies a piece; the sign encodes the owning side. The first player's
/// pieces carry positive identifiers, the second player's negative ones.
pub type PieceId = i16;

/// The linear index of a tile on the board, in `[0, 63]`.
pub type TileId = usize;

/// Selects one movement option out of a piece's vision.
pub type MoveOp = usize;

/// Selects a piece class, for promotion requests.
pub type Class = usize;

/// Identifies a player within a session: `true` means the second player.
pub type PlayerId = bool;

} // verus!
