//! Fixed settings of the world.

use vstd::prelude::*;

verus! {

/// The side of a cell, in world pixels.
pub const TILE_SIZE: i64 = 40;

/// The sanity bound of the coordinate space: no rule enforces it.
pub const FIELD_LIMIT: i64 = 1_000_000_000_000;

/// The time between two steps of the player, in nanoseconds.
pub const PLAYER_MOVE_INTERVAL: u64 = 1_000_000_000;

} // verus!
