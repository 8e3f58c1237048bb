use vstd::prelude::*;

verus! {

/// Collision group bit of the players.
pub const COL_DUDE: u32 = 0b001;
/// Collision group bit of the bullets.
pub const COL_BULLET: u32 = 0b010;
/// Collision group bit of the walls.
pub const COL_TERRAIN: u32 = 0b100;
/// Groups a bullet collides with: walls and other bullets.
pub const COL_FILTER_BULLET: u32 = COL_TERRAIN | COL_BULLET;
/// Groups a player collides with: walls only.
pub const COL_FILTER_DUDE: u32 = COL_TERRAIN;

/// Side of a dungeon tile, in world units.
pub const TILE_SIZE: usize = 64;

} // verus!
