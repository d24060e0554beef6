//! Grid-to-pixel coordinate conversion for the renderer.

use vstd::prelude::*;

verus! {

/// Pixels per grid cell.
pub const BLOCK_SIZE: i64 = 25;

/// A grid coordinate scaled to pixels and clamped to the `u32` range, the
/// way a saturating float-to-integer cast clamps it.
pub open spec fn to_coord_u32_spec(c: int) -> int {
    if BLOCK_SIZE * c < 0 {
        0
    } else if BLOCK_SIZE * c > u32::MAX {
        u32::MAX as int
    } else {
        BLOCK_SIZE * c
    }
}

/// The pixel offset of grid coordinate `game_coord`, clamped to `u32`.
pub fn to_coord_u32(game_coord: i32) -> (r: u32)
    ensures
        r == to_coord_u32_spec(game_coord as int),
{
    let scaled: i64 = (game_coord as i64) * BLOCK_SIZE;
    if scaled < 0 {
        0
    } else if scaled > u32::MAX as i64 {
        u32::MAX
    } else {
        scaled as u32
    }
}

} // verus!
