//! The fixed measures of a map, in pixels and in tiles.

use vstd::prelude::*;

verus! {

/// The width and the height of one tile, in pixels.
pub const TILE_SIZE: i32 = 150;

/// The thickness of the frame that marks the centre tile.
pub const BORDER_SIZE: i32 = 5;

/// The distance from the edge of a tile to the motif drawn on it.
pub const INSET_SIZE: i32 = 10;

/// The width and the height of the motif.
pub const IN_TILE_SIZE: i32 = TILE_SIZE - (INSET_SIZE * 2);

/// The width and the height of a map, in tiles.
pub const VIEW_DISTANCE: i32 = 10;

/// The side of the flat patches of the background: the texture is sampled at
/// multiples of this many pixels.
pub const CLUMPING: i32 = 5;

/// The largest multiple of the clumping factor that is not above `v`.
pub open spec fn quantized(v: int) -> int {
    v - v % (CLUMPING as int)
}

/// The coordinate at which the texture is sampled for the pixel at `offset`
/// within the tile at `tile`, along either axis: the pixel's place in the
/// whole world, rounded down to a multiple of the clumping factor.
pub open spec fn spec_sample_coordinate(tile: i32, offset: u32) -> int {
    quantized(tile * TILE_SIZE + offset)
}

/// The coordinate at which the texture is sampled for the pixel at `offset`
/// within the tile at `tile`, along either axis.
pub fn sample_coordinate(tile: i32, offset: u32) -> (at: i64)
    ensures
        at == spec_sample_coordinate(tile, offset),
        at % (CLUMPING as i64) == 0,
        at <= tile * TILE_SIZE + offset < at + CLUMPING,
{
    assert(-0x80_0000_0000 <= (tile as i64) * (TILE_SIZE as i64) <= 0x80_0000_0000) by (nonlinear_arith)
        requires
            TILE_SIZE == 150,
            -0x8000_0000 <= tile <= 0x7fff_ffff,
    ;
    let absolute: i64 = (tile as i64) * (TILE_SIZE as i64) + (offset as i64);
    let rest: i64 = absolute % (CLUMPING as i64);
    if rest < 0 {
        absolute - rest - (CLUMPING as i64)
    } else {
        absolute - rest
    }
}

} // verus!
