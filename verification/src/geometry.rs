//! Pure conversions between the iso-tile lattice and pixel space.
//!
//! The screen projects a tile `(x, y)` onto a diamond of `TILE_W` by `TILE_H`
//! pixels; the helpers here compute the pixel anchor of a tile, the tile under
//! a pixel, and bounding boxes in both directions.  Everything is integer
//! arithmetic; scaling and camera translation are left to the caller.

use vstd::prelude::*;

verus! {

/// Width in pixels of one iso tile.
pub const TILE_W: i32 = 32;

/// Height in pixels of one iso tile.
pub const TILE_H: i32 = 16;

/// Half of `TILE_W`.
pub const TILE_W_HALF: i32 = 16;

/// Half of `TILE_H`.
pub const TILE_H_HALF: i32 = 8;

/// A position (or an extent) on the iso lattice: `x` and `y` address a cell,
/// `z` is a height level.
#[derive(PartialEq, Eq, Structural, Clone, Copy, Debug)]
pub struct Tile {
    pub x: i32,
    pub y: i32,
    pub z: i32,
}

/// Rust's truncating division for a positive divisor, as `/` computes it on
/// `i32` operands (Verus's own `/` on `int` rounds toward minus infinity).
pub open spec fn div_trunc(a: int, b: int) -> int {
    if a >= 0 {
        a / b
    } else {
        -((-a) / b)
    }
}

/// Pixel position of a tile's top-left drawing anchor.
pub fn iso_to_xy(tile: &Tile) -> (r: (i32, i32))
    requires
        i32::MIN <= (tile.x - tile.y - 1) * TILE_W_HALF <= i32::MAX,
        i32::MIN <= (tile.x + tile.y) * TILE_H_HALF <= i32::MAX,
    ensures
        r.0 == (tile.x - tile.y - 1) * TILE_W_HALF,
        r.1 == (tile.x + tile.y) * TILE_H_HALF,
{
    ((tile.x - tile.y - 1) * TILE_W_HALF, (tile.x + tile.y) * TILE_H_HALF)
}

/// Tile under the world pixel `(px, py)`, at height level 0.
pub fn xy_to_iso(px: i32, py: i32) -> (r: Tile)
    requires
        i32::MIN <= 2 * py <= i32::MAX,
        i32::MIN < px + 2 * py <= i32::MAX,
        i32::MIN < px - 2 * py <= i32::MAX,
    ensures
        r.x == div_trunc(px + 2 * py, TILE_W as int),
        r.y == -div_trunc(px - 2 * py, TILE_W as int),
        r.z == 0,
{
    let py2: i32 = 2 * py;
    let x: i32 = (px + py2) / TILE_W;
    let y: i32 = -((px - py2) / TILE_W);
    Tile { x, y, z: 0 }
}

/// Size of the pixel bounding box that covers a footprint of `w` by `h`
/// tiles: `((w + h) * TILE_W_HALF, (w + h) * TILE_H_HALF)`.
pub fn min_xy_bounding_box_for_iso_size(w: i32, h: i32) -> (r: (i32, i32))
    requires
        i32::MIN <= (w + h) * TILE_W_HALF <= i32::MAX,
    ensures
        r.0 == (w + h) * TILE_W_HALF,
        r.1 == (w + h) * TILE_H_HALF,
{
    ((w + h) * TILE_W_HALF, (w + h) * TILE_H_HALF)
}

/// The smallest diamond of iso coordinates that bounds the axis-aligned world
/// pixel rectangle with corners `(min_x, min_y)` and `(max_x, max_y)`.
/// Returns the lower and upper corner tiles, with one tile of slack added on
/// the far side.
pub fn min_iso_bounding_box_for_xy(min_x: i32, min_y: i32, max_x: i32, max_y: i32) -> (r: (
    Tile,
    Tile,
))
    requires
        i32::MIN <= 2 * min_y <= i32::MAX,
        i32::MIN <= 2 * max_y <= i32::MAX,
        i32::MIN < min_x + 2 * min_y <= i32::MAX,
        i32::MIN < max_x + 2 * max_y < i32::MAX,
        i32::MIN < max_x - 2 * min_y <= i32::MAX,
        i32::MIN < min_x - 2 * max_y <= i32::MAX,
    ensures
        r.0.x == div_trunc(min_x + 2 * min_y, TILE_W as int),
        r.0.y == -div_trunc(max_x - 2 * min_y, TILE_W as int),
        r.0.z == 0,
        r.1.x == div_trunc(max_x + 2 * max_y, TILE_W as int) + 1,
        r.1.y == -div_trunc(min_x - 2 * max_y, TILE_W as int) + 1,
        r.1.z == 0,
{
    let oy2: i32 = 2 * min_y;
    let ey2: i32 = 2 * max_y;
    let left: i32 = (min_x + oy2) / TILE_W;
    let right: i32 = (max_x + ey2) / TILE_W + 1;
    let top: i32 = -((max_x - oy2) / TILE_W);
    let bottom: i32 = -((min_x - ey2) / TILE_W) + 1;
    (Tile { x: left, y: top, z: 0 }, Tile { x: right, y: bottom, z: 0 })
}


/// Law: the footprint-to-pixel bounding box is a pure function — for one
/// `(w, h)` every computation returns the one pair
/// `((w + h) * TILE_W_HALF, (w + h) * TILE_H_HALF)`.
pub proof fn lemma_bounding_box_deterministic(w: i32, h: i32, r1: (i32, i32), r2: (i32, i32))
    requires
        r1.0 == (w + h) * TILE_W_HALF && r1.1 == (w + h) * TILE_H_HALF,
        r2.0 == (w + h) * TILE_W_HALF && r2.1 == (w + h) * TILE_H_HALF,
    ensures
        r1 == r2,
{
}

} // verus!
