use vstd::prelude::*;

use crate::ATLAS_COLS;
use crate::ATLAS_ROWS;
use crate::TILE_H;
use crate::TILE_W;

verus! {

/// Atlas cell holding a glyph: glyphs sit sixteen per atlas row, so code `g`
/// lives in cell `(g % 16, g / 16)`, counted as (row, col) where the row
/// advances along the pixel x axis and the col along the pixel y axis.
pub open spec fn spec_locate(glyph: u8) -> (int, int) {
    (glyph as int % 16, glyph as int / 16)
}

/// Pixel x offset of a glyph's cell inside the atlas bitmap.
pub open spec fn glyph_px_x(glyph: u8) -> int {
    (glyph as int % 16) * TILE_W as int
}

/// Pixel y offset of a glyph's cell inside the atlas bitmap.
pub open spec fn glyph_px_y(glyph: u8) -> int {
    (glyph as int / 16) * TILE_H as int
}

/// Locate a glyph's cell in the atlas. Total and deterministic over the whole
/// glyph range; the glyph's pixels start at `(row * TILE_W, col * TILE_H)`.
pub fn locate(glyph: u8) -> (rc: (u32, u32))
    ensures
        (rc.0 as int, rc.1 as int) == spec_locate(glyph),
        rc.0 < ATLAS_COLS,
        rc.1 < ATLAS_ROWS,
{
    ((glyph % 16) as u32, (glyph / 16) as u32)
}

/// Pixel offset of a glyph's cell in the atlas bitmap; the cell always lies
/// wholly inside the fixed atlas extent.
pub fn glyph_src(glyph: u8) -> (xy: (u32, u32))
    ensures
        xy.0 == glyph_px_x(glyph),
        xy.1 == glyph_px_y(glyph),
        xy.0 + TILE_W <= ATLAS_COLS * TILE_W,
        xy.1 + TILE_H <= ATLAS_ROWS * TILE_H,
{
    let (row, col) = locate(glyph);
    (row * TILE_W, col * TILE_H)
}

} // verus!
