use vstd::prelude::*;

use crate::color::Rgba;

verus! {

/// The glyph code every tile starts with: the code page's question mark.
pub const DEFAULT_GLYPH: u8 = 63;

/// One grid cell's render state.
#[derive(Clone, Copy, PartialEq, Eq, Structural, Debug)]
pub struct Tile {
    /// Horizontal grid position, fixed after creation.
    pub row: u32,
    /// Vertical grid position, fixed after creation.
    pub col: u32,
    /// Code of the glyph shown in this cell.
    pub glyph: u8,
    /// Colour the glyph's pixels are tinted with.
    pub foreground: Rgba,
    /// Colour filled behind the glyph.
    pub background: Rgba,
    /// True from creation, and again after every mutation, until the renderer
    /// has drawn the tile once.
    pub dirty: bool,
}

/// The state every tile is created with: default glyph and colours, dirty.
pub open spec fn default_tile() -> Tile {
    Tile {
        row: 0,
        col: 0,
        glyph: DEFAULT_GLYPH,
        foreground: Rgba { r: 255, g: 0, b: 0, a: 255 },
        background: Rgba { r: 0, g: 0, b: 255, a: 255 },
        dirty: true,
    }
}

/// A freshly created tile at grid position `(row, col)`.
pub open spec fn default_tile_at(row: u32, col: u32) -> Tile {
    Tile { row, col, ..default_tile() }
}

/// The same tile with its dirty flag lowered.
pub open spec fn cleared(t: Tile) -> Tile {
    Tile { dirty: false, ..t }
}

impl Tile {
    /// Whether the tile still awaits a redraw.
    pub fn dirty(&self) -> (d: bool)
        ensures
            d == self.dirty,
    {
        self.dirty
    }
}

impl Default for Tile {
    fn default() -> (t: Tile)
        ensures
            t == default_tile(),
    {
        Tile {
            row: 0,
            col: 0,
            glyph: DEFAULT_GLYPH,
            foreground: Rgba { r: 255, g: 0, b: 0, a: 255 },
            background: Rgba { r: 0, g: 0, b: 255, a: 255 },
            dirty: true,
        }
    }
}

} // verus!
