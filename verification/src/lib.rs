//! A fixed-size console of glyph tiles rendered onto a resizable window.
//!
//! The library owns the tile-grid state model, its dirty-flag tracking, the
//! partial-redraw pipeline into an off-screen pixel buffer, the glyph-atlas
//! coordinate mapping, and the aspect-preserving layout of that buffer inside
//! an arbitrarily sized window. Window-system plumbing, image decoding and
//! input polling live outside the library and hand it plain values.

pub mod atlas;
pub mod bitmap;
pub mod color;
pub mod console;
pub mod frame;
pub mod layout;
pub mod mutate;
pub mod render;
pub mod state;
pub mod tile;

use vstd::prelude::*;

verus! {

/// Width in pixels of one glyph cell.
pub const TILE_W: u32 = 14;

/// Height in pixels of one glyph cell.
pub const TILE_H: u32 = 16;

/// Number of glyph cells per row of the atlas bitmap.
pub const ATLAS_COLS: u32 = 16;

/// Number of glyph cell rows in the atlas bitmap.
pub const ATLAS_ROWS: u32 = 16;

} // verus!
