use vstd::prelude::*;

use vstd::arithmetic::div_mod::lemma_fundamental_div_mod;
use vstd::arithmetic::div_mod::lemma_fundamental_div_mod_converse_div;
use vstd::arithmetic::div_mod::lemma_fundamental_div_mod_converse_mod;

use crate::color::Rgba;
use crate::tile::cleared;
use crate::tile::default_tile_at;
use crate::tile::Tile;
use crate::tile::DEFAULT_GLYPH;

verus! {

/// A fixed-size grid of tiles in row-major order. Created once, never resized;
/// the renderer consumes the dirty flags and `reset_tiles` lowers them.
#[derive(Debug)]
pub struct Console {
    pub width: u32,
    pub height: u32,
    pub tiles: Vec<Tile>,
}

/// The whole tile sequence with every dirty flag lowered.
pub open spec fn clear_all(s: Seq<Tile>) -> Seq<Tile> {
    s.map_values(|t: Tile| cleared(t))
}

/// At a valid grid position `(x, y)` of a `w` by `h` grid, the row-major index
/// is in range and inverts through remainder and division by the width.
pub proof fn lemma_row_major(x: int, y: int, w: int, h: int)
    requires
        0 <= x < w,
        0 <= y < h,
    ensures
        0 <= x + y * w < w * h,
        (x + y * w) % w == x,
        (x + y * w) / w == y,
{
    lemma_fundamental_div_mod_converse_mod(x + y * w, w, y, x);
    lemma_fundamental_div_mod_converse_div(x + y * w, w, y, x);
    assert(0 <= x + y * w < w * h) by (nonlinear_arith)
        requires
            0 <= x < w,
            0 <= y < h,
    ;
}

impl Console {
    /// Row-major index of grid position `(x, y)`.
    pub open spec fn spec_index(&self, x: int, y: int) -> int {
        x + y * self.width as int
    }

    /// Structural invariant: positive extent, one tile per grid cell in
    /// row-major order, each tile recording its own grid position.
    pub open spec fn wf(&self) -> bool {
        &&& 1 <= self.width
        &&& 1 <= self.height
        &&& self.tiles@.len() == self.width as int * self.height as int
        &&& forall|i: int|
            0 <= i < self.tiles@.len() ==> (#[trigger] self.tiles@[i]).row as int == i % (
            self.width as int) && self.tiles@[i].col as int == i / (self.width as int)
    }

    /// Allocate a `width` by `height` grid of freshly created tiles, all
    /// dirty, so that the first frame draws everything.
    pub fn new(width: u32, height: u32) -> (c: Console)
        requires
            1 <= width,
            1 <= height,
            width as int * height as int <= usize::MAX as int,
        ensures
            c.wf(),
            c.width == width,
            c.height == height,
            forall|i: int|
                0 <= i < c.tiles@.len() ==> #[trigger] c.tiles@[i] == default_tile_at(
                    (i % width as int) as u32,
                    (i / width as int) as u32,
                ),
            forall|i: int| 0 <= i < c.tiles@.len() ==> (#[trigger] c.tiles@[i]).dirty,
    {
        let mut tiles: Vec<Tile> = Vec::new();
        let mut col: u32 = 0;
        while col < height
            invariant
                1 <= width,
                1 <= height,
                col <= height,
                width as int * height as int <= usize::MAX as int,
                tiles@.len() == col as int * width as int,
                forall|i: int|
                    0 <= i < tiles@.len() ==> #[trigger] tiles@[i] == default_tile_at(
                        (i % width as int) as u32,
                        (i / width as int) as u32,
                    ),
            decreases height - col,
        {
            let mut row: u32 = 0;
            while row < width
                invariant
                    1 <= width,
                    1 <= height,
                    col < height,
                    row <= width,
                    width as int * height as int <= usize::MAX as int,
                    tiles@.len() == col as int * width as int + row as int,
                    forall|i: int|
                        0 <= i < tiles@.len() ==> #[trigger] tiles@[i] == default_tile_at(
                            (i % width as int) as u32,
                            (i / width as int) as u32,
                        ),
                decreases width - row,
            {
                let ghost idx = tiles@.len() as int;
                proof {
                    lemma_row_major(row as int, col as int, width as int, height as int);
                    assert(idx == row as int + col as int * width as int);
                }
                tiles.push(
                    Tile {
                        row,
                        col,
                        glyph: DEFAULT_GLYPH,
                        foreground: Rgba { r: 255, g: 0, b: 0, a: 255 },
                        background: Rgba { r: 0, g: 0, b: 255, a: 255 },
                        dirty: true,
                    },
                );
                proof {
                    assert(idx % (width as int) == row as int);
                    assert(idx / (width as int) == col as int);
                    assert(tiles@[idx] == default_tile_at(row, col));
                }
                row = row + 1;
            }
            proof {
                assert((col as int + 1) * width as int == col as int * width as int + width as int)
                    by (nonlinear_arith);
            }
            col = col + 1;
        }
        let c = Console { width, height, tiles };
        proof {
            assert(width as int * height as int == height as int * width as int)
                by (nonlinear_arith);
            assert forall|i: int| 0 <= i < c.tiles@.len() implies (#[trigger] c.tiles@[i]).row
                as int == i % (c.width as int) && c.tiles@[i].col as int == i / (c.width as int) by {
                assert(c.tiles@[i] == default_tile_at(
                    (i % width as int) as u32,
                    (i / width as int) as u32,
                ));
                lemma_fundamental_div_mod(i, width as int);
                assert(0 <= i % (width as int) < width as int);
                assert(0 <= i / (width as int) < height as int) by (nonlinear_arith)
                    requires
                        0 <= i < width as int * height as int,
                        1 <= width as int,
                ;
            }
        }
        c
    }

    /// Read access to the whole tile sequence.
    pub fn tiles(&self) -> (t: &Vec<Tile>)
        ensures
            t@ == self.tiles@,
    {
        &self.tiles
    }

    /// Mutable access to the whole tile sequence; the grid extent is left
    /// alone.
    pub fn tiles_mut(&mut self) -> (t: &mut Vec<Tile>)
        ensures
            *t == old(self).tiles,
            final(self).tiles == *final(t),
            final(self).width == old(self).width,
            final(self).height == old(self).height,
    {
        &mut self.tiles
    }

    pub fn width(&self) -> (w: u32)
        ensures
            w == self.width,
    {
        self.width
    }

    pub fn height(&self) -> (h: u32)
        ensures
            h == self.height,
    {
        self.height
    }

    /// Lower every tile's dirty flag. Called once per frame, strictly after
    /// the renderer has drawn the dirty tiles of that frame.
    pub fn reset_tiles(&mut self)
        ensures
            final(self).width == old(self).width,
            final(self).height == old(self).height,
            final(self).tiles@ == clear_all(old(self).tiles@),
            old(self).wf() ==> final(self).wf(),
    {
        let n = self.tiles.len();
        let mut i: usize = 0;
        while i < n
            invariant
                n == self.tiles.len(),
                i <= n,
                self.width == old(self).width,
                self.height == old(self).height,
                self.tiles@.len() == old(self).tiles@.len(),
                forall|j: int| 0 <= j < i ==> self.tiles@[j] == cleared(old(self).tiles@[j]),
                forall|j: int| i <= j < n ==> self.tiles@[j] == old(self).tiles@[j],
            decreases n - i,
        {
            let t = self.tiles[i];
            self.tiles[i] = Tile { dirty: false, ..t };
            i = i + 1;
        }
        proof {
            assert(self.tiles@ =~= clear_all(old(self).tiles@));
        }
    }

    /// Bounds-checked access to the tile at grid position `(x, y)`: a mutable
    /// reference inside the grid, nothing outside it.
    pub fn tile_mut(&mut self, x: u32, y: u32) -> (r: Option<&mut Tile>)
        requires
            old(self).wf(),
        ensures
            match r {
                Some(t) => {
                    &&& x < old(self).width
                    &&& y < old(self).height
                    &&& *t == old(self).tiles@[old(self).spec_index(x as int, y as int)]
                    &&& t.row == x
                    &&& t.col == y
                    &&& final(self).tiles@ == old(self).tiles@.update(
                        old(self).spec_index(x as int, y as int),
                        *final(t),
                    )
                    &&& final(self).width == old(self).width
                    &&& final(self).height == old(self).height
                },
                None => {
                    &&& (x >= old(self).width || y >= old(self).height)
                    &&& *final(self) == *old(self)
                },
            },
    {
        if x >= self.width || y >= self.height {
            return None;
        }
        let idx = self.index(x, y);
        proof {
            lemma_row_major(x as int, y as int, self.width as int, self.height as int);
        }
        Some(&mut self.tiles[idx])
    }

    /// Row-major index of an in-bounds grid position.
    fn index(&self, x: u32, y: u32) -> (i: usize)
        requires
            self.wf(),
            x < self.width,
            y < self.height,
        ensures
            i as int == self.spec_index(x as int, y as int),
            i < self.tiles@.len(),
    {
        let n = self.tiles.len();
        proof {
            lemma_row_major(x as int, y as int, self.width as int, self.height as int);
            assert(self.tiles@.len() == n as int && n <= usize::MAX);
        }
        x as usize + y as usize * self.width as usize
    }
}

/// Index bijection: each in-bounds grid position owns exactly the tile at its
/// row-major index, and that tile records the position; conversely, each
/// tile's recorded position leads back to its own index.
pub proof fn lemma_index_bijection(c: Console)
    requires
        c.wf(),
    ensures
        forall|x: int, y: int|
            0 <= x < c.width && 0 <= y < c.height ==> 0 <= #[trigger] c.spec_index(x, y)
                < c.tiles@.len() && c.tiles@[c.spec_index(x, y)].row == x && c.tiles@[c.spec_index(
                x,
                y,
            )].col == y,
        forall|i: int|
            0 <= i < c.tiles@.len() ==> c.spec_index(
                (#[trigger] c.tiles@[i]).row as int,
                c.tiles@[i].col as int,
            ) == i,
{
    assert forall|x: int, y: int| 0 <= x < c.width && 0 <= y < c.height implies 0
        <= #[trigger] c.spec_index(x, y) < c.tiles@.len() && c.tiles@[c.spec_index(x, y)].row == x
        && c.tiles@[c.spec_index(x, y)].col == y by {
        lemma_row_major(x, y, c.width as int, c.height as int);
    }
    assert forall|i: int| 0 <= i < c.tiles@.len() implies c.spec_index(
        (#[trigger] c.tiles@[i]).row as int,
        c.tiles@[i].col as int,
    ) == i by {
        lemma_fundamental_div_mod(i, c.width as int);
        assert(c.width as int * (i / c.width as int) == (i / c.width as int) * (c.width as int))
            by (nonlinear_arith);
    }
}

/// After a clearing pass no tile is dirty and nothing else about any tile has
/// changed, whatever the sequence held before.
pub proof fn lemma_clear_all_lowers_all(s: Seq<Tile>)
    ensures
        clear_all(s).len() == s.len(),
        forall|i: int| 0 <= i < s.len() ==> !(#[trigger] clear_all(s)[i]).dirty,
        forall|i: int| 0 <= i < s.len() ==> #[trigger] clear_all(s)[i] == cleared(s[i]),
{
}

/// Lowering the dirty flags is idempotent: clearing an already-cleared tile
/// sequence changes nothing.
pub proof fn lemma_clear_all_idempotent(s: Seq<Tile>)
    ensures
        clear_all(clear_all(s)) == clear_all(s),
{
    assert(clear_all(clear_all(s)) =~= clear_all(s));
}

} // verus!
