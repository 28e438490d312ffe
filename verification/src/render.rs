use vstd::prelude::*;

use vstd::arithmetic::div_mod::lemma_fundamental_div_mod;
use vstd::arithmetic::div_mod::lemma_fundamental_div_mod_converse_div;

use crate::atlas::glyph_px_x;
use crate::atlas::glyph_px_y;
use crate::atlas::glyph_src;
use crate::bitmap::Bitmap;
use crate::color::rendered_pixel;
use crate::color::shade;
use crate::console::lemma_row_major;
use crate::console::Console;
use crate::tile::Tile;
use crate::ATLAS_COLS;
use crate::ATLAS_ROWS;
use crate::TILE_H;
use crate::TILE_W;

verus! {

/// Whether frame-buffer pixel `(px, py)` lies inside the cell rectangle of
/// tile `t`.
pub open spec fn in_tile_rect(t: Tile, px: int, py: int) -> bool {
    &&& t.row as int * TILE_W as int <= px < (t.row as int + 1) * TILE_W as int
    &&& t.col as int * TILE_H as int <= py < (t.col as int + 1) * TILE_H as int
}

/// The colour tile `t` paints at frame-buffer position `(px, py)` inside its
/// cell: the matching atlas pixel of its glyph, tinted by the foreground and
/// composited over the background.
pub open spec fn tile_pixel(atlas: Bitmap, t: Tile, px: int, py: int) -> crate::color::Rgba {
    rendered_pixel(
        atlas.spec_pixel(
            glyph_px_x(t.glyph) + (px - t.row as int * TILE_W as int),
            glyph_px_y(t.glyph) + (py - t.col as int * TILE_H as int),
        ),
        t.foreground,
        t.background,
    )
}

/// Row-major index of the tile whose cell rectangle holds frame-buffer pixel
/// `(px, py)`.
pub open spec fn owner_index(c: Console, px: int, py: int) -> int {
    px / TILE_W as int + (py / TILE_H as int) * c.width as int
}

/// The atlas extent every glyph source rectangle fits in.
pub open spec fn atlas_wf(atlas: Bitmap) -> bool {
    &&& atlas.wf()
    &&& atlas.width == ATLAS_COLS * TILE_W
    &&& atlas.height == ATLAS_ROWS * TILE_H
}

/// A frame buffer sized cell-accurately to the console grid.
pub open spec fn fb_matches(fb: Bitmap, c: Console) -> bool {
    &&& fb.width as int == c.width as int * TILE_W as int
    &&& fb.height as int == c.height as int * TILE_H as int
}

/// Each frame-buffer pixel lies in the cell rectangle of exactly the tile
/// that `owner_index` names.
pub proof fn lemma_owner_characterises(c: Console, px: int, py: int, i: int)
    requires
        c.wf(),
        0 <= px < c.width as int * TILE_W as int,
        0 <= py < c.height as int * TILE_H as int,
        0 <= i < c.tiles@.len(),
    ensures
        0 <= owner_index(c, px, py) < c.tiles@.len(),
        in_tile_rect(c.tiles@[i], px, py) <==> owner_index(c, px, py) == i,
{
    let w = c.width as int;
    let h = c.height as int;
    let cx = px / TILE_W as int;
    let cy = py / TILE_H as int;
    assert(0 <= cx < w);
    assert(0 <= cy < h);
    lemma_row_major(cx, cy, w, h);
    let t = c.tiles@[i];
    assert(t.row as int == i % w && t.col as int == i / w);
    lemma_fundamental_div_mod(i, w);
    assert(w * (i / w) == (i / w) * w) by (nonlinear_arith);
    if in_tile_rect(t, px, py) {
        lemma_fundamental_div_mod_converse_div(px, TILE_W as int, t.row as int, px - t.row as int * TILE_W as int);
        lemma_fundamental_div_mod_converse_div(py, TILE_H as int, t.col as int, py - t.col as int * TILE_H as int);
        assert(cx == t.row as int && cy == t.col as int);
        assert(owner_index(c, px, py) == i);
    }
    if owner_index(c, px, py) == i {
        assert(i % w == cx && i / w == cy);
        assert(t.row as int == cx && t.col as int == cy);
        lemma_fundamental_div_mod(px, TILE_W as int);
        lemma_fundamental_div_mod(py, TILE_H as int);
        assert(in_tile_rect(t, px, py));
    }
}

/// Paint one tile's cell rectangle into the frame buffer: background fill
/// composited with the tinted glyph, pixel for pixel. Pixels outside the cell
/// keep their colour.
pub fn draw_tile(fb: &mut Bitmap, atlas: &Bitmap, tile: &Tile)
    requires
        atlas_wf(*atlas),
        old(fb).wf(),
        (tile.row as int + 1) * TILE_W as int <= old(fb).width as int,
        (tile.col as int + 1) * TILE_H as int <= old(fb).height as int,
    ensures
        final(fb).wf(),
        final(fb).width == old(fb).width,
        final(fb).height == old(fb).height,
        forall|px: int, py: int|
            0 <= px < old(fb).width && 0 <= py < old(fb).height ==> final(fb).spec_pixel(px, py)
                == if in_tile_rect(*tile, px, py) {
                tile_pixel(*atlas, *tile, px, py)
            } else {
                old(fb).spec_pixel(px, py)
            },
{
    let base_x: u32 = tile.row * TILE_W;
    let base_y: u32 = tile.col * TILE_H;
    let (sx, sy) = glyph_src(tile.glyph);
    let mut dy: u32 = 0;
    while dy < TILE_H
        invariant
            atlas_wf(*atlas),
            fb.wf(),
            fb.width == old(fb).width,
            fb.height == old(fb).height,
            dy <= TILE_H,
            base_x == tile.row * TILE_W,
            base_y == tile.col * TILE_H,
            (tile.row as int + 1) * TILE_W as int <= fb.width as int,
            (tile.col as int + 1) * TILE_H as int <= fb.height as int,
            sx == glyph_px_x(tile.glyph),
            sy == glyph_px_y(tile.glyph),
            sx + TILE_W <= atlas.width,
            sy + TILE_H <= atlas.height,
            forall|px: int, py: int|
                0 <= px < fb.width && 0 <= py < fb.height ==> fb.spec_pixel(px, py) == if
                    in_tile_rect(*tile, px, py) && py < base_y + dy {
                    tile_pixel(*atlas, *tile, px, py)
                } else {
                    old(fb).spec_pixel(px, py)
                },
        decreases TILE_H - dy,
    {
        let mut dx: u32 = 0;
        while dx < TILE_W
            invariant
                atlas_wf(*atlas),
                fb.wf(),
                fb.width == old(fb).width,
                fb.height == old(fb).height,
                dy < TILE_H,
                dx <= TILE_W,
                base_x == tile.row * TILE_W,
                base_y == tile.col * TILE_H,
                (tile.row as int + 1) * TILE_W as int <= fb.width as int,
                (tile.col as int + 1) * TILE_H as int <= fb.height as int,
                sx == glyph_px_x(tile.glyph),
                sy == glyph_px_y(tile.glyph),
                sx + TILE_W <= atlas.width,
                sy + TILE_H <= atlas.height,
                forall|px: int, py: int|
                    0 <= px < fb.width && 0 <= py < fb.height ==> fb.spec_pixel(px, py) == if
                        in_tile_rect(*tile, px, py) && (py < base_y + dy || (py == base_y + dy && px
                        < base_x + dx)) {
                        tile_pixel(*atlas, *tile, px, py)
                    } else {
                        old(fb).spec_pixel(px, py)
                    },
            decreases TILE_W - dx,
        {
            let g = atlas.pixel(sx + dx, sy + dy);
            let p = shade(g, tile.foreground, tile.background);
            fb.set_pixel(base_x + dx, base_y + dy, p);
            dx = dx + 1;
        }
        dy = dy + 1;
    }
}

/// How many tiles of the sequence are dirty.
pub open spec fn count_dirty(s: Seq<Tile>) -> int
    decreases s.len(),
{
    if s.len() == 0 {
        0
    } else {
        count_dirty(s.drop_last()) + if s.last().dirty {
            1int
        } else {
            0int
        }
    }
}

/// The dirty count never exceeds the number of tiles.
pub proof fn lemma_count_dirty_bounds(s: Seq<Tile>)
    ensures
        0 <= count_dirty(s) <= s.len(),
    decreases s.len(),
{
    if s.len() > 0 {
        lemma_count_dirty_bounds(s.drop_last());
    }
}

/// A pass that never lowers a dirty flag never lowers the dirty count.
pub proof fn lemma_count_dirty_monotone(a: Seq<Tile>, b: Seq<Tile>)
    requires
        a.len() == b.len(),
        forall|i: int| 0 <= i < a.len() ==> ((#[trigger] a[i]).dirty ==> b[i].dirty),
    ensures
        count_dirty(a) <= count_dirty(b),
    decreases a.len(),
{
    if a.len() > 0 {
        assert forall|i: int|
            0 <= i < a.drop_last().len() implies ((#[trigger] a.drop_last()[i]).dirty
            ==> b.drop_last()[i].dirty) by {
            assert(a.drop_last()[i] == a[i]);
            assert(b.drop_last()[i] == b[i]);
        }
        lemma_count_dirty_monotone(a.drop_last(), b.drop_last());
        assert(a.last() == a[a.len() - 1]);
        assert(b.last() == b[b.len() - 1]);
    }
}

/// Extending a prefix by one tile raises the dirty count by one exactly when
/// that tile is dirty.
pub proof fn lemma_count_dirty_step(s: Seq<Tile>, i: int)
    requires
        0 <= i < s.len(),
    ensures
        count_dirty(s.take(i + 1)) == count_dirty(s.take(i)) + if s[i].dirty {
            1int
        } else {
            0int
        },
{
    assert(s.take(i + 1).drop_last() =~= s.take(i));
    assert(s.take(i + 1).last() == s[i]);
}

/// Draw every dirty tile of the console into the frame buffer and count them.
/// Clean tiles cost nothing: their pixels are left exactly as they were, so a
/// frame's cost is proportional to the number of changed tiles.
pub fn draw_frame(con: &Console, atlas: &Bitmap, fb: &mut Bitmap) -> (drawn: usize)
    requires
        con.wf(),
        atlas_wf(*atlas),
        old(fb).wf(),
        fb_matches(*old(fb), *con),
    ensures
        final(fb).wf(),
        final(fb).width == old(fb).width,
        final(fb).height == old(fb).height,
        drawn as int == count_dirty(con.tiles@),
        forall|px: int, py: int|
            0 <= px < old(fb).width && 0 <= py < old(fb).height ==> final(fb).spec_pixel(px, py)
                == if con.tiles@[owner_index(*con, px, py)].dirty {
                tile_pixel(*atlas, con.tiles@[owner_index(*con, px, py)], px, py)
            } else {
                old(fb).spec_pixel(px, py)
            },
{
    let n = con.tiles.len();
    let mut drawn: usize = 0;
    let mut i: usize = 0;
    while i < n
        invariant
            con.wf(),
            atlas_wf(*atlas),
            fb.wf(),
            fb.width == old(fb).width,
            fb.height == old(fb).height,
            fb_matches(*old(fb), *con),
            n == con.tiles@.len(),
            i <= n,
            drawn as int == count_dirty(con.tiles@.take(i as int)),
            forall|px: int, py: int|
                0 <= px < fb.width && 0 <= py < fb.height ==> fb.spec_pixel(px, py) == if
                    owner_index(*con, px, py) < i && con.tiles@[owner_index(*con, px, py)].dirty {
                    tile_pixel(*atlas, con.tiles@[owner_index(*con, px, py)], px, py)
                } else {
                    old(fb).spec_pixel(px, py)
                },
        decreases n - i,
    {
        let t = con.tiles[i];
        if t.dirty() {
            proof {
                lemma_count_dirty_bounds(con.tiles@.take(i as int));
                vstd::arithmetic::div_mod::lemma_mod_division_less_than_divisor(
                    i as int,
                    con.width as int,
                );
                assert(t.row as int == i as int % con.width as int);
                assert(t.col as int == i as int / con.width as int);
                assert(0 <= (i as int) / (con.width as int) < con.height as int)
                    by (nonlinear_arith)
                    requires
                        0 <= (i as int) < con.width as int * con.height as int,
                        1 <= con.width as int,
                ;
            }
            draw_tile(fb, atlas, &t);
            drawn = drawn + 1;
        }
        proof {
            lemma_count_dirty_step(con.tiles@, i as int);
            assert forall|px: int, py: int|
                0 <= px < fb.width && 0 <= py < fb.height implies fb.spec_pixel(px, py) == if
                owner_index(*con, px, py) < i + 1 && con.tiles@[owner_index(*con, px, py)].dirty {
                tile_pixel(*atlas, con.tiles@[owner_index(*con, px, py)], px, py)
            } else {
                old(fb).spec_pixel(px, py)
            } by {
                lemma_owner_characterises(*con, px, py, i as int);
            }
        }
        i = i + 1;
    }
    proof {
        assert(con.tiles@.take(n as int) =~= con.tiles@);
        assert(1 <= con.width as int * con.height as int) by (nonlinear_arith)
            requires
                1 <= con.width as int,
                1 <= con.height as int,
        ;
        assert forall|px: int, py: int|
            0 <= px < old(fb).width && 0 <= py < old(fb).height implies fb.spec_pixel(px, py)
            == if con.tiles@[owner_index(*con, px, py)].dirty {
            tile_pixel(*atlas, con.tiles@[owner_index(*con, px, py)], px, py)
        } else {
            old(fb).spec_pixel(px, py)
        } by {
            lemma_owner_characterises(*con, px, py, 0);
        }
    }
    drawn
}

} // verus!
