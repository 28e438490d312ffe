use vstd::prelude::*;

use crate::bitmap::Bitmap;
use crate::console::clear_all;
use crate::console::Console;
use crate::mutate::apply_random_mutation;
use crate::mutate::mutation_step;
use crate::render::atlas_wf;
use crate::render::count_dirty;
use crate::render::draw_frame;
use crate::render::fb_matches;
use crate::render::lemma_count_dirty_bounds;
use crate::render::lemma_count_dirty_monotone;
use crate::render::lemma_owner_characterises;
use crate::render::owner_index;
use crate::render::tile_pixel;
use crate::tile::cleared;
use crate::tile::Tile;

verus! {

/// How one whole frame may leave a tile: the grid position is kept, the dirty
/// flag ends lowered, and the visual attributes either survive untouched or
/// were rewritten by the mutation pass with an opaque foreground and a dark
/// opaque background.
pub open spec fn frame_step(o: Tile, n: Tile) -> bool {
    &&& n.row == o.row
    &&& n.col == o.col
    &&& !n.dirty
    &&& (n == cleared(o) || (n.foreground.a == 255 && n.background.a == 255 && n.background.r < 32
        && n.background.g < 32 && n.background.b < 32))
}

/// One frame of the pipeline after input polling: run the mutation pass when
/// requested, draw every tile that is dirty after it, then lower all dirty
/// flags — strictly in that order, so no redraw is ever dropped. Every tile
/// dirty at entry stays dirty through the mutation pass and so is drawn: its
/// cell ends showing the rendering of the tile that now owns it, and the
/// count covers at least the entry dirty set. Every other pixel either keeps
/// its colour or shows its owning tile's rendering; without a mutation pass
/// the frame's effect is exactly the dirty tiles of entry redrawn and
/// counted.
pub fn run_frame(con: &mut Console, atlas: &Bitmap, fb: &mut Bitmap, randomize: bool) -> (drawn:
    usize)
    requires
        old(con).wf(),
        atlas_wf(*atlas),
        old(fb).wf(),
        fb_matches(*old(fb), *old(con)),
    ensures
        final(con).wf(),
        final(con).width == old(con).width,
        final(con).height == old(con).height,
        final(con).tiles@.len() == old(con).tiles@.len(),
        final(fb).wf(),
        final(fb).width == old(fb).width,
        final(fb).height == old(fb).height,
        drawn as int <= old(con).tiles@.len(),
        drawn as int >= count_dirty(old(con).tiles@),
        forall|i: int|
            0 <= i < old(con).tiles@.len() ==> frame_step(
                old(con).tiles@[i],
                #[trigger] final(con).tiles@[i],
            ),
        forall|px: int, py: int|
            0 <= px < old(fb).width && 0 <= py < old(fb).height ==> final(fb).spec_pixel(px, py)
                == old(fb).spec_pixel(px, py) || final(fb).spec_pixel(px, py) == tile_pixel(
                *atlas,
                final(con).tiles@[owner_index(*old(con), px, py)],
                px,
                py,
            ),
        forall|px: int, py: int|
            0 <= px < old(fb).width && 0 <= py < old(fb).height && old(con).tiles@[owner_index(
                *old(con),
                px,
                py,
            )].dirty ==> final(fb).spec_pixel(px, py) == tile_pixel(
                *atlas,
                final(con).tiles@[owner_index(*old(con), px, py)],
                px,
                py,
            ),
        !randomize ==> {
            &&& final(con).tiles@ == clear_all(old(con).tiles@)
            &&& drawn as int == count_dirty(old(con).tiles@)
            &&& forall|px: int, py: int|
                0 <= px < old(fb).width && 0 <= py < old(fb).height
                    ==> final(fb).spec_pixel(px, py) == if old(con).tiles@[owner_index(
                    *old(con),
                    px,
                    py,
                )].dirty {
                    tile_pixel(*atlas, old(con).tiles@[owner_index(*old(con), px, py)], px, py)
                } else {
                    old(fb).spec_pixel(px, py)
                }
        },
{
    apply_random_mutation(con, randomize);
    let ghost mid = *con;
    let drawn = draw_frame(con, atlas, fb);
    con.reset_tiles();
    proof {
        lemma_count_dirty_bounds(mid.tiles@);
        assert forall|i: int|
            0 <= i < old(con).tiles@.len() implies ((#[trigger] old(con).tiles@[i]).dirty
            ==> mid.tiles@[i].dirty) by {
            assert(mutation_step(old(con).tiles@[i], mid.tiles@[i]));
        }
        lemma_count_dirty_monotone(old(con).tiles@, mid.tiles@);
        assert(1 <= mid.width as int * mid.height as int) by (nonlinear_arith)
            requires
                1 <= mid.width as int,
                1 <= mid.height as int,
        ;
        assert forall|i: int| 0 <= i < old(con).tiles@.len() implies frame_step(
            old(con).tiles@[i],
            #[trigger] con.tiles@[i],
        ) by {
            assert(mutation_step(old(con).tiles@[i], mid.tiles@[i]));
            assert(con.tiles@[i] == cleared(mid.tiles@[i]));
        }
        assert forall|px: int, py: int|
            0 <= px < old(fb).width && 0 <= py < old(fb).height implies fb.spec_pixel(px, py)
            == old(fb).spec_pixel(px, py) || fb.spec_pixel(px, py) == tile_pixel(
            *atlas,
            con.tiles@[owner_index(*old(con), px, py)],
            px,
            py,
        ) by {
            lemma_owner_characterises(mid, px, py, 0);
            let k = owner_index(mid, px, py);
            assert(owner_index(*old(con), px, py) == k);
            assert(con.tiles@[k] == cleared(mid.tiles@[k]));
            if mid.tiles@[k].dirty {
                assert(tile_pixel(*atlas, con.tiles@[k], px, py) == tile_pixel(
                    *atlas,
                    mid.tiles@[k],
                    px,
                    py,
                ));
            }
        }
        assert forall|px: int, py: int|
            0 <= px < old(fb).width && 0 <= py < old(fb).height && old(con).tiles@[owner_index(
                *old(con),
                px,
                py,
            )].dirty implies fb.spec_pixel(px, py) == tile_pixel(
            *atlas,
            con.tiles@[owner_index(*old(con), px, py)],
            px,
            py,
        ) by {
            lemma_owner_characterises(mid, px, py, 0);
            let k = owner_index(mid, px, py);
            assert(owner_index(*old(con), px, py) == k);
            assert(mutation_step(old(con).tiles@[k], mid.tiles@[k]));
            assert(mid.tiles@[k].dirty);
            assert(con.tiles@[k] == cleared(mid.tiles@[k]));
            assert(tile_pixel(*atlas, con.tiles@[k], px, py) == tile_pixel(
                *atlas,
                mid.tiles@[k],
                px,
                py,
            ));
        }
        if !randomize {
            assert(mid.tiles@ == old(con).tiles@);
            assert(con.tiles@ =~= clear_all(old(con).tiles@));
        }
    }
    drawn
}

} // verus!
