use vstd::prelude::*;

use crate::color::Rgba;
use crate::console::Console;
use crate::tile::Tile;

verus! {

/// Relies on rand::random: an independently sampled value of the type.
/// Nothing is assumed about which value comes back.
pub assume_specification<T>[ rand::random::<T> ]() -> (r: T)
    where
        rand::distributions::Standard: rand::distributions::Distribution<T>,
;

/// How one mutation pass may leave a tile: the grid position is kept, and the
/// tile is either untouched or rewritten with its dirty flag raised, an opaque
/// foreground and a dark opaque background.
pub open spec fn mutation_step(o: Tile, n: Tile) -> bool {
    &&& n.row == o.row
    &&& n.col == o.col
    &&& (n == o || (n.dirty && n.foreground.a == 255 && n.background.a == 255 && n.background.r
        < 32 && n.background.g < 32 && n.background.b < 32))
}

/// Rewrite one tile from random draws: the glyph roll reduced to the glyph
/// range, a full-range opaque foreground, each background channel reduced to
/// the dark range. The grid position is kept and the dirty flag raised.
pub fn mutate_tile(t: Tile, glyph_roll: u32, f_r: u8, f_g: u8, f_b: u8, b_r: u8, b_g: u8, b_b: u8) -> (n: Tile)
    ensures
        n.row == t.row,
        n.col == t.col,
        n.glyph as int == glyph_roll as int % 256,
        n.foreground == (Rgba { r: f_r, g: f_g, b: f_b, a: 255 }),
        n.background == (Rgba {
            r: (b_r as int % 32) as u8,
            g: (b_g as int % 32) as u8,
            b: (b_b as int % 32) as u8,
            a: 255,
        }),
        n.dirty,
        mutation_step(t, n),
{
    Tile {
        row: t.row,
        col: t.col,
        glyph: (glyph_roll % 256) as u8,
        foreground: Rgba { r: f_r, g: f_g, b: f_b, a: 255 },
        background: Rgba { r: b_r % 32, g: b_g % 32, b: b_b % 32, a: 255 },
        dirty: true,
    }
}

/// Stochastically rewrite tiles: a no-op without the trigger; with it, each
/// tile is considered independently and, when its trigger roll lands, is
/// rewritten with a fresh glyph and colours and marked dirty. Every other
/// tile is left untouched, and no tile moves.
pub fn apply_random_mutation(con: &mut Console, trigger: bool)
    requires
        old(con).wf(),
    ensures
        final(con).wf(),
        final(con).width == old(con).width,
        final(con).height == old(con).height,
        final(con).tiles@.len() == old(con).tiles@.len(),
        forall|i: int|
            0 <= i < old(con).tiles@.len() ==> mutation_step(
                old(con).tiles@[i],
                #[trigger] final(con).tiles@[i],
            ),
        !trigger ==> final(con).tiles@ == old(con).tiles@,
{
    if !trigger {
        return ;
    }
    let n = con.tiles.len();
    let mut i: usize = 0;
    while i < n
        invariant
            old(con).wf(),
            n == con.tiles@.len(),
            i <= n,
            con.width == old(con).width,
            con.height == old(con).height,
            con.tiles@.len() == old(con).tiles@.len(),
            forall|j: int|
                0 <= j < i ==> mutation_step(old(con).tiles@[j], #[trigger] con.tiles@[j]),
            forall|j: int| i <= j < n ==> con.tiles@[j] == old(con).tiles@[j],
        decreases n - i,
    {
        let roll: u32 = rand::random::<u32>();
        if roll % 10 == 0 {
            let t = con.tiles[i];
            let nt = mutate_tile(
                t,
                rand::random::<u32>(),
                rand::random::<u8>(),
                rand::random::<u8>(),
                rand::random::<u8>(),
                rand::random::<u8>(),
                rand::random::<u8>(),
                rand::random::<u8>(),
            );
            con.tiles[i] = nt;
        }
        i = i + 1;
    }
    proof {
        assert forall|k: int| 0 <= k < con.tiles@.len() implies (#[trigger] con.tiles@[k]).row
            as int == k % (con.width as int) && con.tiles@[k].col as int == k / (
        con.width as int) by {
            assert(mutation_step(old(con).tiles@[k], con.tiles@[k]));
        }
    }
}

} // verus!
