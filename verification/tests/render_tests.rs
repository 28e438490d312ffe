use glyph_console::atlas::{glyph_src, locate};
use glyph_console::bitmap::Bitmap;
use glyph_console::color::{shade, Rgba};
use glyph_console::console::Console;
use glyph_console::render::{draw_frame, draw_tile};
use glyph_console::{ATLAS_COLS, ATLAS_ROWS, TILE_H, TILE_W};

fn white_atlas() -> Bitmap {
    Bitmap::new(
        ATLAS_COLS * TILE_W,
        ATLAS_ROWS * TILE_H,
        Rgba::rgba(255, 255, 255, 255),
    )
}

#[test]
fn locate_maps_the_code_page_grid() {
    assert_eq!(locate(0), (0, 0));
    assert_eq!(locate(1), (1, 0));
    assert_eq!(locate(16), (0, 1));
    assert_eq!(locate(63), (15, 3));
    assert_eq!(locate(255), (15, 15));
    assert_eq!(glyph_src(17), (TILE_W, TILE_H));
    assert_eq!(glyph_src(255), (15 * TILE_W, 15 * TILE_H));
}

#[test]
fn shade_is_tint_then_composite() {
    // Tinting scales each channel by fg/255; compositing weights by alpha.
    let fg = Rgba::rgba(255, 255, 255, 255);
    let bg = Rgba::rgba(10, 20, 30, 255);
    let px = Rgba::rgba(100, 200, 50, 128);
    let out = shade(px, fg, bg);
    assert_eq!(out, Rgba::rgba(55, 110, 40, 255));

    // A fully opaque glyph pixel hides the background entirely.
    let opaque = shade(Rgba::rgba(7, 8, 9, 255), fg, bg);
    assert_eq!(opaque, Rgba::rgba(7, 8, 9, 255));

    // A fully transparent glyph pixel leaves only the background, opaque.
    let clear = shade(Rgba::rgba(7, 8, 9, 0), fg, bg);
    assert_eq!(clear, Rgba::rgba(10, 20, 30, 255));
}

#[test]
fn bitmap_set_and_get() {
    let mut b = Bitmap::new(8, 4, Rgba::rgba(1, 2, 3, 4));
    assert_eq!(b.pixel(7, 3), Rgba::rgba(1, 2, 3, 4));
    b.set_pixel(5, 2, Rgba::rgba(9, 9, 9, 9));
    assert_eq!(b.pixel(5, 2), Rgba::rgba(9, 9, 9, 9));
    assert_eq!(b.pixel(5, 1), Rgba::rgba(1, 2, 3, 4));
    assert_eq!(b.pixel(4, 2), Rgba::rgba(1, 2, 3, 4));
}

#[test]
fn draw_tile_paints_only_its_cell() {
    let atlas = white_atlas();
    let back = Rgba::rgba(0, 0, 0, 0);
    let mut c = Console::new(3, 2);
    let mut fb = Bitmap::new(3 * TILE_W, 2 * TILE_H, back);
    let t = *c.tile_mut(1, 1).unwrap();
    draw_tile(&mut fb, &atlas, &t);
    // Default tiles: white atlas tinted red over a blue background; alpha 255
    // everywhere, so the cell is pure red.
    for py in 0..2 * TILE_H {
        for px in 0..3 * TILE_W {
            let inside = px >= TILE_W && px < 2 * TILE_W && py >= TILE_H;
            if inside {
                assert_eq!(fb.pixel(px, py), Rgba::rgba(255, 0, 0, 255));
            } else {
                assert_eq!(fb.pixel(px, py), back);
            }
        }
    }
}

#[test]
fn draw_frame_draws_exactly_the_dirty_tiles() {
    let atlas = white_atlas();
    let back = Rgba::rgba(0, 0, 0, 0);
    let mut c = Console::new(3, 2);
    let mut fb = Bitmap::new(3 * TILE_W, 2 * TILE_H, back);

    // A fresh console is fully dirty: the first frame draws the whole grid.
    assert_eq!(draw_frame(&c, &atlas, &mut fb), 6);
    c.reset_tiles();
    assert_eq!(draw_frame(&c, &atlas, &mut fb), 0);

    // Mark exactly two tiles dirty: exactly two cells are repainted.
    let mut fb2 = Bitmap::new(3 * TILE_W, 2 * TILE_H, back);
    c.tile_mut(0, 0).unwrap().dirty = true;
    let t = c.tile_mut(2, 1).unwrap();
    t.dirty = true;
    t.foreground = Rgba::rgba(0, 255, 0, 255);
    assert_eq!(draw_frame(&c, &atlas, &mut fb2), 2);
    for py in 0..2 * TILE_H {
        for px in 0..3 * TILE_W {
            let in_first = px < TILE_W && py < TILE_H;
            let in_second = px >= 2 * TILE_W && py >= TILE_H;
            if in_first {
                assert_eq!(fb2.pixel(px, py), Rgba::rgba(255, 0, 0, 255));
            } else if in_second {
                assert_eq!(fb2.pixel(px, py), Rgba::rgba(0, 255, 0, 255));
            } else {
                // Clean tiles are skipped: their pixels are untouched.
                assert_eq!(fb2.pixel(px, py), back);
            }
        }
    }
}
