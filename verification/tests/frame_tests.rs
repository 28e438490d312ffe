use glyph_console::bitmap::Bitmap;
use glyph_console::color::Rgba;
use glyph_console::console::Console;
use glyph_console::frame::run_frame;
use glyph_console::state::derive_state;
use glyph_console::{ATLAS_COLS, ATLAS_ROWS, TILE_H, TILE_W};

fn white_atlas() -> Bitmap {
    Bitmap::new(
        ATLAS_COLS * TILE_W,
        ATLAS_ROWS * TILE_H,
        Rgba::rgba(255, 255, 255, 255),
    )
}

#[test]
fn first_frame_draws_everything_then_nothing() {
    let atlas = white_atlas();
    let mut c = Console::new(5, 4);
    let mut fb = Bitmap::new(5 * TILE_W, 4 * TILE_H, Rgba::rgba(0, 0, 0, 0));

    // A new console is fully dirty; the first frame draws the whole grid and
    // lowers every flag.
    assert_eq!(run_frame(&mut c, &atlas, &mut fb, false), 20);
    for t in c.tiles().iter() {
        assert!(!t.dirty());
    }

    // With nothing dirty and no mutation, the next frame draws nothing and
    // the frame buffer keeps every pixel.
    let snapshot: Vec<_> = (0..4 * TILE_H)
        .flat_map(|y| (0..5 * TILE_W).map(move |x| (x, y)))
        .map(|(x, y)| fb.pixel(x, y))
        .collect();
    assert_eq!(run_frame(&mut c, &atlas, &mut fb, false), 0);
    let after: Vec<_> = (0..4 * TILE_H)
        .flat_map(|y| (0..5 * TILE_W).map(move |x| (x, y)))
        .map(|(x, y)| fb.pixel(x, y))
        .collect();
    assert_eq!(snapshot, after);
}

#[test]
fn dirty_tiles_survive_until_drawn() {
    let atlas = white_atlas();
    let mut c = Console::new(3, 3);
    let mut fb = Bitmap::new(3 * TILE_W, 3 * TILE_H, Rgba::rgba(0, 0, 0, 0));
    run_frame(&mut c, &atlas, &mut fb, false);

    // Touch one tile; the next frame redraws exactly that one.
    let t = c.tile_mut(1, 2).unwrap();
    t.foreground = Rgba::rgba(0, 0, 255, 255);
    t.dirty = true;
    assert_eq!(run_frame(&mut c, &atlas, &mut fb, false), 1);
    assert!(!c.tiles().iter().any(|t| t.dirty()));
    assert_eq!(
        fb.pixel(TILE_W + 1, 2 * TILE_H + 1),
        Rgba::rgba(0, 0, 255, 255)
    );
    // A cell that was not redrawn keeps its earlier rendering (default red).
    assert_eq!(fb.pixel(0, 0), Rgba::rgba(255, 0, 0, 255));
}

#[test]
fn randomized_frame_ends_clean() {
    let atlas = white_atlas();
    let mut c = Console::new(4, 2);
    let mut fb = Bitmap::new(4 * TILE_W, 2 * TILE_H, Rgba::rgba(0, 0, 0, 0));
    for _ in 0..20 {
        run_frame(&mut c, &atlas, &mut fb, true);
        for t in c.tiles().iter() {
            assert!(!t.dirty());
            assert!(t.row < 4 && t.col < 2);
        }
    }
}

#[test]
fn derive_state_reads_the_keys() {
    let s = derive_state(false, false);
    assert!(!s.quit && !s.randomize);
    let s = derive_state(true, false);
    assert!(s.quit && !s.randomize);
    let s = derive_state(false, true);
    assert!(!s.quit && s.randomize);
    let s = derive_state(true, true);
    assert!(s.quit && s.randomize);
}
