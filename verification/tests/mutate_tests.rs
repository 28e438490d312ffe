use glyph_console::console::Console;
use glyph_console::mutate::{apply_random_mutation, mutate_tile};
use glyph_console::tile::Tile;

#[test]
fn no_trigger_means_no_change() {
    let mut c = Console::new(4, 3);
    c.reset_tiles();
    let before = c.tiles().clone();
    apply_random_mutation(&mut c, false);
    assert_eq!(*c.tiles(), before);
}

#[test]
fn mutation_keeps_positions_and_darkens_backgrounds() {
    let mut c = Console::new(10, 10);
    c.reset_tiles();
    let before = c.tiles().clone();
    for _ in 0..50 {
        apply_random_mutation(&mut c, true);
    }
    for (o, n) in before.iter().zip(c.tiles().iter()) {
        assert_eq!((o.row, o.col), (n.row, n.col));
        let untouched = Tile { dirty: n.dirty, ..*o };
        if *n != untouched {
            assert!(n.dirty());
            assert_eq!(n.foreground.a, 255);
            assert_eq!(n.background.a, 255);
            assert!(n.background.r < 32);
            assert!(n.background.g < 32);
            assert!(n.background.b < 32);
        }
    }
}

#[test]
fn mutate_tile_reduces_the_rolls() {
    let mut c = Console::new(2, 1);
    c.reset_tiles();
    let t = *c.tile_mut(1, 0).unwrap();
    let n = mutate_tile(t, 300, 1, 2, 3, 40, 70, 200);
    assert_eq!((n.row, n.col), (1, 0));
    assert_eq!(n.glyph, (300 % 256) as u8);
    assert_eq!((n.foreground.r, n.foreground.g, n.foreground.b, n.foreground.a), (1, 2, 3, 255));
    assert_eq!((n.background.r, n.background.g, n.background.b, n.background.a), (40 % 32, 70 % 32, 200 % 32, 255));
    assert!(n.dirty());
}

#[test]
fn single_tile_mutates_about_one_in_ten() {
    // On a one-tile grid, each triggered pass rewrites the tile with
    // probability 1/10. Over 10,000 passes the hit frequency stays within a
    // wide statistical tolerance of 10%.
    let mut c = Console::new(1, 1);
    let runs = 10_000;
    let mut hits = 0u32;
    for _ in 0..runs {
        c.reset_tiles();
        apply_random_mutation(&mut c, true);
        if c.tiles()[0].dirty() {
            hits += 1;
        }
    }
    assert!(hits >= 700, "hit count {hits} far below the expected 1000");
    assert!(hits <= 1300, "hit count {hits} far above the expected 1000");
}
