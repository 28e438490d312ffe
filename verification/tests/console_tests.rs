use glyph_console::console::Console;
use glyph_console::tile::DEFAULT_GLYPH;

#[test]
fn new_starts_all_dirty() {
    let c = Console::new(4, 3);
    assert_eq!(c.width(), 4);
    assert_eq!(c.height(), 3);
    assert_eq!(c.tiles().len(), 12);
    for t in c.tiles().iter() {
        assert!(t.dirty());
        assert_eq!(t.glyph, DEFAULT_GLYPH);
        assert_eq!(t.foreground.r, 255);
        assert_eq!(t.foreground.a, 255);
        assert_eq!(t.background.b, 255);
    }
}

#[test]
fn tiles_are_row_major() {
    let c = Console::new(4, 3);
    for y in 0..3u32 {
        for x in 0..4u32 {
            let t = &c.tiles()[(x + y * 4) as usize];
            assert_eq!(t.row, x);
            assert_eq!(t.col, y);
        }
    }
}

#[test]
fn tile_mut_defined_inside_bounds() {
    let mut c = Console::new(4, 3);
    for y in 0..3u32 {
        for x in 0..4u32 {
            let t = c.tile_mut(x, y).expect("in-bounds tile");
            assert_eq!((t.row, t.col), (x, y));
        }
    }
}

#[test]
fn tile_mut_none_outside_bounds() {
    let mut c = Console::new(4, 3);
    assert!(c.tile_mut(4, 0).is_none());
    assert!(c.tile_mut(0, 3).is_none());
    assert!(c.tile_mut(4, 3).is_none());
    assert!(c.tile_mut(1000, 1000).is_none());
}

#[test]
fn tile_mut_edits_one_tile() {
    let mut c = Console::new(4, 3);
    c.reset_tiles();
    {
        let t = c.tile_mut(2, 1).unwrap();
        t.glyph = 65;
        t.dirty = true;
    }
    for (i, t) in c.tiles().iter().enumerate() {
        if i == (2 + 1 * 4) as usize {
            assert_eq!(t.glyph, 65);
            assert!(t.dirty());
        } else {
            assert_eq!(t.glyph, DEFAULT_GLYPH);
            assert!(!t.dirty());
        }
    }
}

#[test]
fn reset_tiles_clears_all() {
    let mut c = Console::new(5, 4);
    c.reset_tiles();
    for t in c.tiles().iter() {
        assert!(!t.dirty());
    }
}

#[test]
fn reset_tiles_twice_is_idempotent() {
    let mut c = Console::new(5, 4);
    let before = c.tiles().clone();
    c.reset_tiles();
    let once = c.tiles().clone();
    for t in once.iter() {
        assert!(!t.dirty());
    }
    c.reset_tiles();
    let twice = c.tiles().clone();
    assert_eq!(once, twice);
    for (o, n) in before.iter().zip(twice.iter()) {
        assert_eq!((o.row, o.col, o.glyph), (n.row, n.col, n.glyph));
        assert_eq!(o.foreground, n.foreground);
        assert_eq!(o.background, n.background);
    }
}

#[test]
fn tiles_mut_gives_the_grid() {
    let mut c = Console::new(2, 2);
    let ts = c.tiles_mut();
    assert_eq!(ts.len(), 4);
    ts[3].glyph = 7;
    assert_eq!(c.tiles()[3].glyph, 7);
}
