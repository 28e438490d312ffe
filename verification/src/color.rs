use vstd::prelude::*;

verus! {

/// One pixel colour: red, green, blue and alpha channels.
#[derive(Clone, Copy, PartialEq, Eq, Structural, Debug)]
pub struct Rgba {
    pub r: u8,
    pub g: u8,
    pub b: u8,
    pub a: u8,
}

impl Rgba {
    pub fn rgba(r: u8, g: u8, b: u8, a: u8) -> (c: Rgba)
        ensures
            c == (Rgba { r, g, b, a }),
    {
        Rgba { r, g, b, a }
    }
}

/// One colour channel scaled by a modulation channel, as a fraction of 255.
pub open spec fn tint_channel(c: u8, m: u8) -> u8 {
    ((c as int * m as int) / 255) as u8
}

/// A glyph pixel with each colour channel modulated by the foreground colour;
/// the alpha channel is kept.
pub open spec fn tinted(p: Rgba, fg: Rgba) -> Rgba {
    Rgba {
        r: tint_channel(p.r, fg.r),
        g: tint_channel(p.g, fg.g),
        b: tint_channel(p.b, fg.b),
        a: p.a,
    }
}

/// One channel of a source colour composited over a destination channel,
/// weighted by the source alpha `a`.
pub open spec fn over_channel(s: u8, a: u8, d: u8) -> u8 {
    ((s as int * a as int + d as int * (255 - a as int)) / 255) as u8
}

/// A source colour composited over an opaque destination colour; the result is
/// opaque.
pub open spec fn composited(s: Rgba, d: Rgba) -> Rgba {
    Rgba {
        r: over_channel(s.r, s.a, d.r),
        g: over_channel(s.g, s.a, d.g),
        b: over_channel(s.b, s.a, d.b),
        a: 255,
    }
}

/// The colour a glyph pixel leaves in the frame buffer: the atlas pixel tinted
/// by the tile's foreground colour, composited over the tile's background.
pub open spec fn rendered_pixel(glyph_px: Rgba, fg: Rgba, bg: Rgba) -> Rgba {
    composited(tinted(glyph_px, fg), bg)
}

fn tint_channel_exec(c: u8, m: u8) -> (t: u8)
    ensures
        t == tint_channel(c, m),
{
    proof {
        assert(c as int * m as int <= 255 * 255) by (nonlinear_arith)
            requires
                0 <= c as int <= 255,
                0 <= m as int <= 255,
        ;
    }
    let prod: u32 = c as u32 * m as u32;
    let q: u32 = prod / 255;
    assert(q <= 255);
    q as u8
}

fn over_channel_exec(s: u8, a: u8, d: u8) -> (o: u8)
    ensures
        o == over_channel(s, a, d),
{
    proof {
        assert(s as int * a as int + d as int * (255 - a as int) <= 255 * 255) by (nonlinear_arith)
            requires
                0 <= s as int <= 255,
                0 <= a as int <= 255,
                0 <= d as int <= 255,
        ;
    }
    let num: u32 = s as u32 * a as u32 + d as u32 * (255 - a as u32);
    let q: u32 = num / 255;
    assert(q <= 255);
    q as u8
}

/// The exact colour that compositing one glyph pixel over a tile background
/// produces in the frame buffer.
pub fn shade(glyph_px: Rgba, fg: Rgba, bg: Rgba) -> (p: Rgba)
    ensures
        p == rendered_pixel(glyph_px, fg, bg),
{
    let tr = tint_channel_exec(glyph_px.r, fg.r);
    let tg = tint_channel_exec(glyph_px.g, fg.g);
    let tb = tint_channel_exec(glyph_px.b, fg.b);
    let ta = glyph_px.a;
    Rgba {
        r: over_channel_exec(tr, ta, bg.r),
        g: over_channel_exec(tg, ta, bg.g),
        b: over_channel_exec(tb, ta, bg.b),
        a: 255,
    }
}

} // verus!
