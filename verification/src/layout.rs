use vstd::prelude::*;

use vstd::arithmetic::div_mod::lemma_div_is_ordered;
use vstd::arithmetic::div_mod::lemma_fundamental_div_mod_converse_div;

verus! {

/// Where the console frame buffer lands inside the window: offset and size.
#[derive(Clone, Copy, PartialEq, Eq, Structural, Debug)]
pub struct DestRect {
    pub x: i32,
    pub y: i32,
    pub w: u32,
    pub h: u32,
}

/// Whether the window is at least as wide, relative to the reference aspect,
/// as it is tall: the window height then binds the scaled size. Ties take
/// this branch.
pub open spec fn height_binding(win_w: u32, win_h: u32, ref_w: u32, ref_h: u32) -> bool {
    win_w as int * ref_h as int >= win_h as int * ref_w as int
}

/// `n / d` rounded to the nearest integer, halves up: `(2n + d) / (2d)`.
pub open spec fn div_round_nearest(n: int, d: int) -> int {
    (2 * n + d) / (2 * d)
}

/// The aspect-preserving destination rectangle for blitting the console frame
/// buffer onto a window of the given size: the binding axis fills the window,
/// the other is scaled by the reference aspect `(ref_w, ref_h)` rounded to the
/// nearest pixel and centred, letterboxing the rest on at most one axis. The
/// rectangle never leaves the window.
pub fn compute_dest_rect(win_w: u32, win_h: u32, ref_w: u32, ref_h: u32) -> (r: DestRect)
    requires
        1 <= ref_w,
        1 <= ref_h,
        win_w <= i32::MAX,
        win_h <= i32::MAX,
    ensures
        height_binding(win_w, win_h, ref_w, ref_h) ==> {
            &&& r.h == win_h
            &&& r.w as int == div_round_nearest(win_h as int * ref_w as int, ref_h as int)
            &&& r.y == 0
            &&& r.x == (win_w - r.w) as int / 2
        },
        !height_binding(win_w, win_h, ref_w, ref_h) ==> {
            &&& r.w == win_w
            &&& r.h as int == div_round_nearest(win_w as int * ref_h as int, ref_w as int)
            &&& r.x == 0
            &&& r.y == (win_h - r.h) as int / 2
        },
        0 <= r.x,
        0 <= r.y,
        r.x + r.w <= win_w,
        r.y + r.h <= win_h,
        r.x == 0 || r.y == 0,
{
    proof {
        assert(win_w as int * ref_h as int <= 0xffff_ffff * 0xffff_ffff) by (nonlinear_arith)
            requires
                0 <= win_w as int <= 0xffff_ffff,
                0 <= ref_h as int <= 0xffff_ffff,
        ;
        assert(win_h as int * ref_w as int <= 0xffff_ffff * 0xffff_ffff) by (nonlinear_arith)
            requires
                0 <= win_h as int <= 0xffff_ffff,
                0 <= ref_w as int <= 0xffff_ffff,
        ;
    }
    let cross_w: u128 = win_w as u128 * ref_h as u128;
    let cross_h: u128 = win_h as u128 * ref_w as u128;
    if cross_w >= cross_h {
        let num: u128 = 2 * cross_h + ref_h as u128;
        let den: u128 = 2 * ref_h as u128;
        let w128: u128 = num / den;
        proof {
            let b = win_w as int;
            let d = ref_h as int;
            assert(b * (2 * d) == 2 * (b * d)) by (nonlinear_arith);
            lemma_div_is_ordered(num as int, 2 * (b * d) + d, 2 * d);
            lemma_fundamental_div_mod_converse_div(b * (2 * d) + d, 2 * d, b, d);
            assert(w128 <= win_w);
        }
        let w: u32 = w128 as u32;
        let x: u32 = (win_w - w) / 2;
        DestRect { x: x as i32, y: 0, w, h: win_h }
    } else {
        let num: u128 = 2 * cross_w + ref_w as u128;
        let den: u128 = 2 * ref_w as u128;
        let h128: u128 = num / den;
        proof {
            let b = win_h as int;
            let d = ref_w as int;
            assert(b * (2 * d) == 2 * (b * d)) by (nonlinear_arith);
            lemma_div_is_ordered(num as int, 2 * (b * d) + d, 2 * d);
            lemma_fundamental_div_mod_converse_div(b * (2 * d) + d, 2 * d, b, d);
            assert(h128 <= win_h);
        }
        let h: u32 = h128 as u32;
        let y: u32 = (win_h - h) / 2;
        DestRect { x: 0, y: y as i32, w: win_w, h }
    }
}

} // verus!
