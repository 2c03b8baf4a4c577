//! Source-over alpha compositing and the rounded-box test, in exact integer arithmetic.

use vstd::prelude::*;
use vstd::arithmetic::div_mod::lemma_fundamental_div_mod_converse;

verus! {

/// `a / b` rounded to the nearest integer, halves upward.
pub open spec fn round_div(a: int, b: int) -> int {
    (2 * a + b) / (2 * b)
}

/// Alpha of a source-over blend, times 255 squared.
pub open spec fn blend_den(bg: Seq<u8>, fg: Seq<u8>) -> int {
    255 * fg[3] + bg[3] * (255 - fg[3])
}

/// One colour channel of a source-over blend, times the blend alpha.
pub open spec fn blend_num(bg: Seq<u8>, fg: Seq<u8>, c: int) -> int {
    fg[c] * fg[3] * 255 + bg[c] * bg[3] * (255 - fg[3])
}

/// Source-over compositing of `fg` onto `bg` (RGBA, straight alpha):
/// `out_a = fa + ba (1 - fa)`, `out_c = (fc fa + bc ba (1 - fa)) / out_a`,
/// each rounded to the nearest byte; a fully transparent result is transparent black.
pub open spec fn spec_alpha_blend(bg: Seq<u8>, fg: Seq<u8>) -> Seq<u8> {
    let den = blend_den(bg, fg);
    if den == 0 {
        seq![0u8, 0u8, 0u8, 0u8]
    } else {
        seq![
            round_div(blend_num(bg, fg, 0), den) as u8,
            round_div(blend_num(bg, fg, 1), den) as u8,
            round_div(blend_num(bg, fg, 2), den) as u8,
            round_div(den, 255) as u8,
        ]
    }
}

fn blend_channel(bc: u8, ba: u8, fc: u8, fa: u8, den: u64) -> (r: u8)
    requires
        den == 255 * fa + ba * (255 - fa),
        den > 0,
    ensures
        r == round_div(fc * fa * 255 + bc * ba * (255 - fa), den as int),
{
    assert(fc * fa <= 255 * 255 && bc * ba <= 255 * 255 && fc * fa * 255 <= 255 * 255 * 255
        && bc * ba * (255 - fa) <= 255 * 255 * 255 && ba * (255 - fa) <= 255 * 255) by (nonlinear_arith)
        requires
            fc <= 255,
            bc <= 255,
            fa <= 255,
            ba <= 255,
    ;
    let num: u64 = fc as u64 * fa as u64 * 255 + bc as u64 * ba as u64 * (255 - fa as u64);
    assert(num <= 255 * den) by (nonlinear_arith)
        requires
            num == fc * fa * 255 + bc * ba * (255 - fa),
            den == 255 * fa + ba * (255 - fa),
            fc <= 255,
            bc <= 255,
            fa <= 255,
            ba <= 255,
    ;
    let q = (2 * num + den) / (2 * den);
    assert(q <= 255) by (nonlinear_arith)
        requires
            q == (2 * num + den) / (2 * den),
            num <= 255 * den,
            den > 0,
    ;
    q as u8
}

/// Composites the pixel `fg` over the pixel `bg`.
pub fn alpha_blend(bg: [u8; 4], fg: [u8; 4]) -> (r: [u8; 4])
    ensures
        r@ == spec_alpha_blend(bg@, fg@),
{
    let fa = fg[3];
    let ba = bg[3];
    assert(ba * (255 - fa) <= 255 * 255 && 255 * fa + ba * (255 - fa) <= 255 * 255) by (nonlinear_arith)
        requires
            fa <= 255,
            ba <= 255,
    ;
    let den: u64 = 255 * fa as u64 + ba as u64 * (255 - fa as u64);
    if den == 0 {
        let r = [0u8, 0u8, 0u8, 0u8];
        assert(r@ =~= spec_alpha_blend(bg@, fg@));
        return r;
    }
    let r = [
        blend_channel(bg[0], ba, fg[0], fa, den),
        blend_channel(bg[1], ba, fg[1], fa, den),
        blend_channel(bg[2], ba, fg[2], fa, den),
        ((2 * den + 255) / 510) as u8,
    ];
    assert(r@ =~= spec_alpha_blend(bg@, fg@));
    r
}

/// Compositing a fully opaque pixel over any pixel yields that pixel.
pub proof fn lemma_blend_opaque(bg: Seq<u8>, fg: Seq<u8>)
    requires
        bg.len() == 4,
        fg.len() == 4,
        fg[3] == 255,
    ensures
        spec_alpha_blend(bg, fg) == fg,
{
    let den = blend_den(bg, fg);
    assert(den == 255 * 255);
    assert forall|c: int| 0 <= c < 3 implies round_div(blend_num(bg, fg, c), den) == fg[c] by {
        assert(blend_num(bg, fg, c) == fg[c] * 255 * 255);
        assert(2 * (fg[c] * 255 * 255) + 255 * 255 == fg[c] * (2 * 255 * 255) + 255 * 255) by (nonlinear_arith);
        lemma_fundamental_div_mod_converse(2 * (fg[c] * 255 * 255) + 255 * 255, 2 * 255 * 255 as int, fg[c] as int, 255 * 255 as int);
    }
    lemma_fundamental_div_mod_converse(2 * (255 * 255) + 255 as int, 2 * 255 as int, 255 as int, 255 as int);
    assert(spec_alpha_blend(bg, fg) =~= fg);
}

/// Compositing a fully transparent pixel over a pixel that is not itself fully
/// transparent leaves that pixel unchanged.
pub proof fn lemma_blend_transparent(bg: Seq<u8>, fg: Seq<u8>)
    requires
        bg.len() == 4,
        fg.len() == 4,
        fg[3] == 0,
        bg[3] > 0,
    ensures
        spec_alpha_blend(bg, fg) == bg,
{
    let den = blend_den(bg, fg);
    let ba = bg[3] as int;
    assert(den == ba * 255);
    assert forall|c: int| 0 <= c < 3 implies round_div(blend_num(bg, fg, c), den) == bg[c] by {
        assert(blend_num(bg, fg, c) == bg[c] * ba * 255);
        assert(2 * (bg[c] * ba * 255) + ba * 255 == bg[c] * (2 * (ba * 255)) + ba * 255) by (nonlinear_arith);
        lemma_fundamental_div_mod_converse(2 * (bg[c] * ba * 255) + ba * 255, 2 * (ba * 255), bg[c] as int, ba * 255);
    }
    assert(2 * (ba * 255) + 255 == ba * (2 * 255) + 255) by (nonlinear_arith);
    lemma_fundamental_div_mod_converse(2 * (ba * 255) + 255, 2 * 255 as int, ba, 255 as int);
    assert(spec_alpha_blend(bg, fg) =~= bg);
}

pub open spec fn sat_sub(a: int, b: int) -> int {
    if a > b {
        a - b
    } else {
        0
    }
}

/// Whether the point leaves the rounded corner at (`cx`, `cy`) intact: it is
/// outside that corner's square, or within distance `r` of its centre.
pub open spec fn corner_keeps(x: int, y: int, w: int, h: int, r: int, cx: int, cy: int) -> bool {
    let in_x = if cx <= r { x < r } else { x > sat_sub(w, r + 1) };
    let in_y = if cy <= r { y < r } else { y > sat_sub(h, r + 1) };
    !(in_x && in_y) || (x - cx) * (x - cx) + (y - cy) * (y - cy) <= r * r
}

/// Whether (`x`, `y`) lies inside a `w` by `h` box whose corners are rounded with radius `r`.
pub open spec fn spec_inside_rounded_rect(x: int, y: int, w: int, h: int, r: int) -> bool {
    &&& corner_keeps(x, y, w, h, r, r, r)
    &&& corner_keeps(x, y, w, h, r, sat_sub(w, r + 1), r)
    &&& corner_keeps(x, y, w, h, r, r, sat_sub(h, r + 1))
    &&& corner_keeps(x, y, w, h, r, sat_sub(w, r + 1), sat_sub(h, r + 1))
}

fn corner_keeps_exec(x: u64, y: u64, w: u64, h: u64, r: u64, cx: u64, cy: u64) -> (b: bool)
    requires
        x <= u32::MAX,
        y <= u32::MAX,
        r <= u32::MAX,
        cx <= u32::MAX,
        cy <= u32::MAX,
        w <= u32::MAX,
        h <= u32::MAX,
    ensures
        b == corner_keeps(x as int, y as int, w as int, h as int, r as int, cx as int, cy as int),
{
    let wr = if w > r + 1 { w - (r + 1) } else { 0 };
    let hr = if h > r + 1 { h - (r + 1) } else { 0 };
    let in_x = if cx <= r { x < r } else { x > wr };
    let in_y = if cy <= r { y < r } else { y > hr };
    if !(in_x && in_y) {
        return true;
    }
    let dx: i128 = x as i128 - cx as i128;
    let dy: i128 = y as i128 - cy as i128;
    let rr: i128 = r as i128;
    assert(0 <= dx * dx <= 0x1_0000_0000_0000_0000 && 0 <= dy * dy <= 0x1_0000_0000_0000_0000
        && 0 <= rr * rr <= 0x1_0000_0000_0000_0000) by (nonlinear_arith)
        requires
            -0x1_0000_0000 <= dx <= 0x1_0000_0000,
            -0x1_0000_0000 <= dy <= 0x1_0000_0000,
            0 <= rr <= 0x1_0000_0000,
    ;
    let ddx = dx * dx;
    let ddy = dy * dy;
    ddx + ddy <= rr * rr
}

/// Whether (`x`, `y`) lies inside a `w` by `h` box with corners rounded to radius `r`.
pub fn is_inside_rounded_rect(x: u32, y: u32, w: u32, h: u32, r: u32) -> (b: bool)
    ensures
        b == spec_inside_rounded_rect(x as int, y as int, w as int, h as int, r as int),
{
    let (x, y, w, h, r) = (x as u64, y as u64, w as u64, h as u64, r as u64);
    let wr = if w > r + 1 { w - (r + 1) } else { 0 };
    let hr = if h > r + 1 { h - (r + 1) } else { 0 };
    corner_keeps_exec(x, y, w, h, r, r, r) && corner_keeps_exec(x, y, w, h, r, wr, r)
        && corner_keeps_exec(x, y, w, h, r, r, hr) && corner_keeps_exec(x, y, w, h, r, wr, hr)
}

} // verus!
