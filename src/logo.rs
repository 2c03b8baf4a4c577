//! Logo compositor: the raster path composites a decoded, resized logo over
//! the centre of the image; the SVG path embeds the logo as a data URI.

use vstd::prelude::*;
use vstd::arithmetic::div_mod::lemma_fundamental_div_mod_converse;

use crate::blend::{
    alpha_blend, is_inside_rounded_rect, round_div, sat_sub, spec_alpha_blend,
    spec_inside_rounded_rect,
};
use crate::raster::{encode_png, png_encoding, png_signature, Canvas};
use crate::style::RenderError;

verus! {

/// Where the logo and the box behind it go on an image, in pixels.
#[derive(Clone, Copy, Debug, PartialEq, Eq, Structural)]
pub struct LogoLayout {
    pub logo_w: u64,
    pub logo_h: u64,
    pub box_w: u64,
    pub box_h: u64,
    pub box_x: u64,
    pub box_y: u64,
    pub logo_x: u64,
    pub logo_y: u64,
    pub corner: u64,
}

/// Logo size as a percentage of the image side, held to the range 5 to 40.
pub open spec fn clamp_pct(pct: int) -> int {
    if pct < 5 {
        5
    } else if pct > 40 {
        40
    } else {
        pct
    }
}

pub open spec fn min(a: int, b: int) -> int {
    if a <= b {
        a
    } else {
        b
    }
}

pub open spec fn max(a: int, b: int) -> int {
    if a >= b {
        a
    } else {
        b
    }
}

/// The logo's larger side, in pixels: `pct` percent of the smaller image side.
pub open spec fn logo_target(w: int, h: int, pct: int) -> int {
    min(w, h) * clamp_pct(pct) / 100
}

/// Size of the scaled logo: its larger side becomes the target, the other
/// side keeps the aspect ratio (rounded); an empty logo stays empty.
pub open spec fn logo_dims(lw: int, lh: int, target: int) -> (int, int) {
    if lw == 0 || lh == 0 {
        (0, 0)
    } else if lw >= lh {
        (target, round_div(lh * target, lw))
    } else {
        (round_div(lw * target, lh), target)
    }
}

/// A padding of 15% of the logo's larger side surrounds it; the padded box,
/// with corners rounded to 15% of its smaller side, is centred on the image,
/// as is the logo.
pub open spec fn layout_around(w: int, h: int, nw: int, nh: int) -> LogoLayout {
    let pad = round_div(3 * max(nw, nh), 20);
    let bw = nw + 2 * pad;
    let bh = nh + 2 * pad;
    LogoLayout {
        logo_w: nw as u64,
        logo_h: nh as u64,
        box_w: bw as u64,
        box_h: bh as u64,
        box_x: (sat_sub(w, bw) / 2) as u64,
        box_y: (sat_sub(h, bh) / 2) as u64,
        logo_x: (sat_sub(w, nw) / 2) as u64,
        logo_y: (sat_sub(h, nh) / 2) as u64,
        corner: round_div(3 * min(bw, bh), 20) as u64,
    }
}

/// Placement of a `lw` by `lh` logo at `pct` percent on a `w` by `h` image.
pub open spec fn spec_logo_layout(w: int, h: int, lw: int, lh: int, pct: int) -> LogoLayout {
    let d = logo_dims(lw, lh, logo_target(w, h, pct));
    layout_around(w, h, d.0, d.1)
}

fn scaled_side(a: u64, b: u64, target: u64) -> (r: u64)
    requires
        0 < b <= u32::MAX,
        a <= b,
        target <= u32::MAX,
    ensures
        r == round_div(a * target, b as int),
        r <= target,
{
    assert(a * target <= b * target) by (nonlinear_arith)
        requires
            a <= b,
            0 <= target,
    ;
    assert(a * target <= 0x1_0000_0000 * 0x1_0000_0000) by (nonlinear_arith)
        requires
            a * target <= b * target,
            b <= 0xffff_ffff,
            target <= 0xffff_ffff,
            0 <= a,
    ;
    let num: u128 = a as u128 * target as u128;
    let r = (2 * num + b as u128) / (2 * b as u128);
    assert(r <= target) by (nonlinear_arith)
        requires
            r == (2 * num + b) / (2 * b),
            num <= b * target,
            b > 0,
    ;
    r as u64
}

fn target_exec(w: u32, h: u32, pct: u8) -> (r: u64)
    ensures
        r == logo_target(w as int, h as int, pct as int),
        5 * r <= 2 * u32::MAX,
{
    let qs: u64 = if w <= h { w as u64 } else { h as u64 };
    let p: u64 = if pct < 5 { 5 } else if pct > 40 { 40 } else { pct as u64 };
    assert(qs * p <= qs * 40) by (nonlinear_arith)
        requires
            p <= 40,
            0 <= qs,
    ;
    let r = qs * p / 100;
    assert(5 * r <= 2 * qs) by (nonlinear_arith)
        requires
            r == qs * p / 100,
            qs * p <= qs * 40,
            0 <= qs,
    ;
    r
}

fn dims_exec(lw: u32, lh: u32, target: u64) -> (r: (u64, u64))
    requires
        target <= u32::MAX,
    ensures
        r.0 == logo_dims(lw as int, lh as int, target as int).0,
        r.1 == logo_dims(lw as int, lh as int, target as int).1,
        r.0 <= target,
        r.1 <= target,
{
    if lw == 0 || lh == 0 {
        (0, 0)
    } else if lw >= lh {
        (target, scaled_side(lh as u64, lw as u64, target))
    } else {
        (scaled_side(lw as u64, lh as u64, target), target)
    }
}

fn layout_exec(w: u32, h: u32, nw: u64, nh: u64) -> (r: LogoLayout)
    requires
        5 * nw <= 2 * u32::MAX,
        5 * nh <= 2 * u32::MAX,
    ensures
        r == layout_around(w as int, h as int, nw as int, nh as int),
        r.box_w <= u32::MAX,
        r.box_h <= u32::MAX,
        r.corner <= u32::MAX,
{
    let big = if nw >= nh { nw } else { nh };
    let pad = (6 * big + 20) / 40;
    let bw = nw + 2 * pad;
    let bh = nh + 2 * pad;
    let small = if bw <= bh { bw } else { bh };
    LogoLayout {
        logo_w: nw,
        logo_h: nh,
        box_w: bw,
        box_h: bh,
        box_x: (if w as u64 > bw { w as u64 - bw } else { 0 }) / 2,
        box_y: (if h as u64 > bh { h as u64 - bh } else { 0 }) / 2,
        logo_x: (if w as u64 > nw { w as u64 - nw } else { 0 }) / 2,
        logo_y: (if h as u64 > nh { h as u64 - nh } else { 0 }) / 2,
        corner: (6 * small + 20) / 40,
    }
}

/// Computes the placement of a logo of `lw` by `lh` pixels on a `w` by `h` image.
pub fn logo_layout(w: u32, h: u32, lw: u32, lh: u32, pct: u8) -> (r: LogoLayout)
    ensures
        r == spec_logo_layout(w as int, h as int, lw as int, lh as int, pct as int),
        r.logo_w <= u32::MAX,
        r.logo_h <= u32::MAX,
        r.box_w <= u32::MAX,
        r.box_h <= u32::MAX,
        r.corner <= u32::MAX,
{
    let target = target_exec(w, h, pct);
    let (nw, nh) = dims_exec(lw, lh, target);
    layout_exec(w, h, nw, nh)
}

/// The RGBA bytes of pixel (`x`, `y`) of a row-major image `w` pixels wide.
pub open spec fn pixel_at(px: Seq<u8>, w: int, x: int, y: int) -> Seq<u8> {
    px.subrange(4 * (y * w + x), 4 * (y * w + x) + 4)
}

/// Whether the pixel is covered by the rounded box behind the logo.
pub open spec fn in_box(l: LogoLayout, x: int, y: int) -> bool {
    &&& l.box_x <= x < l.box_x + l.box_w
    &&& l.box_y <= y < l.box_y + l.box_h
    &&& spec_inside_rounded_rect(x - l.box_x, y - l.box_y, l.box_w as int, l.box_h as int, l.corner as int)
}

/// Whether the pixel is covered by the logo.
pub open spec fn in_logo(l: LogoLayout, x: int, y: int) -> bool {
    &&& l.logo_x <= x < l.logo_x + l.logo_w
    &&& l.logo_y <= y < l.logo_y + l.logo_h
}

/// One pixel after the overlay: the box colour inside the box, then the logo
/// composited over whatever lies beneath it.
pub open spec fn composite_pixel(
    qr: Seq<u8>,
    w: int,
    logo: Seq<u8>,
    l: LogoLayout,
    bg: Seq<u8>,
    x: int,
    y: int,
) -> Seq<u8> {
    let under = if in_box(l, x, y) {
        bg
    } else {
        pixel_at(qr, w, x, y)
    };
    if in_logo(l, x, y) {
        spec_alpha_blend(under, pixel_at(logo, l.logo_w as int, x - l.logo_x, y - l.logo_y))
    } else {
        under
    }
}

/// The RGBA bytes of a `w` by `h` image after the overlay.
pub open spec fn spec_composite(qr: Seq<u8>, w: int, h: int, logo: Seq<u8>, l: LogoLayout, bg: Seq<u8>) -> Seq<u8> {
    Seq::new(
        (w * h * 4) as nat,
        |k: int| composite_pixel(qr, w, logo, l, bg, (k / 4) % w, (k / 4) / w)[k % 4],
    )
}

proof fn lemma_pixel_in_range(w: int, h: int, x: int, y: int)
    requires
        0 <= x < w,
        0 <= y < h,
    ensures
        0 <= 4 * (y * w + x),
        4 * (y * w + x) + 4 <= w * h * 4,
{
    assert(0 <= y * w + x && y * w + x + 1 <= w * h) by (nonlinear_arith)
        requires
            0 <= x < w,
            0 <= y < h,
    ;
}

/// Reads pixel (`x`, `y`) of an image.
pub fn read_pixel(c: &Canvas, x: u64, y: u64) -> (r: [u8; 4])
    requires
        c.wf(),
        x < c.width,
        y < c.height,
    ensures
        r@ == pixel_at(c.pixels@, c.width as int, x as int, y as int),
{
    proof {
        lemma_pixel_in_range(c.width as int, c.height as int, x as int, y as int);
    }
    let n = c.pixels.len();
    let i = (y as usize * c.width as usize + x as usize) * 4;
    let r = [c.pixels[i], c.pixels[i + 1], c.pixels[i + 2], c.pixels[i + 3]];
    assert(r@ =~= pixel_at(c.pixels@, c.width as int, x as int, y as int));
    r
}

fn composite_pixel_exec(qr: &Canvas, logo: &Canvas, l: &LogoLayout, bg: [u8; 4], x: u64, y: u64) -> (r: [u8; 4])
    requires
        qr.wf(),
        logo.wf(),
        logo.width == l.logo_w,
        logo.height == l.logo_h,
        l.box_w <= u32::MAX,
        l.box_h <= u32::MAX,
        l.corner <= u32::MAX,
        x < qr.width,
        y < qr.height,
    ensures
        r@ == composite_pixel(qr.pixels@, qr.width as int, logo.pixels@, *l, bg@, x as int, y as int),
{
    let boxed = l.box_x <= x && x - l.box_x < l.box_w && l.box_y <= y && y - l.box_y < l.box_h
        && is_inside_rounded_rect(
        (x - l.box_x) as u32,
        (y - l.box_y) as u32,
        l.box_w as u32,
        l.box_h as u32,
        l.corner as u32,
    );
    let under = if boxed {
        bg
    } else {
        read_pixel(qr, x, y)
    };
    if l.logo_x <= x && x - l.logo_x < l.logo_w && l.logo_y <= y && y - l.logo_y < l.logo_h {
        alpha_blend(under, read_pixel(logo, x - l.logo_x, y - l.logo_y))
    } else {
        under
    }
}

/// Paints the box and composites the already scaled logo onto the image.
pub fn composite_logo(qr: &Canvas, logo: &Canvas, l: &LogoLayout, bg: [u8; 4]) -> (r: Canvas)
    requires
        qr.wf(),
        logo.wf(),
        logo.width == l.logo_w,
        logo.height == l.logo_h,
        l.box_w <= u32::MAX,
        l.box_h <= u32::MAX,
        l.corner <= u32::MAX,
    ensures
        r.wf(),
        r.width == qr.width,
        r.height == qr.height,
        r.pixels@ == spec_composite(qr.pixels@, qr.width as int, qr.height as int, logo.pixels@, *l, bg@),
{
    let w = qr.width as u64;
    let h = qr.height as u64;
    let ghost gw = w as int;
    let ghost gh = h as int;
    let ghost target = spec_composite(qr.pixels@, gw, gh, logo.pixels@, *l, bg@);
    let n = qr.pixels.len();
    assert(target.len() == gw * gh * 4);
    let mut px: Vec<u8> = Vec::new();
    let mut y: u64 = 0;
    while y < h
        invariant
            qr.wf(),
            logo.wf(),
            logo.width == l.logo_w,
            logo.height == l.logo_h,
            l.box_w <= u32::MAX,
            l.box_h <= u32::MAX,
            l.corner <= u32::MAX,
            w == qr.width,
            h == qr.height,
            gw == w,
            gh == h,
            n == gw * gh * 4,
            target == spec_composite(qr.pixels@, gw, gh, logo.pixels@, *l, bg@),
            target.len() == gw * gh * 4,
            y <= h,
            px@.len() == y * gw * 4,
            forall|k: int| 0 <= k < px@.len() ==> px@[k] == target[k],
        decreases h - y,
    {
        let mut x: u64 = 0;
        while x < w
            invariant
                qr.wf(),
                logo.wf(),
                logo.width == l.logo_w,
                logo.height == l.logo_h,
                l.box_w <= u32::MAX,
                l.box_h <= u32::MAX,
                l.corner <= u32::MAX,
                w == qr.width,
                h == qr.height,
                gw == w,
                gh == h,
                n == gw * gh * 4,
                target == spec_composite(qr.pixels@, gw, gh, logo.pixels@, *l, bg@),
                target.len() == gw * gh * 4,
                y < h,
                x <= w,
                px@.len() == (y * gw + x) * 4,
                forall|k: int| 0 <= k < px@.len() ==> px@[k] == target[k],
            decreases w - x,
        {
            let c = composite_pixel_exec(qr, logo, l, bg, x, y);
            proof {
                assert((y * gw + x) * 4 + 4 <= gw * gh * 4) by (nonlinear_arith)
                    requires
                        0 <= x < gw,
                        0 <= y < gh,
                ;
                assert forall|j: int| 0 <= j < 4 implies target[(y * gw + x) * 4 + j] == c@[j] by {
                    lemma_fundamental_div_mod_converse((y * gw + x) * 4 + j, 4, y * gw + x, j);
                    lemma_fundamental_div_mod_converse(y * gw + x, gw, y as int, x as int);
                }
            }
            let ghost base = px@.len();
            px.push(c[0]);
            px.push(c[1]);
            px.push(c[2]);
            px.push(c[3]);
            proof {
                assert(px@.len() == (y * gw + x + 1) * 4) by (nonlinear_arith)
                    requires
                        px@.len() == base + 4,
                        base == (y * gw + x) * 4,
                ;
            }
            x += 1;
        }
        proof {
            assert(y * gw + gw == (y + 1) * gw) by (nonlinear_arith);
        }
        y += 1;
    }
    assert(gh * gw * 4 == gw * gh * 4) by (nonlinear_arith);
    assert(px@ =~= target);
    Canvas { width: qr.width, height: qr.height, pixels: px }
}

/// The image that the decoder reads from these bytes, as width, height and
/// RGBA bytes, or `None` when the bytes are no image it recognises.
pub uninterp spec fn decoded_rgba(bytes: Seq<u8>) -> Option<(nat, nat, Seq<u8>)>;

/// Relies on image's `load_from_memory` (format guessed from the bytes) and
/// `DynamicImage::to_rgba8`, whose buffer holds four bytes per pixel.
#[verifier::external_body]
pub(crate) fn decode_image(bytes: &[u8]) -> (r: Option<Canvas>)
    ensures
        match r {
            Some(c) => {
                &&& c.wf()
                &&& decoded_rgba(bytes@) == Some((c.width as nat, c.height as nat, c.pixels@))
            },
            None => decoded_rgba(bytes@) is None,
        },
{
    let img = image::load_from_memory(bytes).ok()?.to_rgba8();
    let (width, height) = img.dimensions();
    Some(Canvas { width, height, pixels: img.into_raw() })
}

/// The RGBA bytes of an image resampled to `nw` by `nh` pixels.
pub uninterp spec fn resized_rgba(w: nat, h: nat, rgba: Seq<u8>, nw: nat, nh: nat) -> Seq<u8>;

/// Relies on image's `imageops::resize` with the Lanczos3 filter, which
/// returns an image of exactly the requested size.
#[verifier::external_body]
fn resize_image(src: &Canvas, nw: u32, nh: u32) -> (r: Canvas)
    requires
        src.wf(),
        src.width > 0,
        src.height > 0,
        nw > 0,
        nh > 0,
    ensures
        r.wf(),
        r.width == nw,
        r.height == nh,
        r.pixels@ == resized_rgba(src.width as nat, src.height as nat, src.pixels@, nw as nat, nh as nat),
{
    let img: image::RgbaImage = image::ImageBuffer::from_raw(src.width, src.height, src.pixels.clone()).unwrap();
    let out = image::imageops::resize(&img, nw, nh, image::imageops::FilterType::Lanczos3);
    Canvas { width: nw, height: nh, pixels: out.into_raw() }
}

/// The scaled logo's pixels; nothing when the layout leaves it no area.
pub open spec fn scaled_logo(lw: nat, lh: nat, lpx: Seq<u8>, l: LogoLayout) -> Seq<u8> {
    if l.logo_w > 0 && l.logo_h > 0 {
        resized_rgba(lw, lh, lpx, l.logo_w as nat, l.logo_h as nat)
    } else {
        Seq::empty()
    }
}

/// The image after overlaying a (decoded, not yet scaled) logo.
pub open spec fn spec_overlay(w: nat, h: nat, px: Seq<u8>, lw: nat, lh: nat, lpx: Seq<u8>, pct: u8, bg: Seq<u8>) -> Seq<u8> {
    let l = spec_logo_layout(w as int, h as int, lw as int, lh as int, pct as int);
    spec_composite(px, w as int, h as int, scaled_logo(lw, lh, lpx, l), l, bg)
}

/// Scales the logo and composites it, on a box of colour `bg`, over the centre of the image.
pub fn overlay_logo(qr: &Canvas, logo: &Canvas, logo_pct: u8, bg: [u8; 4]) -> (r: Canvas)
    requires
        qr.wf(),
        logo.wf(),
    ensures
        r.wf(),
        r.width == qr.width,
        r.height == qr.height,
        r.pixels@ == spec_overlay(
            qr.width as nat,
            qr.height as nat,
            qr.pixels@,
            logo.width as nat,
            logo.height as nat,
            logo.pixels@,
            logo_pct,
            bg@,
        ),
{
    let l = logo_layout(qr.width, qr.height, logo.width, logo.height, logo_pct);
    let scaled = if l.logo_w > 0 && l.logo_h > 0 {
        resize_image(logo, l.logo_w as u32, l.logo_h as u32)
    } else {
        Canvas { width: l.logo_w as u32, height: l.logo_h as u32, pixels: Vec::new() }
    };
    proof {
        if !(l.logo_w > 0 && l.logo_h > 0) {
            assert(scaled.pixels@ =~= scaled_logo(logo.width as nat, logo.height as nat, logo.pixels@, l));
            assert(l.logo_w * l.logo_h * 4 == 0) by (nonlinear_arith)
                requires
                    l.logo_w == 0 || l.logo_h == 0,
            ;
        }
    }
    composite_logo(qr, &scaled, &l, bg)
}

/// What overlaying a logo on a PNG yields: the decoded image with the logo
/// composited, PNG-encoded, or the error that stops it.
pub open spec fn spec_overlay_logo_png(qr_png: Seq<u8>, logo_data: Seq<u8>, pct: u8, bg: Seq<u8>) -> Result<Seq<u8>, RenderError> {
    match decoded_rgba(qr_png) {
        None => Err(RenderError::EncodingFailed),
        Some((w, h, px)) => match decoded_rgba(logo_data) {
            None => Err(RenderError::LogoDecodeFailed),
            Some((lw, lh, lpx)) => match png_encoding(w, h, spec_overlay(w, h, px, lw, lh, lpx, pct, bg)) {
                Some(b) => Ok(b),
                None => Err(RenderError::EncodingFailed),
            },
        },
    }
}

/// Overlays a logo (raw image bytes) at the centre of a PNG image.
pub fn overlay_logo_png(qr_png: &[u8], logo_data: &[u8], logo_pct: u8, bg_color: [u8; 4]) -> (r: Result<Vec<u8>, RenderError>)
    ensures
        match r {
            Ok(b) => spec_overlay_logo_png(qr_png@, logo_data@, logo_pct, bg_color@) == Ok::<Seq<u8>, RenderError>(b@)
                && b@.subrange(0, 8) == png_signature(),
            Err(e) => spec_overlay_logo_png(qr_png@, logo_data@, logo_pct, bg_color@) == Err::<Seq<u8>, RenderError>(e),
        },
{
    let qr = match decode_image(qr_png) {
        Some(c) => c,
        None => return Err(RenderError::EncodingFailed),
    };
    let logo = match decode_image(logo_data) {
        Some(c) => c,
        None => return Err(RenderError::LogoDecodeFailed),
    };
    let out = overlay_logo(&qr, &logo, logo_pct, bg_color);
    match encode_png(out.width, out.height, out.pixels) {
        Some(b) => Ok(b),
        None => Err(RenderError::EncodingFailed),
    }
}

} // verus!
