//! Raster backend: paints the module matrix into an RGBA canvas and encodes it as PNG.

use vstd::prelude::*;
use vstd::string::*;
use vstd::arithmetic::div_mod::lemma_fundamental_div_mod_converse;

use crate::encode::{encode_text, qr_modules};
use crate::geometry::{
    corner_rounding, module_px, neighbors, output_px, spec_corner_rounding, spec_module_px,
    spec_neighbors, spec_output_px, CornerFlags, ModuleMatrix, Modules, QUIET_ZONE,
};
use crate::style::{QrOptions, QrStyle, RenderError};

verus! {

/// An RGBA image, row-major, four bytes per pixel.
pub struct Canvas {
    pub width: u32,
    pub height: u32,
    pub pixels: Vec<u8>,
}

impl Canvas {
    pub open spec fn wf(&self) -> bool {
        self.pixels@.len() == self.width * self.height * 4
    }
}

pub open spec fn sq(v: int) -> int {
    v * v
}

/// Corner radius times forty: `max(0.35 * module, 1)` scaled to stay integral.
pub open spec fn radius40(ms: int) -> int {
    if 14 * ms >= 40 {
        14 * ms
    } else {
        40
    }
}

/// Whether the pixel `a` columns and `b` rows away from a module corner lies in
/// that corner's square of side `radius` and outside the arc around it
/// (pixel centres, all lengths times forty).
pub open spec fn corner_cut(ms: int, a: int, b: int) -> bool {
    let r = radius40(ms);
    &&& 40 * a <= r
    &&& 40 * b <= r
    &&& sq(40 * a + 20 - r) + sq(40 * b + 20 - r) > sq(r)
}

/// Whether the pixel at (`dx`, `dy`) inside a dark module of side `ms` is painted.
/// `Dots` paints the inscribed disc (pixel centres, lengths doubled); `Rounded`
/// paints the block minus the cut-off part of each rounded corner.
pub open spec fn module_covers(style: QrStyle, c: CornerFlags, ms: int, dx: int, dy: int) -> bool {
    match style {
        QrStyle::Square => true,
        QrStyle::Dots => sq(2 * dx + 1 - ms) + sq(2 * dy + 1 - ms) <= sq(ms),
        QrStyle::Rounded => {
            &&& !(c.tl && corner_cut(ms, dx, dy))
            &&& !(c.tr && corner_cut(ms, ms - 1 - dx, dy))
            &&& !(c.bl && corner_cut(ms, dx, ms - 1 - dy))
            &&& !(c.br && corner_cut(ms, ms - 1 - dx, ms - 1 - dy))
        },
    }
}

/// Whether pixel (`ix`, `iy`) of the raster takes the foreground colour.
pub open spec fn raster_fg(m: Modules, style: QrStyle, ms: int, ix: int, iy: int) -> bool {
    let mx = ix / ms - QUIET_ZONE;
    let my = iy / ms - QUIET_ZONE;
    &&& m.is_dark(mx, my)
    &&& module_covers(
        style,
        spec_corner_rounding(style, spec_neighbors(m, mx, my)),
        ms,
        ix % ms,
        iy % ms,
    )
}

/// The RGBA bytes of the rendered raster.
pub open spec fn raster_rgba(m: Modules, o: QrOptions) -> Seq<u8> {
    let ms = spec_module_px(m.side as int, o.size as int);
    let w = spec_output_px(m.side as int, o.size as int);
    Seq::new(
        (w * w * 4) as nat,
        |k: int|
            if raster_fg(m, o.style, ms, (k / 4) % w, (k / 4) / w) {
                o.fg_color@[k % 4]
            } else {
                o.bg_color@[k % 4]
            },
    )
}

/// Whether a raster of this matrix and size fits in memory.
pub open spec fn raster_fits(side: int, size: int) -> bool {
    side <= u32::MAX && sq(spec_output_px(side, size)) * 4 <= usize::MAX
}

/// The first eight bytes of every PNG file.
pub open spec fn png_signature() -> Seq<u8> {
    seq![137u8, 80u8, 78u8, 71u8, 13u8, 10u8, 26u8, 10u8]
}

/// The PNG file that the image encoder writes for an RGBA image, or `None`
/// when it refuses it.
pub uninterp spec fn png_encoding(width: nat, height: nat, rgba: Seq<u8>) -> Option<Seq<u8>>;

/// Relies on image's `ImageBuffer::from_raw` and `write_to` with
/// `ImageFormat::Png`: the png encoder writes the PNG signature first.
#[verifier::external_body]
pub(crate) fn encode_png(width: u32, height: u32, rgba: Vec<u8>) -> (r: Option<Vec<u8>>)
    requires
        rgba@.len() == width * height * 4,
    ensures
        match r {
            Some(b) => {
                &&& png_encoding(width as nat, height as nat, rgba@) == Some(b@)
                &&& b@.len() >= 8
                &&& b@.subrange(0, 8) == png_signature()
            },
            None => png_encoding(width as nat, height as nat, rgba@) is None,
        },
{
    let img: image::RgbaImage = image::ImageBuffer::from_raw(width, height, rgba)?;
    let mut buf = std::io::Cursor::new(Vec::new());
    img.write_to(&mut buf, image::ImageFormat::Png).ok()?;
    Some(buf.into_inner())
}

proof fn lemma_pixel_index(w: int, ix: int, iy: int, j: int)
    requires
        0 <= ix < w,
        0 <= iy,
        0 <= j < 4,
    ensures
        ((iy * w + ix) * 4 + j) / 4 == iy * w + ix,
        ((iy * w + ix) * 4 + j) % 4 == j,
        (iy * w + ix) % w == ix,
        (iy * w + ix) / w == iy,
{
    lemma_fundamental_div_mod_converse((iy * w + ix) * 4 + j, 4, iy * w + ix, j);
    lemma_fundamental_div_mod_converse(iy * w + ix, w, iy, ix);
}

fn corner_cut_exec(ms: u64, a: u64, b: u64) -> (r: bool)
    requires
        1 <= ms <= u32::MAX,
        a < ms,
        b < ms,
    ensures
        r == corner_cut(ms as int, a as int, b as int),
{
    let r: i128 = if 14 * ms >= 40 {
        14 * ms as i128
    } else {
        40
    };
    let a40: i128 = 40 * a as i128;
    let b40: i128 = 40 * b as i128;
    if a40 <= r && b40 <= r {
        let p = a40 + 20 - r;
        let q = b40 + 20 - r;
        assert(0 <= p * p <= r * r && 0 <= q * q <= r * r && r * r < 0x1000_0000_0000_0000_0000_0000)
            by (nonlinear_arith)
            requires
                -r <= p <= 20,
                -r <= q <= 20,
                40 <= r <= 14 * 0x1_0000_0000,
        ;
        let pp = p * p;
        let qq = q * q;
        pp + qq > r * r
    } else {
        false
    }
}

/// Whether the pixel at (`dx`, `dy`) of a dark module is painted, given its corner flags.
pub fn module_covers_exec(style: QrStyle, c: CornerFlags, ms: u64, dx: u64, dy: u64) -> (r: bool)
    requires
        1 <= ms <= u32::MAX,
        dx < ms,
        dy < ms,
    ensures
        r == module_covers(style, c, ms as int, dx as int, dy as int),
{
    match style {
        QrStyle::Square => true,
        QrStyle::Dots => {
            let p: i128 = 2 * dx as i128 + 1 - ms as i128;
            let q: i128 = 2 * dy as i128 + 1 - ms as i128;
            let m: i128 = ms as i128;
            assert(0 <= p * p <= m * m && 0 <= q * q <= m * m && m * m <= 0x1_0000_0000_0000_0000)
                by (nonlinear_arith)
                requires
                    -m <= p <= m,
                    -m <= q <= m,
                    1 <= m <= 0x1_0000_0000,
            ;
            let pp = p * p;
            let qq = q * q;
            pp + qq <= m * m
        },
        QrStyle::Rounded => {
            !(c.tl && corner_cut_exec(ms, dx, dy)) && !(c.tr && corner_cut_exec(ms, ms - 1 - dx, dy))
                && !(c.bl && corner_cut_exec(ms, dx, ms - 1 - dy)) && !(c.br && corner_cut_exec(
                ms,
                ms - 1 - dx,
                ms - 1 - dy,
            ))
        },
    }
}

fn pixel_is_fg(m: &ModuleMatrix, style: QrStyle, ms: u64, ix: u64, iy: u64) -> (r: bool)
    requires
        m.wf(),
        m.side <= u32::MAX,
        1 <= ms <= u32::MAX,
    ensures
        r == raster_fg(m@, style, ms as int, ix as int, iy as int),
{
    let bx = ix / ms;
    let by = iy / ms;
    if bx < QUIET_ZONE || by < QUIET_ZONE {
        return false;
    }
    let mx = bx - QUIET_ZONE;
    let my = by - QUIET_ZONE;
    if mx >= m.side as u64 || my >= m.side as u64 {
        return false;
    }
    if !m.get(mx as usize, my as usize) {
        return false;
    }
    let c = corner_rounding(style, neighbors(m, mx as usize, my as usize));
    module_covers_exec(style, c, ms, ix % ms, iy % ms)
}

/// Paints the matrix: background everywhere, foreground on the covered pixels
/// of each dark module, the symbol offset by the quiet zone.
pub fn render_canvas(m: &ModuleMatrix, o: &QrOptions) -> (r: Canvas)
    requires
        m.wf(),
        raster_fits(m.side as int, o.size as int),
    ensures
        r.wf(),
        r.width == spec_output_px(m.side as int, o.size as int),
        r.height == r.width,
        r.pixels@ == raster_rgba(m@, *o),
{
    let ms = module_px(m.side as u64, o.size);
    let w = output_px(m.side as u64, o.size);
    let ghost gw = w as int;
    let ghost target = raster_rgba(m@, *o);
    assert(w <= u32::MAX) by (nonlinear_arith)
        requires
            (w as int) * (w as int) * 4 <= usize::MAX,
            usize::MAX <= u64::MAX,
    ;
    let mut px: Vec<u8> = Vec::new();
    let mut iy: u64 = 0;
    while iy < w
        invariant
            m.wf(),
            m.side <= u32::MAX,
            1 <= ms <= u32::MAX,
            ms == spec_module_px(m.side as int, o.size as int),
            w == gw,
            gw == spec_output_px(m.side as int, o.size as int),
            gw * gw * 4 <= usize::MAX,
            target == raster_rgba(m@, *o),
            target.len() == gw * gw * 4,
            iy <= w,
            px@.len() == iy * gw * 4,
            forall|k: int| 0 <= k < px@.len() ==> px@[k] == target[k],
        decreases w - iy,
    {
        let mut ix: u64 = 0;
        while ix < w
            invariant
                m.wf(),
                m.side <= u32::MAX,
                1 <= ms <= u32::MAX,
                ms == spec_module_px(m.side as int, o.size as int),
                w == gw,
                gw == spec_output_px(m.side as int, o.size as int),
                gw * gw * 4 <= usize::MAX,
                target == raster_rgba(m@, *o),
                target.len() == gw * gw * 4,
                iy < w,
                ix <= w,
                px@.len() == (iy * gw + ix) * 4,
                forall|k: int| 0 <= k < px@.len() ==> px@[k] == target[k],
            decreases w - ix,
        {
            let fg = pixel_is_fg(m, o.style, ms, ix, iy);
            let c = if fg {
                o.fg_color
            } else {
                o.bg_color
            };
            proof {
                assert((iy * gw + ix) * 4 + 4 <= gw * gw * 4) by (nonlinear_arith)
                    requires
                        0 <= ix < gw,
                        0 <= iy < gw,
                ;
                assert forall|j: int| 0 <= j < 4 implies target[(iy * gw + ix) * 4 + j] == c@[j] by {
                    lemma_pixel_index(gw, ix as int, iy as int, j);
                }
            }
            let ghost base = px@.len();
            px.push(c[0]);
            px.push(c[1]);
            px.push(c[2]);
            px.push(c[3]);
            proof {
                assert(px@.len() == (iy * gw + ix + 1) * 4) by (nonlinear_arith)
                    requires
                        px@.len() == base + 4,
                        base == (iy * gw + ix) * 4,
                ;
            }
            ix += 1;
        }
        proof {
            assert(iy * gw + gw == (iy + 1) * gw) by (nonlinear_arith);
        }
        iy += 1;
    }
    assert(px@ =~= target);
    Canvas { width: w as u32, height: w as u32, pixels: px }
}

/// Renders the matrix as PNG bytes.
pub fn render_png(m: &ModuleMatrix, o: &QrOptions) -> (r: Result<Vec<u8>, RenderError>)
    requires
        m.wf(),
        raster_fits(m.side as int, o.size as int),
    ensures
        match r {
            Ok(b) => {
                let w = spec_output_px(m.side as int, o.size as int) as nat;
                &&& png_encoding(w, w, raster_rgba(m@, *o)) == Some(b@)
                &&& b@.subrange(0, 8) == png_signature()
            },
            Err(e) => {
                let w = spec_output_px(m.side as int, o.size as int) as nat;
                &&& e == RenderError::EncodingFailed
                &&& png_encoding(w, w, raster_rgba(m@, *o)) is None
            },
        },
{
    let c = render_canvas(m, o);
    match encode_png(c.width, c.height, c.pixels) {
        Some(b) => Ok(b),
        None => Err(RenderError::EncodingFailed),
    }
}

/// What rendering the text as PNG yields: the encoder's matrix painted and
/// PNG-encoded, or the error that stops it.
pub open spec fn spec_generate_png(data: Seq<u8>, o: QrOptions) -> Result<Seq<u8>, RenderError> {
    match qr_modules(data, o.error_correction) {
        None => Err(RenderError::DataTooLong),
        Some((side, dark)) => {
            let w = spec_output_px(side as int, o.size as int) as nat;
            match png_encoding(w, w, raster_rgba(Modules { side, dark }, o)) {
                Some(b) => Ok(b),
                None => Err(RenderError::EncodingFailed),
            }
        },
    }
}

/// Encodes `data` and renders it as PNG bytes.
pub fn generate_png(data: &str, options: &QrOptions) -> (r: Result<Vec<u8>, RenderError>)
    requires
        options.size <= 32767,
    ensures
        match r {
            Ok(b) => spec_generate_png(data.spec_bytes(), *options) == Ok::<Seq<u8>, RenderError>(b@)
                && b@.subrange(0, 8) == png_signature(),
            Err(e) => spec_generate_png(data.spec_bytes(), *options) == Err::<Seq<u8>, RenderError>(e),
        },
{
    match encode_text(data, options.error_correction) {
        None => Err(RenderError::DataTooLong),
        Some(m) => {
            assert(raster_fits(m.side as int, options.size as int)) by {
                let w = spec_output_px(m.side as int, options.size as int);
                let ms = spec_module_px(m.side as int, options.size as int);
                assert(w <= 32767) by (nonlinear_arith)
                    requires
                        w == ms * (m.side + 8),
                        ms == 1 || ms == options.size as int / (m.side + 8),
                        options.size <= 32767,
                        m.side <= 177,
                ;
                assert(sq(w) * 4 <= 0xffff_ffff) by (nonlinear_arith)
                    requires
                        0 <= w <= 32767,
                ;
            }
            render_png(&m, options)
        },
    }
}

} // verus!
