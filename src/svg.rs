//! SVG backend: the module matrix as an SVG document, with coordinates kept
//! exact as fractions of the requested size and written with two decimals.

use vstd::prelude::*;
use vstd::string::*;
use vstd::arithmetic::div_mod::lemma_fundamental_div_mod_converse;

use crate::encode::{encode_text, qr_modules};
use crate::geometry::{
    corner_rounding, neighbors, spec_corner_rounding, spec_neighbors, CornerFlags, ModuleMatrix,
    Modules,
};
use crate::style::{QrOptions, QrStyle, RenderError};
use crate::text::{
    dec, fixed2, hex_color, hex_color_string, hundredths, push_decimal, push_fixed2, push_str,
};

verus! {

/// A length of `n20` twentieths of a module, in pixels, written with two decimals.
/// One module is `size / total` pixels.
#[verifier::opaque]
pub open spec fn coord(n20: nat, size: nat, total: nat) -> Seq<char> {
    fixed2(hundredths(n20 * size, 20 * total))
}

/// `a,b` as a coordinate pair.
#[verifier::opaque]
pub open spec fn pair(a: nat, b: nat, size: nat, total: nat) -> Seq<char> {
    coord(a, size, total) + ","@ + coord(b, size, total)
}

/// Corner radius of a rounded module corner, in twentieths of a module (0.35).
pub open spec fn corner20(round: bool) -> nat {
    if round {
        7
    } else {
        0
    }
}

pub open spec fn rect_markup(x: nat, y: nat, w: nat, size: nat, total: nat, fill: Seq<char>) -> Seq<char> {
    "<rect x=\""@ + coord(x, size, total) + "\" y=\""@ + coord(y, size, total) + "\" width=\""@
        + coord(w, size, total) + "\" height=\""@ + coord(w, size, total) + "\" fill=\""@ + fill
        + "\"/>"@
}

pub open spec fn circle_markup(x: nat, y: nat, size: nat, total: nat, fill: Seq<char>) -> Seq<char> {
    "<circle cx=\""@ + coord(x + 10, size, total) + "\" cy=\""@ + coord(y + 10, size, total)
        + "\" r=\""@ + coord(10, size, total) + "\" fill=\""@ + fill + "\"/>"@
}

/// One side of a module outline: a straight edge to (`lx`, `ly`), then a
/// quadratic corner with control point (`qx`, `qy`) ending at (`ex`, `ey`).
#[verifier::opaque]
pub open spec fn path_side(
    lx: nat,
    ly: nat,
    qx: nat,
    qy: nat,
    ex: nat,
    ey: nat,
    size: nat,
    total: nat,
) -> Seq<char> {
    " L"@ + pair(lx, ly, size, total) + " Q"@ + pair(qx, qy, size, total) + " "@ + pair(ex, ey, size, total)
}

/// A module outline of four edges and four quadratic corners; a corner of
/// radius zero is a sharp corner.
pub open spec fn path_markup(
    x: nat,
    y: nat,
    c: CornerFlags,
    size: nat,
    total: nat,
    fill: Seq<char>,
) -> Seq<char> {
    let tl = corner20(c.tl);
    let tr = corner20(c.tr);
    let bl = corner20(c.bl);
    let br = corner20(c.br);
    "<path d=\"M"@ + pair(x + tl, y, size, total)
        + path_side((x + 20 - tr) as nat, y, x + 20, y, x + 20, y + tr, size, total)
        + path_side(x + 20, (y + 20 - br) as nat, x + 20, y + 20, (x + 20 - br) as nat, y + 20, size, total)
        + path_side(x + bl, y + 20, x, y + 20, x, (y + 20 - bl) as nat, size, total)
        + path_side(x, y + tl, x, y, x + tl, y, size, total)
        + " Z\" fill=\""@ + fill + "\"/>"@
}

/// The element drawn for the dark module at (`x`, `y`).
pub open spec fn shape_markup(m: Modules, o: QrOptions, x: int, y: int) -> Seq<char> {
    let total = (m.side + 8) as nat;
    let size = o.size as nat;
    let px = (20 * (x + 4)) as nat;
    let py = (20 * (y + 4)) as nat;
    let fill = hex_color(o.fg_color);
    match o.style {
        QrStyle::Square => rect_markup(px, py, 20, size, total, fill),
        QrStyle::Dots => circle_markup(px, py, size, total, fill),
        QrStyle::Rounded => {
            let c = spec_corner_rounding(QrStyle::Rounded, spec_neighbors(m, x, y));
            if !c.tl && !c.tr && !c.bl && !c.br {
                rect_markup(px, py, 20, size, total, fill)
            } else {
                path_markup(px, py, c, size, total, fill)
            }
        },
    }
}

/// The line for module number `i` in row-major order: its element, or nothing for a light module.
pub open spec fn module_markup(m: Modules, o: QrOptions, i: int) -> Seq<char> {
    let x = i % (m.side as int);
    let y = i / (m.side as int);
    if m.is_dark(x, y) {
        shape_markup(m, o, x, y) + "\n"@
    } else {
        Seq::empty()
    }
}

/// The lines of the first `n` modules.
pub open spec fn svg_body(m: Modules, o: QrOptions, n: nat) -> Seq<char>
    decreases n,
{
    if n == 0 {
        Seq::empty()
    } else {
        svg_body(m, o, (n - 1) as nat) + module_markup(m, o, n - 1)
    }
}

/// XML declaration, the opening `<svg>` tag and the background rectangle.
pub open spec fn svg_header(o: QrOptions) -> Seq<char> {
    let s = dec(o.size as nat);
    "<?xml version=\"1.0\" encoding=\"UTF-8\"?>\n<svg xmlns=\"http://www.w3.org/2000/svg\" viewBox=\"0 0 "@
        + s + " "@ + s + "\" width=\""@ + s + "\" height=\""@ + s + "\">\n<rect width=\""@ + s
        + "\" height=\""@ + s + "\" fill=\""@ + hex_color(o.bg_color) + "\"/>\n"@
}

/// The complete SVG document for a matrix.
pub open spec fn svg_document(m: Modules, o: QrOptions) -> Seq<char> {
    svg_header(o) + svg_body(m, o, m.side * m.side) + "</svg>"@
}

pub open spec fn svg_fits(side: int) -> bool {
    side <= u32::MAX
}

fn push_coord(s: &mut String, n20: u64, size: u32, total: u64)
    requires
        0 < total <= 0x2_0000_0000,
        n20 <= 0x40_0000_0000,
    ensures
        final(s)@ == old(s)@ + coord(n20 as nat, size as nat, total as nat),
{
    assert(n20 * size <= 0x40_0000_0000 * 0x1_0000_0000) by (nonlinear_arith)
        requires
            0 <= n20 <= 0x40_0000_0000,
            0 <= size <= 0xffff_ffff,
    ;
    let num: u128 = n20 as u128 * size as u128;
    let den: u128 = 20 * total as u128;
    push_fixed2(s, (200 * num + den) / (2 * den));
    proof {
        reveal(coord);
    }
}

fn push_pair(s: &mut String, a: u64, b: u64, size: u32, total: u64)
    requires
        0 < total <= 0x2_0000_0000,
        a <= 0x40_0000_0000,
        b <= 0x40_0000_0000,
    ensures
        final(s)@ == old(s)@ + pair(a as nat, b as nat, size as nat, total as nat),
{
    push_coord(s, a, size, total);
    push_str(s, ",");
    push_coord(s, b, size, total);
    reveal(pair);
    assert(final(s)@ =~= old(s)@ + pair(a as nat, b as nat, size as nat, total as nat));
}

fn push_rect(s: &mut String, x: u64, y: u64, w: u64, size: u32, total: u64, fill: &String)
    requires
        0 < total <= 0x2_0000_0000,
        x <= 0x40_0000_0000,
        y <= 0x40_0000_0000,
        w <= 0x40_0000_0000,
    ensures
        final(s)@ == old(s)@ + rect_markup(x as nat, y as nat, w as nat, size as nat, total as nat, fill@),
{
    push_str(s, "<rect x=\"");
    push_coord(s, x, size, total);
    push_str(s, "\" y=\"");
    push_coord(s, y, size, total);
    push_str(s, "\" width=\"");
    push_coord(s, w, size, total);
    push_str(s, "\" height=\"");
    push_coord(s, w, size, total);
    push_str(s, "\" fill=\"");
    push_str(s, fill.as_str());
    push_str(s, "\"/>");
    assert(final(s)@ =~= old(s)@ + rect_markup(x as nat, y as nat, w as nat, size as nat, total as nat, fill@));
}

fn push_circle(s: &mut String, x: u64, y: u64, size: u32, total: u64, fill: &String)
    requires
        0 < total <= 0x2_0000_0000,
        x <= 0x40_0000_0000 - 10,
        y <= 0x40_0000_0000 - 10,
    ensures
        final(s)@ == old(s)@ + circle_markup(x as nat, y as nat, size as nat, total as nat, fill@),
{
    push_str(s, "<circle cx=\"");
    push_coord(s, x + 10, size, total);
    push_str(s, "\" cy=\"");
    push_coord(s, y + 10, size, total);
    push_str(s, "\" r=\"");
    push_coord(s, 10, size, total);
    push_str(s, "\" fill=\"");
    push_str(s, fill.as_str());
    push_str(s, "\"/>");
    assert(final(s)@ =~= old(s)@ + circle_markup(x as nat, y as nat, size as nat, total as nat, fill@));
}

fn corner20_exec(round: bool) -> (r: u64)
    ensures
        r == corner20(round),
{
    if round {
        7
    } else {
        0
    }
}

fn push_side(s: &mut String, lx: u64, ly: u64, qx: u64, qy: u64, ex: u64, ey: u64, size: u32, total: u64)
    requires
        0 < total <= 0x2_0000_0000,
        lx <= 0x40_0000_0000,
        ly <= 0x40_0000_0000,
        qx <= 0x40_0000_0000,
        qy <= 0x40_0000_0000,
        ex <= 0x40_0000_0000,
        ey <= 0x40_0000_0000,
    ensures
        final(s)@ == old(s)@ + path_side(
            lx as nat,
            ly as nat,
            qx as nat,
            qy as nat,
            ex as nat,
            ey as nat,
            size as nat,
            total as nat,
        ),
{
    push_str(s, " L");
    push_pair(s, lx, ly, size, total);
    push_str(s, " Q");
    push_pair(s, qx, qy, size, total);
    push_str(s, " ");
    push_pair(s, ex, ey, size, total);
    reveal(path_side);
    assert(final(s)@ =~= old(s)@ + path_side(
        lx as nat,
        ly as nat,
        qx as nat,
        qy as nat,
        ex as nat,
        ey as nat,
        size as nat,
        total as nat,
    ));
}

#[verifier::rlimit(60)]
fn push_path(s: &mut String, x: u64, y: u64, c: CornerFlags, size: u32, total: u64, fill: &String)
    requires
        0 < total <= 0x2_0000_0000,
        x <= 0x40_0000_0000 - 20,
        y <= 0x40_0000_0000 - 20,
    ensures
        final(s)@ == old(s)@ + path_markup(x as nat, y as nat, c, size as nat, total as nat, fill@),
{
    let tl = corner20_exec(c.tl);
    let tr = corner20_exec(c.tr);
    let bl = corner20_exec(c.bl);
    let br = corner20_exec(c.br);
    let ghost s0 = s@;
    let ghost (gx, gy, gsz, gt) = (x as nat, y as nat, size as nat, total as nat);
    push_str(s, "<path d=\"M");
    push_pair(s, x + tl, y, size, total);
    let ghost head = "<path d=\"M"@ + pair((x + tl) as nat, gy, gsz, gt);
    assert(s@ =~= s0 + head);
    push_side(s, x + 20 - tr, y, x + 20, y, x + 20, y + tr, size, total);
    let ghost top = path_side((gx + 20 - tr) as nat, gy, gx + 20, gy, gx + 20, (gy + tr) as nat, gsz, gt);
    assert(s@ =~= s0 + (head + top));
    push_side(s, x + 20, y + 20 - br, x + 20, y + 20, x + 20 - br, y + 20, size, total);
    let ghost right = path_side(gx + 20, (gy + 20 - br) as nat, gx + 20, gy + 20, (gx + 20 - br) as nat, gy + 20, gsz, gt);
    assert(s@ =~= s0 + (head + top + right));
    push_side(s, x + bl, y + 20, x, y + 20, x, y + 20 - bl, size, total);
    let ghost bottom = path_side((gx + bl) as nat, gy + 20, gx, gy + 20, gx, (gy + 20 - bl) as nat, gsz, gt);
    assert(s@ =~= s0 + (head + top + right + bottom));
    push_side(s, x, y + tl, x, y, x + tl, y, size, total);
    let ghost left = path_side(gx, (gy + tl) as nat, gx, gy, (gx + tl) as nat, gy, gsz, gt);
    assert(s@ =~= s0 + (head + top + right + bottom + left));
    push_str(s, " Z\" fill=\"");
    push_str(s, fill.as_str());
    push_str(s, "\"/>");
    assert(s@ =~= s0 + (head + top + right + bottom + left + " Z\" fill=\""@ + fill@ + "\"/>"@));
    assert(final(s)@ =~= old(s)@ + path_markup(x as nat, y as nat, c, size as nat, total as nat, fill@));
}

fn push_header(s: &mut String, o: &QrOptions)
    ensures
        final(s)@ == old(s)@ + svg_header(*o),
{
    let size = o.size as u128;
    push_str(s, "<?xml version=\"1.0\" encoding=\"UTF-8\"?>\n<svg xmlns=\"http://www.w3.org/2000/svg\" viewBox=\"0 0 ");
    push_decimal(s, size);
    push_str(s, " ");
    push_decimal(s, size);
    push_str(s, "\" width=\"");
    push_decimal(s, size);
    push_str(s, "\" height=\"");
    push_decimal(s, size);
    push_str(s, "\">\n<rect width=\"");
    push_decimal(s, size);
    push_str(s, "\" height=\"");
    push_decimal(s, size);
    push_str(s, "\" fill=\"");
    let bg = hex_color_string(o.bg_color);
    push_str(s, bg.as_str());
    push_str(s, "\"/>\n");
    assert(final(s)@ =~= old(s)@ + svg_header(*o));
}

/// Appends the element of the dark module at (`x`, `y`).
fn push_shape(s: &mut String, m: &ModuleMatrix, o: &QrOptions, x: usize, y: usize, fill: &String)
    requires
        m.wf(),
        svg_fits(m.side as int),
        x < m.side,
        y < m.side,
        fill@ == hex_color(o.fg_color),
    ensures
        final(s)@ == old(s)@ + shape_markup(m@, *o, x as int, y as int),
{
    let total = m.side as u64 + 8;
    let px = 20 * (x as u64 + 4);
    let py = 20 * (y as u64 + 4);
    match o.style {
        QrStyle::Square => push_rect(s, px, py, 20, o.size, total, fill),
        QrStyle::Dots => push_circle(s, px, py, o.size, total, fill),
        QrStyle::Rounded => {
            let c = corner_rounding(QrStyle::Rounded, neighbors(m, x, y));
            if !c.tl && !c.tr && !c.bl && !c.br {
                push_rect(s, px, py, 20, o.size, total, fill)
            } else {
                push_path(s, px, py, c, o.size, total, fill)
            }
        },
    }
}

/// The document with `extra` markup placed after the modules, before the closing tag.
pub open spec fn svg_document_with(m: Modules, o: QrOptions, extra: Seq<char>) -> Seq<char> {
    svg_header(o) + svg_body(m, o, m.side * m.side) + extra + "</svg>"@
}

/// Appends the lines of all modules.
fn push_body(s: &mut String, m: &ModuleMatrix, o: &QrOptions)
    requires
        m.wf(),
        svg_fits(m.side as int),
    ensures
        final(s)@ == old(s)@ + svg_body(m@, *o, m@.side * m@.side),
{
    let fill = hex_color_string(o.fg_color);
    let ghost header = s@;
    let side = m.side;
    let ghost gs = side as int;
    let mut y: usize = 0;
    while y < side
        invariant
            m.wf(),
            svg_fits(m.side as int),
            side == m.side,
            gs == side,
            fill@ == hex_color(o.fg_color),
            y <= side,
            s@ == header + svg_body(m@, *o, (y * gs) as nat),
        decreases side - y,
    {
        let mut x: usize = 0;
        while x < side
            invariant
                m.wf(),
                svg_fits(m.side as int),
                side == m.side,
                gs == side,
                fill@ == hex_color(o.fg_color),
                y < side,
                x <= side,
                s@ == header + svg_body(m@, *o, (y * gs + x) as nat),
            decreases side - x,
        {
            proof {
                lemma_fundamental_div_mod_converse(y * gs + x, gs, y as int, x as int);
                assert(y * gs + x >= 0) by (nonlinear_arith)
                    requires
                        y >= 0,
                        gs >= 0,
                        x >= 0,
                ;
            }
            if m.get(x, y) {
                push_shape(s, m, o, x, y, &fill);
                push_str(s, "\n");
            }
            assert(s@ =~= header + svg_body(m@, *o, (y * gs + x + 1) as nat));
            x += 1;
        }
        assert(y * gs + gs == (y + 1) * gs) by (nonlinear_arith);
        y += 1;
    }
}

/// Renders the matrix as an SVG document with `extra` markup drawn over the modules.
pub fn render_svg_with(m: &ModuleMatrix, o: &QrOptions, extra: &str) -> (r: String)
    requires
        m.wf(),
        svg_fits(m.side as int),
    ensures
        r@ == svg_document_with(m@, *o, extra@),
{
    let mut s = String::new();
    push_header(&mut s, o);
    push_body(&mut s, m, o);
    push_str(&mut s, extra);
    push_str(&mut s, "</svg>");
    assert(s@ =~= svg_document_with(m@, *o, extra@));
    s
}

/// Renders the matrix as an SVG document of `size` pixels square.
pub fn render_svg(m: &ModuleMatrix, o: &QrOptions) -> (r: String)
    requires
        m.wf(),
        svg_fits(m.side as int),
    ensures
        r@ == svg_document(m@, *o),
{
    let mut s = String::new();
    push_header(&mut s, o);
    push_body(&mut s, m, o);
    push_str(&mut s, "</svg>");
    assert(s@ =~= svg_document(m@, *o));
    s
}

/// A line holding one element that closes itself: it opens with `<` and ends
/// with `/>` and a newline.
pub open spec fn self_closing_line(e: Seq<char>) -> bool {
    e.len() >= 4 && e[0] == '<' && e.subrange(e.len() - 3, e.len() as int) == seq!['/', '>', '\n']
}

proof fn lemma_closing_tail(a: Seq<char>)
    requires
        a.len() >= 1,
        a[0] == '<',
    ensures
        self_closing_line(a + "\"/>"@ + "\n"@),
{
    reveal_strlit("\"/>");
    reveal_strlit("\n");
    let e = a + "\"/>"@ + "\n"@;
    assert(e.subrange(e.len() - 3, e.len() as int) =~= seq!['/', '>', '\n']);
}

/// Every module contributes either nothing or one self-closing element on a line of its own.
pub proof fn lemma_module_line_self_closing(m: Modules, o: QrOptions, i: int)
    ensures
        module_markup(m, o, i).len() == 0 || self_closing_line(module_markup(m, o, i)),
{
    let x = i % (m.side as int);
    let y = i / (m.side as int);
    if m.is_dark(x, y) {
        reveal_strlit("<rect x=\"");
        reveal_strlit("<circle cx=\"");
        reveal_strlit("<path d=\"M");
        let total = (m.side + 8) as nat;
        let size = o.size as nat;
        let px = (20 * (x + 4)) as nat;
        let py = (20 * (y + 4)) as nat;
        let fill = hex_color(o.fg_color);
        let c = spec_corner_rounding(QrStyle::Rounded, spec_neighbors(m, x, y));
        let rect_head = "<rect x=\""@ + coord(px, size, total) + "\" y=\""@ + coord(py, size, total) + "\" width=\""@
            + coord(20, size, total) + "\" height=\""@ + coord(20, size, total) + "\" fill=\""@ + fill;
        let circle_head = "<circle cx=\""@ + coord(px + 10, size, total) + "\" cy=\""@ + coord(py + 10, size, total)
            + "\" r=\""@ + coord(10, size, total) + "\" fill=\""@ + fill;
        let tl = corner20(c.tl);
        let tr = corner20(c.tr);
        let bl = corner20(c.bl);
        let br = corner20(c.br);
        let path_head = "<path d=\"M"@ + pair(px + tl, py, size, total)
            + path_side((px + 20 - tr) as nat, py, px + 20, py, px + 20, py + tr, size, total)
            + path_side(px + 20, (py + 20 - br) as nat, px + 20, py + 20, (px + 20 - br) as nat, py + 20, size, total)
            + path_side(px + bl, py + 20, px, py + 20, px, (py + 20 - bl) as nat, size, total)
            + path_side(px, py + tl, px, py, px + tl, py, size, total)
            + " Z\" fill=\""@ + fill;
        assert(rect_head[0] == '<');
        assert(circle_head[0] == '<');
        assert(path_head[0] == '<');
        lemma_closing_tail(rect_head);
        lemma_closing_tail(circle_head);
        lemma_closing_tail(path_head);
    }
}

/// The first characters of every document: the XML declaration and the opening of the root element.
pub open spec fn svg_prolog() -> Seq<char> {
    "<?xml version=\"1.0\" encoding=\"UTF-8\"?>\n<svg xmlns=\"http://www.w3.org/2000/svg\" viewBox=\"0 0 "@
}

/// A document opens with the XML declaration and the root `<svg>` element and
/// ends by closing that element.
pub proof fn lemma_svg_frame(m: Modules, o: QrOptions, extra: Seq<char>)
    ensures
        svg_document_with(m, o, extra).len() >= svg_prolog().len() + 6,
        svg_document_with(m, o, extra).subrange(0, svg_prolog().len() as int) == svg_prolog(),
        svg_document_with(m, o, extra).subrange(
            svg_document_with(m, o, extra).len() - 6,
            svg_document_with(m, o, extra).len() as int,
        ) == "</svg>"@,
{
    reveal_strlit("</svg>");
    let d = svg_document_with(m, o, extra);
    let rest = svg_header(o).subrange(svg_prolog().len() as int, svg_header(o).len() as int) + svg_body(
        m,
        o,
        m.side * m.side,
    ) + extra;
    assert(svg_header(o) =~= svg_prolog() + svg_header(o).subrange(svg_prolog().len() as int, svg_header(o).len() as int));
    assert(d =~= svg_prolog() + rest + "</svg>"@);
    assert(d.subrange(0, svg_prolog().len() as int) =~= svg_prolog());
    assert(d.subrange(d.len() - 6, d.len() as int) =~= "</svg>"@);
}

/// What rendering the text as SVG yields.
pub open spec fn spec_generate_svg(data: Seq<u8>, o: QrOptions) -> Result<Seq<char>, RenderError> {
    match qr_modules(data, o.error_correction) {
        None => Err(RenderError::DataTooLong),
        Some((side, dark)) => Ok(svg_document(Modules { side, dark }, o)),
    }
}

/// Encodes `data` and renders it as an SVG document.
pub fn generate_svg(data: &str, options: &QrOptions) -> (r: Result<String, RenderError>)
    ensures
        match r {
            Ok(s) => spec_generate_svg(data.spec_bytes(), *options) == Ok::<Seq<char>, RenderError>(s@),
            Err(e) => spec_generate_svg(data.spec_bytes(), *options) == Err::<Seq<char>, RenderError>(e),
        },
{
    match encode_text(data, options.error_correction) {
        None => Err(RenderError::DataTooLong),
        Some(m) => Ok(render_svg(&m, options)),
    }
}

} // verus!
