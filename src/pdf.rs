//! PDF backend, geometric part: which shape each dark module gets and where it
//! stands on a page whose origin is the bottom-left corner. Turning the plan
//! into drawing operators with real-valued coordinates is left to the caller.

use vstd::prelude::*;
use vstd::arithmetic::div_mod::lemma_fundamental_div_mod_converse;

use crate::geometry::{
    corner_rounding, neighbors, spec_corner_rounding, spec_neighbors, CornerFlags, ModuleMatrix,
    Modules, QUIET_ZONE,
};
use crate::style::QrStyle;

verus! {

/// Shape of one dark module on the page.
#[derive(Clone, Copy, Debug, PartialEq, Eq, Structural)]
pub enum PdfShape {
    /// The full module square.
    Rect,
    /// A regular polygon inscribed in the module's circle.
    Circle,
    /// The module square with the flagged corners replaced by arcs.
    Rounded(CornerFlags),
}

/// One dark module: its column counted from the left edge of the page and its
/// row counted from the bottom edge, both in modules and including the quiet zone.
#[derive(Clone, Copy, Debug, PartialEq, Eq, Structural)]
pub struct PdfModule {
    pub col: u64,
    pub row: u64,
    pub shape: PdfShape,
}

/// Row of grid row `y`, counted from the bottom of the page: the grid is
/// addressed top-down, the page bottom-up.
pub open spec fn flipped_row(side: int, y: int) -> int {
    side + 2 * QUIET_ZONE - (y + QUIET_ZONE + 1)
}

pub open spec fn spec_pdf_shape(m: Modules, style: QrStyle, x: int, y: int) -> PdfShape {
    match style {
        QrStyle::Square => PdfShape::Rect,
        QrStyle::Dots => PdfShape::Circle,
        QrStyle::Rounded => PdfShape::Rounded(spec_corner_rounding(QrStyle::Rounded, spec_neighbors(m, x, y))),
    }
}

/// The shapes of the dark modules among the first `n` in row-major order.
pub open spec fn pdf_modules(m: Modules, style: QrStyle, n: nat) -> Seq<PdfModule>
    decreases n,
{
    if n == 0 {
        Seq::empty()
    } else {
        let i = n - 1;
        let x = i % (m.side as int);
        let y = i / (m.side as int);
        let prev = pdf_modules(m, style, (n - 1) as nat);
        if m.is_dark(x, y) {
            prev.push(
                PdfModule {
                    col: (x + QUIET_ZONE) as u64,
                    row: flipped_row(m.side as int, y) as u64,
                    shape: spec_pdf_shape(m, style, x, y),
                },
            )
        } else {
            prev
        }
    }
}

/// Lays out the dark modules of the matrix for a PDF page, in row-major order.
pub fn pdf_plan(m: &ModuleMatrix, style: QrStyle) -> (r: Vec<PdfModule>)
    requires
        m.wf(),
        m.side <= u32::MAX,
    ensures
        r@ == pdf_modules(m@, style, m@.side * m@.side),
{
    let side = m.side;
    let ghost gs = side as int;
    let mut out: Vec<PdfModule> = Vec::new();
    let mut y: usize = 0;
    while y < side
        invariant
            m.wf(),
            m.side <= u32::MAX,
            side == m.side,
            gs == side,
            y <= side,
            out@ == pdf_modules(m@, style, (y * gs) as nat),
        decreases side - y,
    {
        let mut x: usize = 0;
        while x < side
            invariant
                m.wf(),
                m.side <= u32::MAX,
                side == m.side,
                gs == side,
                y < side,
                x <= side,
                out@ == pdf_modules(m@, style, (y * gs + x) as nat),
            decreases side - x,
        {
            proof {
                lemma_fundamental_div_mod_converse(y * gs + x, gs, y as int, x as int);
                assert(y * gs + x >= 0) by (nonlinear_arith)
                    requires
                        y >= 0,
                        gs >= 0,
                        x >= 0,
                ;
            }
            if m.get(x, y) {
                let shape = match style {
                    QrStyle::Square => PdfShape::Rect,
                    QrStyle::Dots => PdfShape::Circle,
                    QrStyle::Rounded => PdfShape::Rounded(corner_rounding(QrStyle::Rounded, neighbors(m, x, y))),
                };
                let total = side as u64 + 2 * QUIET_ZONE;
                out.push(PdfModule { col: x as u64 + QUIET_ZONE, row: total - (y as u64 + QUIET_ZONE + 1), shape });
            }
            x += 1;
        }
        assert(y * gs + gs == (y + 1) * gs) by (nonlinear_arith);
        y += 1;
    }
    out
}

} // verus!
