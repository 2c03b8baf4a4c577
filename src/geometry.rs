//! The module matrix, neighbour detection, the shared corner-rounding rule and
//! the quiet-zone geometry that every backend uses.

use vstd::prelude::*;

use crate::style::QrStyle;

verus! {

/// Width of the blank border, in modules, on every side of the symbol.
pub const QUIET_ZONE: u64 = 4;

/// Square grid of modules; `dark[y * side + x]` holds the module at column `x`, row `y`.
pub struct ModuleMatrix {
    pub side: usize,
    pub dark: Vec<bool>,
}

/// Mathematical model of a module grid.
pub struct Modules {
    pub side: nat,
    pub dark: Seq<bool>,
}

impl Modules {
    pub open spec fn wf(&self) -> bool {
        self.dark.len() == self.side * self.side
    }

    /// A module is dark when it lies inside the grid and is marked dark;
    /// every position outside the grid counts as light.
    pub open spec fn is_dark(&self, x: int, y: int) -> bool {
        0 <= x < self.side && 0 <= y < self.side && self.dark[y * self.side + x]
    }
}

impl View for ModuleMatrix {
    type V = Modules;

    open spec fn view(&self) -> Modules {
        Modules { side: self.side as nat, dark: self.dark@ }
    }
}

impl ModuleMatrix {
    pub open spec fn wf(&self) -> bool {
        self@.wf()
    }

    /// Reads one module of the grid.
    pub fn get(&self, x: usize, y: usize) -> (r: bool)
        requires
            self.wf(),
            x < self.side,
            y < self.side,
        ensures
            r == self@.is_dark(x as int, y as int),
    {
        let n = self.dark.len();
        proof {
            lemma_grid_index(x as int, y as int, self.side as int);
        }
        self.dark[y * self.side + x]
    }
}

pub proof fn lemma_grid_index(x: int, y: int, w: int)
    requires
        0 <= x < w,
        0 <= y < w,
    ensures
        0 <= y * w + x < w * w,
{
    assert(y * w + x < w * w) by (nonlinear_arith)
        requires
            0 <= x < w,
            0 <= y < w,
    ;
    assert(0 <= y * w) by (nonlinear_arith)
        requires
            0 <= y,
            0 < w,
    ;
}

/// Adjacency of a module: true where the orthogonal neighbour inside the grid is dark.
#[derive(Clone, Copy, Debug, PartialEq, Eq, Structural)]
pub struct NeighborFlags {
    pub top: bool,
    pub right: bool,
    pub bottom: bool,
    pub left: bool,
}

/// Which corners of a module are drawn rounded.
#[derive(Clone, Copy, Debug, PartialEq, Eq, Structural)]
pub struct CornerFlags {
    pub tl: bool,
    pub tr: bool,
    pub bl: bool,
    pub br: bool,
}

pub open spec fn spec_neighbors(m: Modules, x: int, y: int) -> NeighborFlags {
    NeighborFlags {
        top: m.is_dark(x, y - 1),
        right: m.is_dark(x + 1, y),
        bottom: m.is_dark(x, y + 1),
        left: m.is_dark(x - 1, y),
    }
}

/// The corner rule shared by all backends. `Rounded` rounds a corner only when
/// neither of its two adjacent edges touches a dark neighbour; `Dots` treats
/// every corner as round; `Square` rounds none.
pub open spec fn spec_corner_rounding(style: QrStyle, n: NeighborFlags) -> CornerFlags {
    match style {
        QrStyle::Square => CornerFlags { tl: false, tr: false, bl: false, br: false },
        QrStyle::Dots => CornerFlags { tl: true, tr: true, bl: true, br: true },
        QrStyle::Rounded => CornerFlags {
            tl: !n.top && !n.left,
            tr: !n.top && !n.right,
            bl: !n.bottom && !n.left,
            br: !n.bottom && !n.right,
        },
    }
}

/// Neighbour flags of the module at (`x`, `y`); edges of the grid never wrap.
pub fn neighbors(m: &ModuleMatrix, x: usize, y: usize) -> (r: NeighborFlags)
    requires
        m.wf(),
        x < m.side,
        y < m.side,
    ensures
        r == spec_neighbors(m@, x as int, y as int),
{
    let top = y > 0 && m.get(x, y - 1);
    let right = x + 1 < m.side && m.get(x + 1, y);
    let bottom = y + 1 < m.side && m.get(x, y + 1);
    let left = x > 0 && m.get(x - 1, y);
    NeighborFlags { top, right, bottom, left }
}

/// Corner rounding decision for one module.
pub fn corner_rounding(style: QrStyle, n: NeighborFlags) -> (r: CornerFlags)
    ensures
        r == spec_corner_rounding(style, n),
{
    match style {
        QrStyle::Square => CornerFlags { tl: false, tr: false, bl: false, br: false },
        QrStyle::Dots => CornerFlags { tl: true, tr: true, bl: true, br: true },
        QrStyle::Rounded => CornerFlags {
            tl: !n.top && !n.left,
            tr: !n.top && !n.right,
            bl: !n.bottom && !n.left,
            br: !n.bottom && !n.right,
        },
    }
}

/// Modules per side including the quiet zone.
pub open spec fn total_modules(side: int) -> int {
    side + 2 * QUIET_ZONE
}

/// Raster module size: the target size divided by the module count, at least one pixel.
pub open spec fn spec_module_px(side: int, size: int) -> int {
    if size / total_modules(side) >= 1 {
        size / total_modules(side)
    } else {
        1
    }
}

/// Raster image side: module size times module count, possibly below the target.
pub open spec fn spec_output_px(side: int, size: int) -> int {
    spec_module_px(side, size) * total_modules(side)
}

/// Pixel size of one raster module.
pub fn module_px(side: u64, size: u32) -> (r: u64)
    requires
        side <= u32::MAX,
    ensures
        r == spec_module_px(side as int, size as int),
        r >= 1,
        r <= u32::MAX,
{
    let q = size as u64 / (side + 2 * QUIET_ZONE);
    if q >= 1 {
        q
    } else {
        1
    }
}

/// Pixel side of the raster image.
pub fn output_px(side: u64, size: u32) -> (r: u64)
    requires
        side <= u32::MAX,
    ensures
        r == spec_output_px(side as int, size as int),
        r <= size || r == side + 8,
{
    let ms = module_px(side, size);
    let t = side + 2 * QUIET_ZONE;
    if ms == 1 {
        t
    } else {
        assert(ms * t <= size) by (nonlinear_arith)
            requires
                ms == size as int / t as int,
                t > 0,
        ;
        ms * t
    }
}

/// A dark module whose four orthogonal neighbours are all light has all four
/// corners rounded in the `Rounded` style.
pub proof fn lemma_isolated_module_fully_rounded(m: Modules, x: int, y: int)
    requires
        m.wf(),
        m.is_dark(x, y),
        !m.is_dark(x, y - 1),
        !m.is_dark(x + 1, y),
        !m.is_dark(x, y + 1),
        !m.is_dark(x - 1, y),
    ensures
        spec_corner_rounding(QrStyle::Rounded, spec_neighbors(m, x, y)) == (CornerFlags {
            tl: true,
            tr: true,
            bl: true,
            br: true,
        }),
{
}

/// For two horizontally adjacent dark modules, the corners on their shared
/// vertical edge are rounded on neither module.
pub proof fn lemma_shared_edge_never_rounded(m: Modules, x: int, y: int)
    requires
        m.wf(),
        m.is_dark(x, y),
        m.is_dark(x + 1, y),
    ensures
        !spec_corner_rounding(QrStyle::Rounded, spec_neighbors(m, x, y)).tr,
        !spec_corner_rounding(QrStyle::Rounded, spec_neighbors(m, x, y)).br,
        !spec_corner_rounding(QrStyle::Rounded, spec_neighbors(m, x + 1, y)).tl,
        !spec_corner_rounding(QrStyle::Rounded, spec_neighbors(m, x + 1, y)).bl,
{
}

/// With a target of at least one pixel per module, the raster side is the
/// module size (the target divided by the module count, rounded down) times
/// the module count including the quiet zone, and does not exceed the target.
pub proof fn lemma_quiet_zone(side: int, size: int)
    requires
        side >= 0,
        size >= side + 2 * QUIET_ZONE,
    ensures
        spec_module_px(side, size) == size / (side + 2 * QUIET_ZONE),
        spec_module_px(side, size) >= 1,
        spec_output_px(side, size) == spec_module_px(side, size) * (side + 2 * QUIET_ZONE),
        spec_output_px(side, size) <= size,
{
    let t = side + 2 * QUIET_ZONE;
    assert(size / t >= 1) by (nonlinear_arith)
        requires
            size >= t,
            t > 0,
    ;
    assert((size / t) * t <= size) by (nonlinear_arith)
        requires
            t > 0,
            size >= 0,
    ;
}

} // verus!
