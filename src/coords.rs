//! From a pointer position in the window to a cell of the grid and the side of
//! the cell that a wall operation targets.
use crate::instances::WallOrientation;
use crate::level_data::CellPos;
use vstd::prelude::*;

verus! {

/// The side of a cell, in logical units.
pub const CELL_SIZE: i64 = 16;

/// The largest magnitude accepted for a pointer coordinate or an extent.
pub const COORD_LIMIT: i64 = 0x1000_0000;

/// How window pixels relate to the viewport: `view_w` logical units of the viewport
/// span `window_w` units of the window, and likewise in height. Any common scale of
/// the two pairs serves: only the ratios count.
#[derive(Debug, Clone, Copy, PartialEq, Eq, Structural)]
pub struct ScreenScale {
    pub view_w: i64,
    pub view_h: i64,
    pub window_w: i64,
    pub window_h: i64,
}

impl ScreenScale {
    pub open spec fn wf(self) -> bool {
        &&& 0 < self.view_w <= COORD_LIMIT
        &&& 0 < self.view_h <= COORD_LIMIT
        &&& 0 < self.window_w <= COORD_LIMIT
        &&& 0 < self.window_h <= COORD_LIMIT
    }
}

/// A pointer coordinate that the mapping accepts.
pub open spec fn pointer_ok(p: i64) -> bool {
    -COORD_LIMIT <= p <= COORD_LIMIT
}

/// The cell index along one axis: the viewport coordinate `p * view / window`,
/// divided by the cell size and rounded toward negative infinity.
pub open spec fn cell_index(p: int, view: int, window: int) -> int {
    (p * view) / (CELL_SIZE * window)
}

/// The offset within its cell along one axis, in units of `1 / window` logical units.
pub open spec fn offset_scaled(p: int, view: int, window: int) -> int {
    (p * view) % (CELL_SIZE * window)
}

/// Whether the right edge is the nearer one: the margin left to the right edge,
/// `CELL_SIZE - x_within_cell`, is smaller than the margin left to the bottom edge.
/// Both margins are compared in exact arithmetic, scaled by `window_w * window_h`.
pub open spec fn right_is_nearer(px: int, py: int, s: ScreenScale) -> bool {
    let rx = offset_scaled(px, s.view_w as int, s.window_w as int);
    let ry = offset_scaled(py, s.view_h as int, s.window_h as int);
    (CELL_SIZE * s.window_w - rx) * s.window_h < (CELL_SIZE * s.window_h - ry) * s.window_w
}

pub open spec fn orientation_at(px: int, py: int, s: ScreenScale) -> WallOrientation {
    if right_is_nearer(px, py, s) {
        WallOrientation::Right
    } else {
        WallOrientation::Down
    }
}

pub open spec fn fits_i32(v: int) -> bool {
    i32::MIN <= v <= i32::MAX
}

/// The cell under the pointer at window position (`px`, `py`), if its indices fit
/// in an `i32`.
pub open spec fn cell_at(px: int, py: int, s: ScreenScale) -> Option<CellPos> {
    let cx = cell_index(px, s.view_w as int, s.window_w as int);
    let cy = cell_index(py, s.view_h as int, s.window_h as int);
    if fits_i32(cx) && fits_i32(cy) {
        Some(CellPos { x: cx as i32, y: cy as i32 })
    } else {
        None
    }
}

/// `n / d` and `n % d` rounded toward negative infinity, for a positive `d`.
fn floor_div_mod(n: i64, d: i64) -> (r: (i64, i64))
    requires
        d > 0,
        -0x1000_0000_0000_0000 <= n <= 0x1000_0000_0000_0000,
        d <= 0x1000_0000_0000_0000,
    ensures
        r.0 == n as int / d as int,
        r.1 == n as int % d as int,
{
    if n >= 0 {
        (n / d, n % d)
    } else {
        let m: i64 = -n;
        let q: i64 = m / d;
        let rem: i64 = m % d;
        proof {
            vstd::arithmetic::div_mod::lemma_fundamental_div_mod(m as int, d as int);
            vstd::arithmetic::div_mod::lemma_fundamental_div_mod(n as int, d as int);
            vstd::arithmetic::div_mod::lemma_mod_bound(n as int, d as int);
            vstd::arithmetic::div_mod::lemma_mod_bound(m as int, d as int);
            assert(m == d * q + rem);
            assert(n == (-(q as int)) * d - rem) by (nonlinear_arith)
                requires
                    m == d * q + rem,
                    n == -m,
            ;
            assert((-(q as int)) * d - rem == (-(q as int) - 1) * d + (d - rem)) by (nonlinear_arith);
            if rem == 0 {
                vstd::arithmetic::div_mod::lemma_fundamental_div_mod_converse(
                    n as int, d as int, -(q as int), 0);
            } else {
                vstd::arithmetic::div_mod::lemma_fundamental_div_mod_converse(
                    n as int, d as int, -(q as int) - 1, d - rem);
            }
        }
        if rem == 0 {
            (-q, 0)
        } else {
            (-q - 1, d - rem)
        }
    }
}

proof fn lemma_product_bound(p: i64, v: i64)
    requires
        pointer_ok(p),
        0 < v <= COORD_LIMIT,
    ensures
        -0x100_0000_0000_0000 <= p * v <= 0x100_0000_0000_0000,
{
    assert(-0x100_0000_0000_0000 <= p * v <= 0x100_0000_0000_0000) by (nonlinear_arith)
        requires
            -0x1000_0000 <= p <= 0x1000_0000,
            0 < v <= 0x1000_0000,
    ;
}

/// The cell under the pointer at window position (`px`, `py`), or `None` where
/// its index does not fit in an `i32`.
pub fn to_level_loader_coords(px: i64, py: i64, scale: ScreenScale) -> (r: Option<CellPos>)
    requires
        scale.wf(),
        pointer_ok(px),
        pointer_ok(py),
    ensures
        r == cell_at(px as int, py as int, scale),
{
    proof {
        lemma_product_bound(px, scale.view_w);
        lemma_product_bound(py, scale.view_h);
    }
    let (cx, _) = floor_div_mod(px * scale.view_w, CELL_SIZE * scale.window_w);
    let (cy, _) = floor_div_mod(py * scale.view_h, CELL_SIZE * scale.window_h);
    if cx < i32::MIN as i64 || cx > i32::MAX as i64 || cy < i32::MIN as i64 || cy > i32::MAX as i64 {
        None
    } else {
        Some(CellPos { x: cx as i32, y: cy as i32 })
    }
}

/// The segment that a wall operation at window position (`px`, `py`) targets: the
/// edge of the cell with the smaller margin left to it, `Down` on a tie.
pub fn is_right(px: i64, py: i64, scale: ScreenScale) -> (r: WallOrientation)
    requires
        scale.wf(),
        pointer_ok(px),
        pointer_ok(py),
    ensures
        r == orientation_at(px as int, py as int, scale),
{
    proof {
        lemma_product_bound(px, scale.view_w);
        lemma_product_bound(py, scale.view_h);
    }
    let cw: i64 = CELL_SIZE * scale.window_w;
    let ch: i64 = CELL_SIZE * scale.window_h;
    let (_, rx) = floor_div_mod(px * scale.view_w, cw);
    let (_, ry) = floor_div_mod(py * scale.view_h, ch);
    proof {
        vstd::arithmetic::div_mod::lemma_mod_bound((px * scale.view_w) as int, cw as int);
        vstd::arithmetic::div_mod::lemma_mod_bound((py * scale.view_h) as int, ch as int);
    }
    let margin_x: i64 = cw - rx;
    let margin_y: i64 = ch - ry;
    assert(0 < margin_x * scale.window_h <= 0x1_0000_0000 * 0x1000_0000) by (nonlinear_arith)
        requires
            0 < margin_x <= 0x1_0000_0000,
            0 < scale.window_h <= 0x1000_0000,
    ;
    assert(0 < margin_y * scale.window_w <= 0x1_0000_0000 * 0x1000_0000) by (nonlinear_arith)
        requires
            0 < margin_y <= 0x1_0000_0000,
            0 < scale.window_w <= 0x1000_0000,
    ;
    if margin_x * scale.window_h < margin_y * scale.window_w {
        WallOrientation::Right
    } else {
        WallOrientation::Down
    }
}

} // verus!
