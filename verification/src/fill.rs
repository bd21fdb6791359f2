//! The fill-size calculator: the content size to request when resizing a
//! window to fill its grid cell, minus the configured gaps and, for a
//! decorated window, the decoration insets (which the window manager adds
//! back outside the content area after the resize).

use vstd::prelude::*;

use crate::geometry::DecorationInsets;
use crate::geometry::GridShape;
use crate::geometry::Size;
use crate::geometry::decoration_wf;

verus! {

/// The width `compute_fill_size` returns: the cell width (truncating
/// division) minus one gap on each side, minus the horizontal decoration
/// insets when decorated.  Zero or negative results are passed through
/// unmodified; callers treat them as a configuration error.
pub open spec fn spec_fill_width(
    display: Size,
    grid: GridShape,
    gaps: Size,
    decoration: Option<DecorationInsets>,
) -> int {
    display.width as int / grid.columns as int - 2 * gaps.width - (match decoration {
        Some(d) => d.left + d.right,
        None => 0,
    })
}

/// The height `compute_fill_size` returns, built like `spec_fill_width`
/// from the cell height, the vertical gaps and the vertical insets.
pub open spec fn spec_fill_height(
    display: Size,
    grid: GridShape,
    gaps: Size,
    decoration: Option<DecorationInsets>,
) -> int {
    display.height as int / grid.rows as int - 2 * gaps.height - (match decoration {
        Some(d) => d.top + d.bottom,
        None => 0,
    })
}

/// Compute the content size that fills one grid cell: gaps are subtracted
/// from the cell dimension first, then the decoration insets; both come
/// off the same cell dimension, never compounded.  The result is not
/// clamped: a zero or negative size signals a cell too small to fit any
/// content and is returned as computed.
pub fn compute_fill_size(
    display: &Size,
    grid: &GridShape,
    gaps: &Size,
    decoration: &Option<DecorationInsets>,
) -> (r: Size)
    requires
        display.non_negative(),
        grid.wf(),
        gaps.non_negative(),
        decoration_wf(*decoration),
        spec_fill_width(*display, *grid, *gaps, *decoration) >= i32::MIN,
        spec_fill_height(*display, *grid, *gaps, *decoration) >= i32::MIN,
    ensures
        r.width == spec_fill_width(*display, *grid, *gaps, *decoration),
        r.height == spec_fill_height(*display, *grid, *gaps, *decoration),
{
    let cell_w: i64 = (display.width as i64) / (grid.columns as i64);
    let cell_h: i64 = (display.height as i64) / (grid.rows as i64);
    let mut width: i64 = cell_w - 2 * (gaps.width as i64);
    let mut height: i64 = cell_h - 2 * (gaps.height as i64);
    if let Some(d) = decoration {
        width = width - d.left as i64 - d.right as i64;
        height = height - d.top as i64 - d.bottom as i64;
    }
    Size { width: width as i32, height: height as i32 }
}

} // verus!
