//! The placement calculator: given the display size, the window size
//! (inflated by decoration insets when the window is decorated), a grid
//! shape and a target cell, compute the clamped top-left position that
//! centres the window in its cell without letting it leave the display.

use vstd::prelude::*;

use crate::geometry::CellIndex;
use crate::geometry::DecorationInsets;
use crate::geometry::GridShape;
use crate::geometry::Point;
use crate::geometry::Size;
use crate::geometry::decoration_wf;
use crate::geometry::spec_effective_height;
use crate::geometry::spec_effective_width;

verus! {

/// Integer division truncating toward zero (for a positive divisor), the
/// semantics of the centring term: a 1-pixel odd remainder biases toward
/// the origin whichever sign the difference has.
pub open spec fn div_trunc(a: int, b: int) -> int
    recommends
        b > 0,
{
    if a >= 0 {
        a / b
    } else {
        -((-a) / b)
    }
}

/// Clamp a coordinate to `[0, limit]` when `limit >= 0`, and to `0` when
/// the window is too large for the display (`limit < 0`).
pub open spec fn clamp_coord(v: int, limit: int) -> int {
    let capped = if v < limit {
        v
    } else {
        limit
    };
    if capped > 0 {
        capped
    } else {
        0
    }
}

/// The width of one grid cell: the display width divided by the column
/// count, truncating.  An uneven division silently shrinks the last cell
/// rather than distributing the remainder.
pub open spec fn spec_cell_width(display: Size, grid: GridShape) -> int {
    display.width as int / grid.columns as int
}

/// The height of one grid cell, truncating likewise.
pub open spec fn spec_cell_height(display: Size, grid: GridShape) -> int {
    display.height as int / grid.rows as int
}

/// One coordinate of the placement: centre a span of `effective_dim`
/// pixels inside cell `index` of cells `cell_dim` pixels wide, then clamp
/// so the span stays inside `[0, display_dim]`.
pub open spec fn spec_position_coord(
    display_dim: int,
    cell_dim: int,
    index: int,
    effective_dim: int,
) -> int {
    clamp_coord(cell_dim * index + div_trunc(cell_dim - effective_dim, 2), display_dim
        - effective_dim)
}

/// The x coordinate `compute_position` returns.
pub open spec fn spec_position_x(
    display: Size,
    window: Size,
    decoration: Option<DecorationInsets>,
    grid: GridShape,
    cell: CellIndex,
) -> int {
    spec_position_coord(
        display.width as int,
        spec_cell_width(display, grid),
        cell.column as int,
        spec_effective_width(window, decoration),
    )
}

/// The y coordinate `compute_position` returns.
pub open spec fn spec_position_y(
    display: Size,
    window: Size,
    decoration: Option<DecorationInsets>,
    grid: GridShape,
    cell: CellIndex,
) -> int {
    spec_position_coord(
        display.height as int,
        spec_cell_height(display, grid),
        cell.row as int,
        spec_effective_height(window, decoration),
    )
}

/// One axis of the placement, computed in 64-bit arithmetic so that no
/// intermediate value can overflow for any 32-bit inputs.
fn position_coord(display_dim: i32, grid_count: i32, index: i32, effective_dim: i64) -> (r: i32)
    requires
        0 <= display_dim,
        0 < grid_count,
        0 <= index < grid_count,
        0 <= effective_dim <= 3 * 0x7fff_ffff,
    ensures
        r == spec_position_coord(
            display_dim as int,
            display_dim as int / grid_count as int,
            index as int,
            effective_dim as int,
        ),
{
    let cell_dim: i64 = (display_dim as i64) / (grid_count as i64);
    let diff: i64 = cell_dim - effective_dim;
    let half: i64 = diff / 2;
    assert(half == div_trunc(diff as int, 2));
    assert(0 <= cell_dim * (index as i64) <= 0x7fff_ffff * 0x7fff_ffff) by (nonlinear_arith)
        requires
            0 <= cell_dim <= 0x7fff_ffff,
            0 <= index <= 0x7fff_ffff,
    ;
    let unclamped: i64 = cell_dim * (index as i64) + half;
    let limit: i64 = (display_dim as i64) - effective_dim;
    let capped: i64 = if unclamped < limit {
        unclamped
    } else {
        limit
    };
    let clamped: i64 = if capped > 0 {
        capped
    } else {
        0
    };
    clamped as i32
}

/// Compute the clamped top-left target position for the window's content
/// area: the window, inflated by the decoration insets when decorated, is
/// centred within its cell (odd remainders bias toward the origin), then
/// clamped so that it leaves neither the left/top edge nor the
/// right/bottom edge of the display; a window larger than the display is
/// pinned to the origin.
pub fn compute_position(
    display: &Size,
    window: &Size,
    decoration: &Option<DecorationInsets>,
    grid: &GridShape,
    cell: &CellIndex,
) -> (r: Point)
    requires
        display.non_negative(),
        window.non_negative(),
        decoration_wf(*decoration),
        grid.wf(),
        cell.within(*grid),
    ensures
        r.x == spec_position_x(*display, *window, *decoration, *grid, *cell),
        r.y == spec_position_y(*display, *window, *decoration, *grid, *cell),
{
    let (effective_w, effective_h): (i64, i64) = match decoration {
        Some(d) => (
            window.width as i64 + d.left as i64 + d.right as i64,
            window.height as i64 + d.top as i64 + d.bottom as i64,
        ),
        None => (window.width as i64, window.height as i64),
    };
    let x = position_coord(display.width, grid.columns, cell.column, effective_w);
    let y = position_coord(display.height, grid.rows, cell.row, effective_h);
    Point { x, y }
}

/// One axis of the containment law: when the span fits on the display,
/// the clamped coordinate keeps it entirely visible.
proof fn lemma_coord_within(display_dim: int, cell_dim: int, index: int, effective_dim: int)
    requires
        0 <= effective_dim <= display_dim,
    ensures
        0 <= spec_position_coord(display_dim, cell_dim, index, effective_dim) <= display_dim
            - effective_dim,
{
}

/// LAW — a window no larger than the display never escapes it: whatever
/// the decoration, for every valid grid and cell, if the window's
/// effective footprint fits within the display then the computed position
/// keeps that footprint entirely on screen.
pub proof fn lemma_position_never_escapes_display(
    display: Size,
    window: Size,
    decoration: Option<DecorationInsets>,
    grid: GridShape,
    cell: CellIndex,
)
    requires
        display.non_negative(),
        grid.wf(),
        cell.within(grid),
        0 <= spec_effective_width(window, decoration) <= display.width,
        0 <= spec_effective_height(window, decoration) <= display.height,
    ensures
        0 <= spec_position_x(display, window, decoration, grid, cell) <= display.width
            - spec_effective_width(window, decoration),
        0 <= spec_position_y(display, window, decoration, grid, cell) <= display.height
            - spec_effective_height(window, decoration),
{
    lemma_coord_within(
        display.width as int,
        spec_cell_width(display, grid),
        cell.column as int,
        spec_effective_width(window, decoration),
    );
    lemma_coord_within(
        display.height as int,
        spec_cell_height(display, grid),
        cell.row as int,
        spec_effective_height(window, decoration),
    );
}

/// LAW — for an undecorated window with `window.width <= display.width`
/// and `window.height <= display.height` and any valid grid and cell, the
/// position satisfies `0 <= x <= display.width - window.width` and
/// `0 <= y <= display.height - window.height`.
pub proof fn lemma_position_within_display(
    display: Size,
    window: Size,
    grid: GridShape,
    cell: CellIndex,
)
    requires
        display.non_negative(),
        window.non_negative(),
        window.width <= display.width,
        window.height <= display.height,
        grid.wf(),
        cell.within(grid),
    ensures
        0 <= spec_position_x(display, window, None, grid, cell) <= display.width - window.width,
        0 <= spec_position_y(display, window, None, grid, cell) <= display.height - window.height,
{
    lemma_position_never_escapes_display(display, window, None, grid, cell);
}

/// LAW — the placement is a pure function of its inputs: any two results
/// that both satisfy the contract of `compute_position` for the same
/// inputs are equal, so calling it twice with identical inputs yields
/// identical output.
pub proof fn lemma_compute_position_deterministic(
    first: Point,
    second: Point,
    display: Size,
    window: Size,
    decoration: Option<DecorationInsets>,
    grid: GridShape,
    cell: CellIndex,
)
    requires
        first.x == spec_position_x(display, window, decoration, grid, cell),
        first.y == spec_position_y(display, window, decoration, grid, cell),
        second.x == spec_position_x(display, window, decoration, grid, cell),
        second.y == spec_position_y(display, window, decoration, grid, cell),
    ensures
        first == second,
{
}

/// LAW — a single full-screen cell centres the window exactly: with a
/// one-by-one grid and no decoration, a window that fits the display is
/// placed at `((display.width - window.width) / 2,
/// (display.height - window.height) / 2)` (truncating division).
pub proof fn lemma_single_cell_centers(display: Size, window: Size)
    requires
        display.non_negative(),
        window.non_negative(),
        window.width <= display.width,
        window.height <= display.height,
    ensures
        spec_position_x(
            display,
            window,
            None,
            GridShape { rows: 1, columns: 1 },
            CellIndex { row: 0, column: 0 },
        ) == (display.width - window.width) as int / 2,
        spec_position_y(
            display,
            window,
            None,
            GridShape { rows: 1, columns: 1 },
            CellIndex { row: 0, column: 0 },
        ) == (display.height - window.height) as int / 2,
{
}

/// LAW — an oversized window is pinned to the origin, not pushed to a
/// negative coordinate: when the effective width exceeds the display
/// width the x coordinate is `0` for every valid cell, and likewise for
/// the height and the y coordinate.
pub proof fn lemma_oversized_window_pinned(
    display: Size,
    window: Size,
    decoration: Option<DecorationInsets>,
    grid: GridShape,
    cell: CellIndex,
)
    requires
        display.non_negative(),
        grid.wf(),
        cell.within(grid),
    ensures
        spec_effective_width(window, decoration) > display.width ==> spec_position_x(
            display,
            window,
            decoration,
            grid,
            cell,
        ) == 0,
        spec_effective_height(window, decoration) > display.height ==> spec_position_y(
            display,
            window,
            decoration,
            grid,
            cell,
        ) == 0,
{
}

} // verus!
