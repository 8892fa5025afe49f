//! Grid layout: the target x position of each column, the one-slot gap that
//! opens while an item is dragged over a row, and the pointer-to-cell map.

use vstd::prelude::*;
use crate::geom::SUBPIX;

verus! {

/// Width and height of the square artwork area, in pixels.
pub const ARTWORK_SIZE_PX: i64 = 210;

/// Side of one grid cell, in pixels (a third of the artwork area).
pub const CELL_PX: i64 = 70;

/// Side of one grid cell, in subpixels.
pub const CELL_SUB: i64 = 70_000;

/// Number of rows in the visible grid.
pub const GRID_ROWS: usize = 3;

/// Number of columns in the visible grid.
pub const GRID_COLS: usize = 3;

/// Most records the catalog can hold; keeps every column's target position
/// within the 64-bit fixed-point coordinate range.
pub const MAX_ALBUMS: usize = 10_000;

/// The column an item effectively occupies: a placeholder gap at or before
/// it pushes it one slot to the right.
pub open spec fn shifted_col(col: int, placeholder: Option<int>) -> int {
    match placeholder {
        Some(p) => if col >= p { col + 1 } else { col },
        None => col,
    }
}

/// Target x position of a column, in pixels.
pub open spec fn target_x_px(col: int, placeholder: Option<int>) -> int {
    shifted_col(col, placeholder) * CELL_PX
}

/// Target x position of a column, in subpixels.
pub open spec fn target_x_sub(col: int, placeholder: Option<int>) -> int {
    target_x_px(col, placeholder) * SUBPIX
}

pub open spec fn opt_col(placeholder: Option<usize>) -> Option<int> {
    match placeholder {
        Some(p) => Some(p as int),
        None => None,
    }
}

/// Target x position (in subpixels) of the item in column `col` of a row,
/// given the column of an open drag placeholder gap in that row, if any.
pub fn target_x(col: usize, placeholder: Option<usize>) -> (r: i64)
    requires
        col <= MAX_ALBUMS,
    ensures
        r == target_x_sub(col as int, opt_col(placeholder)),
        0 <= r <= (MAX_ALBUMS + 1) * CELL_SUB,
{
    let shifted: usize = match placeholder {
        Some(p) => if col >= p { col + 1 } else { col },
        None => col,
    };
    (shifted as i64) * CELL_SUB
}

/// With no placeholder, targets grow strictly with the column index.
pub proof fn lemma_target_monotonic(col: int)
    requires
        col >= 0,
    ensures
        target_x_px(col, None) < target_x_px(col + 1, None),
        target_x_sub(col, None) < target_x_sub(col + 1, None),
{
}

/// A placeholder at column `p` leaves targets before `p` unchanged and
/// shifts every target at or after `p` right by exactly one cell.
pub proof fn lemma_target_placeholder_shift(col: int, p: int)
    requires
        0 <= p,
        0 <= col,
    ensures
        col >= p ==> target_x_px(col, Some(p)) == target_x_px(col, None) + CELL_PX,
        col < p ==> target_x_px(col, Some(p)) == target_x_px(col, None),
        col >= p ==> target_x_sub(col, Some(p)) == target_x_sub(col, None) + CELL_SUB,
        col < p ==> target_x_sub(col, Some(p)) == target_x_sub(col, None),
{
}

/// The grid cell (row, column) under a pointer position, or `None` for a
/// pointer left of or above the grid. Coordinates are floor-divided by the
/// cell size, so negative positions never map to cell 0; cells right of or
/// below the visible grid are still reported, since a drag placeholder may
/// sit past the last visible column.
pub open spec fn hovered_cell_spec(x: int, y: int) -> Option<(int, int)> {
    if x >= 0 && y >= 0 {
        Some((y / (CELL_SUB as int), x / (CELL_SUB as int)))
    } else {
        None
    }
}

/// Computes the hovered cell from a pointer position in subpixels,
/// returned as (row, column).
pub fn hovered_cell(x: i64, y: i64) -> (r: Option<(usize, usize)>)
    requires
        x <= 0x7fff_ffff_ffff,
        y <= 0x7fff_ffff_ffff,
    ensures
        match r {
            Some((row, col)) => hovered_cell_spec(x as int, y as int) == Some((row as int, col as int)),
            None => hovered_cell_spec(x as int, y as int) is None,
        },
{
    if x >= 0 && y >= 0 {
        let col = (x as u64) / (CELL_SUB as u64);
        let row = (y as u64) / (CELL_SUB as u64);
        proof {
            assert(col * (CELL_SUB as u64) <= x) by (nonlinear_arith)
                requires col == (x as u64) / (CELL_SUB as u64), x >= 0;
            assert(row * (CELL_SUB as u64) <= y) by (nonlinear_arith)
                requires row == (y as u64) / (CELL_SUB as u64), y >= 0;
            assert(col < 0x1_0000_0000) by (nonlinear_arith)
                requires col * (CELL_SUB as u64) <= 0x7fff_ffff_ffff;
            assert(row < 0x1_0000_0000) by (nonlinear_arith)
                requires row * (CELL_SUB as u64) <= 0x7fff_ffff_ffff;
        }
        Some((row as usize, col as usize))
    } else {
        None
    }
}

/// True when a cell is one of the grid's visible slots.
pub open spec fn cell_in_bounds(row: int, col: int) -> bool {
    0 <= row < GRID_ROWS && 0 <= col < GRID_COLS
}

} // verus!
