use crate::geometry::cell_index;
use crate::geometry::cell_index_of;
use crate::geometry::cells_spanned;
use crate::geometry::cells_spanned_by;
use crate::geometry::clip_span;
use crate::geometry::spanned;
use crate::model::grid::Cell;
use crate::model::grid::Grid;
use vstd::prelude::*;

verus! {

/// Cell `(i, j)` belongs to the rectangle obstacle: its column is one of the
/// `ceil(width / cell_size)` columns that start at the column of `x`, and its
/// row one of the `ceil(height / cell_size)` rows that start at the row of `y`.
pub open spec fn rectangle_marks(
    cell_size: int,
    x: int,
    y: int,
    width: int,
    height: int,
    i: int,
    j: int,
) -> bool {
    &&& cell_index(x, cell_size) <= i < cell_index(x, cell_size) + cells_spanned(width, cell_size)
    &&& cell_index(y, cell_size) <= j < cell_index(y, cell_size) + cells_spanned(height, cell_size)
}

/// Marks the cells of an axis-aligned rectangle as obstacles.
#[verifier::loop_isolation(false)]
pub fn apply_rectangle_obstacle(grid: &mut Grid, x: i32, y: i32, width: i32, height: i32)
    requires
        old(grid).wf(),
    ensures
        final(grid).wf(),
        final(grid).same_frame(old(grid)),
        old(grid).keeps_obstacles(final(grid)),
        forall|i: int, j: int|
            old(grid).in_bounds(i, j) ==> #[trigger] final(grid).cell(i, j) == (if rectangle_marks(
                old(grid).cell_size as int,
                x as int,
                y as int,
                width as int,
                height as int,
                i,
                j,
            ) {
                Cell::Obstacle
            } else {
                old(grid).cell(i, j)
            }),
{
    let cell_size = grid.get_cell_size();
    let grid_x = cell_index_of(x, cell_size);
    let grid_y = cell_index_of(y, cell_size);
    let grid_width = cells_spanned_by(width, cell_size);
    let grid_height = cells_spanned_by(height, cell_size);
    let (x_lo, x_hi) = clip_span(grid_x as i64, grid_x as i64 + grid_width as i64, grid.cells_x);
    let (y_lo, y_hi) = clip_span(grid_y as i64, grid_y as i64 + grid_height as i64, grid.cells_y);
    let mut i = x_lo;
    while i < x_hi
        invariant
            x_lo <= i <= x_hi,
            grid.wf(),
            grid.same_frame(old(grid)),
            forall|a: int, b: int|
                grid.in_bounds(a, b) ==> #[trigger] grid.cell(a, b) == (if x_lo <= a < i && y_lo <= b
                    < y_hi {
                    Cell::Obstacle
                } else {
                    old(grid).cell(a, b)
                }),
        decreases x_hi - i,
    {
        let mut j = y_lo;
        while j < y_hi
            invariant
                x_lo <= i < x_hi,
                y_lo <= j <= y_hi,
                grid.wf(),
                grid.same_frame(old(grid)),
                forall|a: int, b: int|
                    grid.in_bounds(a, b) ==> #[trigger] grid.cell(a, b) == (if (x_lo <= a < i && y_lo
                        <= b < y_hi) || (a == i && y_lo <= b < j) {
                        Cell::Obstacle
                    } else {
                        old(grid).cell(a, b)
                    }),
            decreases y_hi - j,
        {
            grid.set_cell(i, j, Cell::Obstacle);
            j += 1;
        }
        i += 1;
    }
    proof {
        assert forall|a: int, b: int| old(grid).in_bounds(a, b) implies #[trigger] grid.cell(a, b) == (
        if rectangle_marks(cell_size as int, x as int, y as int, width as int, height as int, a, b) {
            Cell::Obstacle
        } else {
            old(grid).cell(a, b)
        }) by {
            assert((x_lo <= a < x_hi) == spanned(
                a,
                grid_x as int,
                grid_x + grid_width,
                grid.cells_x as int,
            ));
            assert((y_lo <= b < y_hi) == spanned(
                b,
                grid_y as int,
                grid_y + grid_height,
                grid.cells_y as int,
            ));
        }
    }
}

} // verus!
