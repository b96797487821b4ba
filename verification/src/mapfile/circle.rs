use crate::geometry::any_corner_within;
use crate::geometry::cell_index_of;
use crate::geometry::clipped;
use crate::geometry::in_reach;
use crate::geometry::scan_range;
use crate::geometry::scan_reach_of;
use crate::geometry::within_distance;
use crate::model::grid::Cell;
use crate::model::grid::Grid;
use vstd::prelude::*;

verus! {

/// Cell `(i, j)` belongs to the circle obstacle: it lies within the circle's
/// reach of the centre cell and one of its four corners lies within `radius`
/// of the centre.
pub open spec fn circle_marks(cell_size: int, cx: int, cy: int, radius: int, i: int, j: int) -> bool {
    &&& in_reach(i, cx, radius, cell_size)
    &&& in_reach(j, cy, radius, cell_size)
    &&& any_corner_within(cell_size, i, j, cx, cy, radius)
}

/// Whether one of the four corners of grid cell `(grid_x, grid_y)` lies
/// within `radius` of `(center_x, center_y)`.
pub fn is_cell_in_circle(
    grid: &Grid,
    grid_x: usize,
    grid_y: usize,
    center_x: i32,
    center_y: i32,
    radius: i32,
) -> (inside: bool)
    requires
        grid.shape(),
        grid_x < grid.cells_x,
        grid_y < grid.cells_y,
    ensures
        inside == any_corner_within(
            grid.cell_size as int,
            grid_x as int,
            grid_y as int,
            center_x as int,
            center_y as int,
            radius as int,
        ),
{
    let (left, bottom) = grid.grid_to_world_coordinate(grid_x, grid_y);
    let (right, top) = grid.grid_to_world_coordinate(grid_x + 1, grid_y + 1);
    let l: i128 = left as i128 - center_x as i128;
    let r: i128 = right as i128 - center_x as i128;
    let b: i128 = bottom as i128 - center_y as i128;
    let t: i128 = top as i128 - center_y as i128;
    within_distance(l, b, radius as i64) || within_distance(r, b, radius as i64) || within_distance(
        r,
        t,
        radius as i64,
    ) || within_distance(l, t, radius as i64)
}

/// Marks the cells of a circle as obstacles: every cell with a corner in the
/// circle.
#[verifier::loop_isolation(false)]
pub fn apply_circle_obstacle(grid: &mut Grid, center_x: i32, center_y: i32, radius: i32)
    requires
        old(grid).wf(),
    ensures
        final(grid).wf(),
        final(grid).same_frame(old(grid)),
        old(grid).keeps_obstacles(final(grid)),
        forall|i: int, j: int|
            old(grid).in_bounds(i, j) ==> #[trigger] final(grid).cell(i, j) == (if circle_marks(
                old(grid).cell_size as int,
                center_x as int,
                center_y as int,
                radius as int,
                i,
                j,
            ) {
                Cell::Obstacle
            } else {
                old(grid).cell(i, j)
            }),
{
    let cell_size = grid.get_cell_size();
    let grid_center_x = cell_index_of(center_x, cell_size);
    let grid_center_y = cell_index_of(center_y, cell_size);
    let grid_radius = scan_reach_of(radius, cell_size);
    let (x_lo, x_hi) = scan_range(grid_center_x, grid_radius, grid.cells_x);
    let (y_lo, y_hi) = scan_range(grid_center_y, grid_radius, grid.cells_y);
    let mut i = x_lo;
    while i < x_hi
        invariant
            x_lo <= i <= x_hi,
            grid.wf(),
            grid.same_frame(old(grid)),
            forall|a: int, b: int|
                grid.in_bounds(a, b) ==> #[trigger] grid.cell(a, b) == (if x_lo <= a < i && y_lo <= b
                    < y_hi && any_corner_within(
                    cell_size as int,
                    a,
                    b,
                    center_x as int,
                    center_y as int,
                    radius as int,
                ) {
                    Cell::Obstacle
                } else {
                    old(grid).cell(a, b)
                }),
        decreases x_hi - i,
    {
        let mut j = y_lo;
        while j < y_hi
            invariant
                x_lo <= i < x_hi,
                y_lo <= j <= y_hi,
                grid.wf(),
                grid.same_frame(old(grid)),
                forall|a: int, b: int|
                    grid.in_bounds(a, b) ==> #[trigger] grid.cell(a, b) == (if ((x_lo <= a < i && y_lo
                        <= b < y_hi) || (a == i && y_lo <= b < j)) && any_corner_within(
                        cell_size as int,
                        a,
                        b,
                        center_x as int,
                        center_y as int,
                        radius as int,
                    ) {
                        Cell::Obstacle
                    } else {
                        old(grid).cell(a, b)
                    }),
            decreases y_hi - j,
        {
            if is_cell_in_circle(grid, i, j, center_x, center_y, radius) {
                grid.set_cell(i, j, Cell::Obstacle);
            }
            j += 1;
        }
        i += 1;
    }
    proof {
        assert forall|a: int, b: int| old(grid).in_bounds(a, b) implies #[trigger] grid.cell(a, b) == (
        if circle_marks(cell_size as int, center_x as int, center_y as int, radius as int, a, b) {
            Cell::Obstacle
        } else {
            old(grid).cell(a, b)
        }) by {
            assert((x_lo <= a < x_hi) == clipped(
                a,
                grid_center_x as int,
                grid_radius as int,
                grid.cells_x as int,
            ));
            assert((y_lo <= b < y_hi) == clipped(
                b,
                grid_center_y as int,
                grid_radius as int,
                grid.cells_y as int,
            ));
        }
    }
}

} // verus!
