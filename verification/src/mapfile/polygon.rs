use crate::geometry::cell_index;
use crate::geometry::cell_index_of;
use crate::geometry::clip_span;
use crate::geometry::spanned;
use crate::model::grid::Cell;
use crate::model::grid::Grid;
use crate::vector::Vector;
use vstd::prelude::*;

verus! {

/// The horizontal ray from `(x, y)` towards larger x crosses the edge from
/// `(xi, yi)` to `(xj, yj)`: the edge's ends lie on different sides of the
/// ray's line (an end on the line counts as below), and the point lies
/// strictly left of the edge at the height `y`. The comparison is exact.
pub open spec fn edge_crosses(xi: int, yi: int, xj: int, yj: int, x: int, y: int) -> bool {
    (yi > y) != (yj > y) && if yj > yi {
        (x - xi) * (yj - yi) < (xj - xi) * (y - yi)
    } else {
        (x - xi) * (yj - yi) > (xj - xi) * (y - yi)
    }
}

/// The vertex before vertex `i`, the last one for the first.
pub open spec fn previous_vertex(polygon: Seq<Vector>, i: int) -> Vector {
    if i == 0 {
        polygon[polygon.len() - 1]
    } else {
        polygon[i - 1]
    }
}

/// How many of the first `k` edges the ray from the point `(x2 / 2, y2 / 2)`
/// crosses. Edge `i` runs from vertex `i` to the vertex before it.
pub open spec fn crossings(polygon: Seq<Vector>, x2: int, y2: int, k: nat) -> nat
    decreases k,
{
    if k == 0 {
        0
    } else {
        let i = k - 1;
        let here = polygon[i];
        let before = previous_vertex(polygon, i);
        crossings(polygon, x2, y2, (k - 1) as nat) + if edge_crosses(
            2 * here.x,
            2 * here.y,
            2 * before.x,
            2 * before.y,
            x2,
            y2,
        ) {
            1nat
        } else {
            0nat
        }
    }
}

/// The point `(x2 / 2, y2 / 2)` lies inside the polygon by the even-odd rule:
/// its ray crosses an odd number of edges.
pub open spec fn point_inside(polygon: Seq<Vector>, x2: int, y2: int) -> bool {
    crossings(polygon, x2, y2, polygon.len()) % 2 == 1
}

/// Smallest x (`axis` 0) or y (other `axis`) among the first `n` vertices.
pub open spec fn least_coordinate(polygon: Seq<Vector>, axis: int, n: nat) -> int
    decreases n,
{
    let v = if axis == 0 {
        polygon[n - 1].x as int
    } else {
        polygon[n - 1].y as int
    };
    if n <= 1 {
        v
    } else {
        let rest = least_coordinate(polygon, axis, (n - 1) as nat);
        if v < rest {
            v
        } else {
            rest
        }
    }
}

/// Largest x (`axis` 0) or y (other `axis`) among the first `n` vertices.
pub open spec fn greatest_coordinate(polygon: Seq<Vector>, axis: int, n: nat) -> int
    decreases n,
{
    let v = if axis == 0 {
        polygon[n - 1].x as int
    } else {
        polygon[n - 1].y as int
    };
    if n <= 1 {
        v
    } else {
        let rest = greatest_coordinate(polygon, axis, (n - 1) as nat);
        if v > rest {
            v
        } else {
            rest
        }
    }
}

/// Index `i` is a candidate along one axis: from one cell before the cell of
/// the polygon's least coordinate up to the cell of its greatest coordinate.
pub open spec fn candidate(cell_size: int, polygon: Seq<Vector>, axis: int, i: int) -> bool {
    cell_index(least_coordinate(polygon, axis, polygon.len()), cell_size) - 1 <= i <= cell_index(
        greatest_coordinate(polygon, axis, polygon.len()),
        cell_size,
    )
}

/// Cell `(i, j)` belongs to the polygon obstacle: it is a candidate along both
/// axes and its centre lies inside the polygon.
pub open spec fn polygon_marks(cell_size: int, polygon: Seq<Vector>, i: int, j: int) -> bool {
    &&& candidate(cell_size, polygon, 0, i)
    &&& candidate(cell_size, polygon, 1, j)
    &&& point_inside(polygon, 2 * i * cell_size + cell_size, 2 * j * cell_size + cell_size)
}

/// Even-odd test by ray casting. `x2` and `y2` are twice the coordinates of
/// the point, so that the centre of a cell can be asked for exactly.
pub fn point_in_polygon(x2: i64, y2: i64, polygon: &[Vector]) -> (inside: bool)
    requires
        polygon@.len() > 0,
    ensures
        inside == point_inside(polygon@, x2 as int, y2 as int),
{
    let n = polygon.len();
    let mut inside = false;
    let mut j = n - 1;
    let mut i: usize = 0;
    while i < n
        invariant
            n == polygon@.len(),
            0 <= i <= n,
            j < n,
            i < n ==> polygon@[j as int] == previous_vertex(polygon@, i as int),
            inside == (crossings(polygon@, x2 as int, y2 as int, i as nat) % 2 == 1),
        decreases n - i,
    {
        let xi: i128 = 2 * (polygon[i].x as i128);
        let yi: i128 = 2 * (polygon[i].y as i128);
        let xj: i128 = 2 * (polygon[j].x as i128);
        let yj: i128 = 2 * (polygon[j].y as i128);
        let x: i128 = x2 as i128;
        let y: i128 = y2 as i128;
        if (yi > y) != (yj > y) {
            let a: i128 = x - xi;
            let b: i128 = yj - yi;
            let c: i128 = xj - xi;
            let d: i128 = y - yi;
            assert(-0x2_0000_0000_0000_0000 * 0x4_0000_0000 <= a * b <= 0x2_0000_0000_0000_0000
                * 0x4_0000_0000) by (nonlinear_arith)
                requires
                    -0x2_0000_0000_0000_0000 <= a <= 0x2_0000_0000_0000_0000,
                    -0x4_0000_0000 <= b <= 0x4_0000_0000,
            ;
            assert(-0x2_0000_0000_0000_0000 * 0x4_0000_0000 <= c * d <= 0x2_0000_0000_0000_0000
                * 0x4_0000_0000) by (nonlinear_arith)
                requires
                    -0x2_0000_0000_0000_0000 <= d <= 0x2_0000_0000_0000_0000,
                    -0x4_0000_0000 <= c <= 0x4_0000_0000,
            ;
            let left: i128 = a * b;
            let right: i128 = c * d;
            let crosses = if yj > yi {
                left < right
            } else {
                left > right
            };
            if crosses {
                inside = !inside;
            }
        }
        j = i;
        i += 1;
    }
    inside
}

/// The axis-aligned bounding box of the vertices, as `(min_x, max_x, min_y, max_y)`.
pub fn get_polygon_bounds(points: &[Vector]) -> (b: (i32, i32, i32, i32))
    requires
        points@.len() > 0,
    ensures
        b.0 == least_coordinate(points@, 0, points@.len()),
        b.1 == greatest_coordinate(points@, 0, points@.len()),
        b.2 == least_coordinate(points@, 1, points@.len()),
        b.3 == greatest_coordinate(points@, 1, points@.len()),
{
    let mut min_x = points[0].x;
    let mut max_x = points[0].x;
    let mut min_y = points[0].y;
    let mut max_y = points[0].y;
    let mut k: usize = 1;
    while k < points.len()
        invariant
            1 <= k <= points@.len(),
            min_x == least_coordinate(points@, 0, k as nat),
            max_x == greatest_coordinate(points@, 0, k as nat),
            min_y == least_coordinate(points@, 1, k as nat),
            max_y == greatest_coordinate(points@, 1, k as nat),
        decreases points@.len() - k,
    {
        let p = points[k];
        if p.x < min_x {
            min_x = p.x;
        }
        if p.x > max_x {
            max_x = p.x;
        }
        if p.y < min_y {
            min_y = p.y;
        }
        if p.y > max_y {
            max_y = p.y;
        }
        k += 1;
    }
    (min_x, max_x, min_y, max_y)
}

/// Whether the centre of grid cell `(grid_x, grid_y)` lies inside the polygon.
pub fn is_cell_in_polygon(grid: &Grid, grid_x: usize, grid_y: usize, points: &[Vector]) -> (inside:
    bool)
    requires
        grid.shape(),
        grid_x < grid.cells_x,
        grid_y < grid.cells_y,
        points@.len() > 0,
    ensures
        inside == point_inside(
            points@,
            2 * grid_x * grid.cell_size + grid.cell_size,
            2 * grid_y * grid.cell_size + grid.cell_size,
        ),
{
    let (cell_x, cell_y) = grid.grid_to_world_coordinate(grid_x, grid_y);
    let center_x2: i64 = 2 * (cell_x as i64) + grid.cell_size as i64;
    let center_y2: i64 = 2 * (cell_y as i64) + grid.cell_size as i64;
    assert(2 * (grid_x * grid.cell_size) == 2 * grid_x * grid.cell_size && 2 * (grid_y
        * grid.cell_size) == 2 * grid_y * grid.cell_size) by (nonlinear_arith);
    point_in_polygon(center_x2, center_y2, points)
}

/// Marks the cells of a polygon as obstacles: every candidate cell whose
/// centre lies inside the polygon. A polygon of fewer than three vertices
/// marks nothing, and `false` is returned.
#[verifier::loop_isolation(false)]
pub fn apply_polygon_obstacle(grid: &mut Grid, points: &[Vector]) -> (applied: bool)
    requires
        old(grid).wf(),
    ensures
        applied == (points@.len() >= 3),
        final(grid).wf(),
        final(grid).same_frame(old(grid)),
        old(grid).keeps_obstacles(final(grid)),
        forall|i: int, j: int|
            old(grid).in_bounds(i, j) ==> #[trigger] final(grid).cell(i, j) == (if applied
                && polygon_marks(old(grid).cell_size as int, points@, i, j) {
                Cell::Obstacle
            } else {
                old(grid).cell(i, j)
            }),
{
    if points.len() < 3 {
        return false;
    }
    let (min_x, max_x, min_y, max_y) = get_polygon_bounds(points);
    let cell_size = grid.get_cell_size();
    let (x_lo, x_hi) = clip_span(
        cell_index_of(min_x, cell_size) as i64 - 1,
        cell_index_of(max_x, cell_size) as i64 + 1,
        grid.cells_x,
    );
    let (y_lo, y_hi) = clip_span(
        cell_index_of(min_y, cell_size) as i64 - 1,
        cell_index_of(max_y, cell_size) as i64 + 1,
        grid.cells_y,
    );
    let mut grid_y = y_lo;
    while grid_y < y_hi
        invariant
            y_lo <= grid_y <= y_hi,
            grid.wf(),
            grid.same_frame(old(grid)),
            forall|a: int, b: int|
                grid.in_bounds(a, b) ==> #[trigger] grid.cell(a, b) == (if x_lo <= a < x_hi && y_lo
                    <= b < grid_y && point_inside(
                    points@,
                    2 * a * cell_size + cell_size,
                    2 * b * cell_size + cell_size,
                ) {
                    Cell::Obstacle
                } else {
                    old(grid).cell(a, b)
                }),
        decreases y_hi - grid_y,
    {
        let mut grid_x = x_lo;
        while grid_x < x_hi
            invariant
                y_lo <= grid_y < y_hi,
                x_lo <= grid_x <= x_hi,
                grid.wf(),
                grid.same_frame(old(grid)),
                forall|a: int, b: int|
                    grid.in_bounds(a, b) ==> #[trigger] grid.cell(a, b) == (if ((x_lo <= a < x_hi
                        && y_lo <= b < grid_y) || (b == grid_y && x_lo <= a < grid_x))
                        && point_inside(
                        points@,
                        2 * a * cell_size + cell_size,
                        2 * b * cell_size + cell_size,
                    ) {
                        Cell::Obstacle
                    } else {
                        old(grid).cell(a, b)
                    }),
            decreases x_hi - grid_x,
        {
            if is_cell_in_polygon(grid, grid_x, grid_y, points) {
                grid.set_cell(grid_x, grid_y, Cell::Obstacle);
            }
            grid_x += 1;
        }
        grid_y += 1;
    }
    proof {
        assert forall|a: int, b: int| old(grid).in_bounds(a, b) implies #[trigger] grid.cell(a, b) == (
        if polygon_marks(cell_size as int, points@, a, b) {
            Cell::Obstacle
        } else {
            old(grid).cell(a, b)
        }) by {
            assert((x_lo <= a < x_hi) == spanned(
                a,
                cell_index(min_x as int, cell_size as int) - 1,
                cell_index(max_x as int, cell_size as int) + 1,
                grid.cells_x as int,
            ));
            assert((y_lo <= b < y_hi) == spanned(
                b,
                cell_index(min_y as int, cell_size as int) - 1,
                cell_index(max_y as int, cell_size as int) + 1,
                grid.cells_y as int,
            ));
        }
    }
    true
}

} // verus!
