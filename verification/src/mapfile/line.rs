use crate::geometry::clamp_coordinate;
use crate::geometry::clamp_to_coordinate;
use crate::geometry::div_toward_zero;
use crate::geometry::isqrt;
use crate::geometry::isqrt_of;
use crate::mapfile::polygon::apply_polygon_obstacle;
use crate::mapfile::polygon::polygon_marks;
use crate::model::grid::Cell;
use crate::model::grid::Grid;
use crate::vector::Vector;
use vstd::prelude::*;

verus! {

/// The point `(x, y)` with each coordinate limited to the coordinate range.
pub open spec fn clamped_point(x: int, y: int) -> Vector {
    Vector { x: clamp_coordinate(x) as i32, y: clamp_coordinate(y) as i32 }
}

/// The factor by which a segment is widened before its length is taken, for
/// the sake of precision.
pub const LENGTH_SCALE: i64 = 1_048_576;

/// The outline of a line segment of width `2 * half_width`: the rectangle
/// whose long sides run parallel to the segment, `half_width` away from it on
/// either side. The offset is the segment's normal scaled to `half_width`,
/// each component rounded towards zero: the component of the normal times
/// `half_width` times `LENGTH_SCALE`, divided by the length of the segment
/// widened by `LENGTH_SCALE`, that length being an integer square root. A
/// segment of length zero gives the square of side `2 * half_width` around its
/// point.
pub open spec fn line_polygon(start: Vector, end: Vector, half_width: int) -> Seq<Vector> {
    let dx = (end.x - start.x) * LENGTH_SCALE;
    let dy = (end.y - start.y) * LENGTH_SCALE;
    let length = isqrt(dx * dx + dy * dy);
    if length == 0 {
        seq![
            clamped_point(start.x - half_width, start.y - half_width),
            clamped_point(start.x + half_width, start.y - half_width),
            clamped_point(start.x + half_width, start.y + half_width),
            clamped_point(start.x - half_width, start.y + half_width),
        ]
    } else {
        let perp_x = div_toward_zero(-dy * half_width, length);
        let perp_y = div_toward_zero(dx * half_width, length);
        seq![
            clamped_point(start.x + perp_x, start.y + perp_y),
            clamped_point(start.x - perp_x, start.y - perp_y),
            clamped_point(end.x - perp_x, end.y - perp_y),
            clamped_point(end.x + perp_x, end.y + perp_y),
        ]
    }
}

/// Cell `(i, j)` belongs to the outline of segment `k` of the line.
pub open spec fn segment_marks(
    cell_size: int,
    points: Seq<Vector>,
    width: int,
    k: int,
    i: int,
    j: int,
) -> bool {
    polygon_marks(
        cell_size,
        line_polygon(points[k], points[k + 1], div_toward_zero(width, 2)),
        i,
        j,
    )
}

/// Cell `(i, j)` belongs to the outline of one of the first `upto` segments.
pub open spec fn line_marks(
    cell_size: int,
    points: Seq<Vector>,
    width: int,
    upto: int,
    i: int,
    j: int,
) -> bool {
    exists|k: int| 0 <= k < upto && #[trigger] segment_marks(cell_size, points, width, k, i, j)
}

/// The outline of a line segment as a polygon of four vertices.
pub fn create_line_polygon(start: Vector, end: Vector, half_width: i32) -> (outline: Vec<Vector>)
    ensures
        outline@ == line_polygon(start, end, half_width as int),
        outline@.len() == 4,
{
    let dx: i128 = (end.x as i128 - start.x as i128) * LENGTH_SCALE as i128;
    let dy: i128 = (end.y as i128 - start.y as i128) * LENGTH_SCALE as i128;
    let hw: i128 = half_width as i128;
    assert(0 <= dx * dx <= 0x10_0000_0000_0000 * 0x10_0000_0000_0000 && 0 <= dy * dy
        <= 0x10_0000_0000_0000 * 0x10_0000_0000_0000) by (nonlinear_arith)
        requires
            -0x10_0000_0000_0000 <= dx <= 0x10_0000_0000_0000,
            -0x10_0000_0000_0000 <= dy <= 0x10_0000_0000_0000,
    ;
    let length: i128 = isqrt_of((dx * dx + dy * dy) as u128) as i128;
    let mut outline: Vec<Vector> = Vec::new();
    if length == 0 {
        outline.push(
            Vector {
                x: clamp_to_coordinate(start.x as i64 - half_width as i64),
                y: clamp_to_coordinate(start.y as i64 - half_width as i64),
            },
        );
        outline.push(
            Vector {
                x: clamp_to_coordinate(start.x as i64 + half_width as i64),
                y: clamp_to_coordinate(start.y as i64 - half_width as i64),
            },
        );
        outline.push(
            Vector {
                x: clamp_to_coordinate(start.x as i64 + half_width as i64),
                y: clamp_to_coordinate(start.y as i64 + half_width as i64),
            },
        );
        outline.push(
            Vector {
                x: clamp_to_coordinate(start.x as i64 - half_width as i64),
                y: clamp_to_coordinate(start.y as i64 + half_width as i64),
            },
        );
        assert(outline@ =~= line_polygon(start, end, half_width as int));
        return outline;
    }
    assert(-0x10_0000_0000_0000 * 0x8000_0000 <= -dy * hw <= 0x10_0000_0000_0000 * 0x8000_0000
        && -0x10_0000_0000_0000 * 0x8000_0000 <= dx * hw <= 0x10_0000_0000_0000 * 0x8000_0000)
        by (nonlinear_arith)
        requires
            -0x10_0000_0000_0000 <= dx <= 0x10_0000_0000_0000,
            -0x10_0000_0000_0000 <= dy <= 0x10_0000_0000_0000,
            -0x8000_0000 <= hw <= 0x8000_0000,
    ;
    let numerator_x: i128 = -dy * hw;
    let numerator_y: i128 = dx * hw;
    let wide_x: i128 = numerator_x / length;
    let wide_y: i128 = numerator_y / length;
    assert(-length <= dx <= length && -length <= dy <= length) by (nonlinear_arith)
        requires
            dx * dx + dy * dy < (length + 1) * (length + 1),
            length >= 0,
    ;
    assert(-0x8000_0000 <= wide_x <= 0x8000_0000 && -0x8000_0000 <= wide_y <= 0x8000_0000)
        by (nonlinear_arith)
        requires
            wide_x == div_toward_zero(numerator_x as int, length as int),
            wide_y == div_toward_zero(numerator_y as int, length as int),
            numerator_x == -dy * hw,
            numerator_y == dx * hw,
            length >= 1,
            -length <= dx <= length,
            -length <= dy <= length,
            -0x8000_0000 <= hw <= 0x8000_0000,
    ;
    let perp_x: i64 = wide_x as i64;
    let perp_y: i64 = wide_y as i64;
    outline.push(
        Vector {
            x: clamp_to_coordinate(start.x as i64 + perp_x),
            y: clamp_to_coordinate(start.y as i64 + perp_y),
        },
    );
    outline.push(
        Vector {
            x: clamp_to_coordinate(start.x as i64 - perp_x),
            y: clamp_to_coordinate(start.y as i64 - perp_y),
        },
    );
    outline.push(
        Vector {
            x: clamp_to_coordinate(end.x as i64 - perp_x),
            y: clamp_to_coordinate(end.y as i64 - perp_y),
        },
    );
    outline.push(
        Vector {
            x: clamp_to_coordinate(end.x as i64 + perp_x),
            y: clamp_to_coordinate(end.y as i64 + perp_y),
        },
    );
    assert(outline@ =~= line_polygon(start, end, half_width as int));
    outline
}

/// Marks the cells of a line of the given width as obstacles, one outline per
/// pair of consecutive points. A line of fewer than two points marks nothing,
/// and `false` is returned.
pub fn apply_line_obstacle(grid: &mut Grid, points: &[Vector], width: i32) -> (applied: bool)
    requires
        old(grid).wf(),
    ensures
        applied == (points@.len() >= 2),
        final(grid).wf(),
        final(grid).same_frame(old(grid)),
        old(grid).keeps_obstacles(final(grid)),
        forall|i: int, j: int|
            old(grid).in_bounds(i, j) ==> #[trigger] final(grid).cell(i, j) == (if applied
                && line_marks(
                old(grid).cell_size as int,
                points@,
                width as int,
                points@.len() - 1,
                i,
                j,
            ) {
                Cell::Obstacle
            } else {
                old(grid).cell(i, j)
            }),
{
    if points.len() < 2 {
        return false;
    }
    let half_width = width / 2;
    let ghost cell_size = grid.cell_size as int;
    let mut k: usize = 0;
    while k < points.len() - 1
        invariant
            points@.len() >= 2,
            0 <= k <= points@.len() - 1,
            half_width == div_toward_zero(width as int, 2),
            cell_size == grid.cell_size,
            grid.wf(),
            grid.same_frame(old(grid)),
            forall|i: int, j: int|
                grid.in_bounds(i, j) ==> #[trigger] grid.cell(i, j) == (if line_marks(
                    cell_size,
                    points@,
                    width as int,
                    k as int,
                    i,
                    j,
                ) {
                    Cell::Obstacle
                } else {
                    old(grid).cell(i, j)
                }),
        decreases points@.len() - k,
    {
        let start = points[k];
        let end = points[k + 1];
        let line_polygon = create_line_polygon(start, end, half_width);
        let ghost before = *grid;
        apply_polygon_obstacle(grid, line_polygon.as_slice());
        proof {
            assert forall|i: int, j: int| grid.in_bounds(i, j) implies #[trigger] grid.cell(i, j) == (
            if line_marks(cell_size, points@, width as int, k + 1, i, j) {
                Cell::Obstacle
            } else {
                old(grid).cell(i, j)
            }) by {
                assert(before.in_bounds(i, j));
                let here = segment_marks(cell_size, points@, width as int, k as int, i, j);
                assert(here == polygon_marks(cell_size, line_polygon@, i, j));
                let earlier = line_marks(cell_size, points@, width as int, k as int, i, j);
                assert(before.cell(i, j) == (if earlier {
                    Cell::Obstacle
                } else {
                    old(grid).cell(i, j)
                }));
                if line_marks(cell_size, points@, width as int, k + 1, i, j) {
                    let w = choose|w: int|
                        0 <= w < k + 1 && #[trigger] segment_marks(
                            cell_size,
                            points@,
                            width as int,
                            w,
                            i,
                            j,
                        );
                    if w < k {
                        assert(earlier);
                    } else {
                        assert(here);
                    }
                } else {
                    assert(!here);
                    if earlier {
                        let w = choose|w: int|
                            0 <= w < k && #[trigger] segment_marks(
                                cell_size,
                                points@,
                                width as int,
                                w,
                                i,
                                j,
                            );
                        assert(segment_marks(cell_size, points@, width as int, w, i, j));
                    }
                }
            }
        }
        k += 1;
    }
    true
}

} // verus!
