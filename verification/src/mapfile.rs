use crate::mapfile::circle::apply_circle_obstacle;
use crate::mapfile::circle::circle_marks;
use crate::mapfile::line::apply_line_obstacle;
use crate::mapfile::line::line_marks;
use crate::mapfile::polygon::apply_polygon_obstacle;
use crate::mapfile::polygon::polygon_marks;
use crate::mapfile::rectangle::apply_rectangle_obstacle;
use crate::mapfile::rectangle::rectangle_marks;
use crate::model::grid::Cell;
use crate::model::grid::Grid;
use crate::vector::Vector;
use vstd::prelude::*;

pub mod circle;
pub mod line;
pub mod polygon;
pub mod rectangle;

verus! {

/// A map: a named list of obstacles, with the size of the area if the map
/// prescribes it.
#[derive(Debug)]
pub struct MapFile {
    pub name: String,
    pub description: Option<String>,
    pub grid: Option<GridConfig>,
    pub obstacles: Vec<ObstacleType>,
}

/// Size of the area in world units, where a map prescribes it.
#[derive(Debug, Clone, Copy)]
pub struct GridConfig {
    pub width: Option<i32>,
    pub height: Option<i32>,
}

/// An obstacle as a vector shape, all lengths in world units.
#[derive(Debug)]
pub enum ObstacleType {
    Rectangle { x: i32, y: i32, width: i32, height: i32, name: Option<String> },
    Circle { x: i32, y: i32, radius: i32, name: Option<String> },
    Polygon { points: Vec<Vector>, name: Option<String> },
    Line { points: Vec<Vector>, width: i32, name: Option<String> },
}

impl ObstacleType {
    /// Cell `(i, j)` of a grid with the given cell size belongs to the obstacle.
    pub open spec fn marks(self, cell_size: int, i: int, j: int) -> bool {
        match self {
            ObstacleType::Rectangle { x, y, width, height, .. } => rectangle_marks(
                cell_size,
                x as int,
                y as int,
                width as int,
                height as int,
                i,
                j,
            ),
            ObstacleType::Circle { x, y, radius, .. } => circle_marks(
                cell_size,
                x as int,
                y as int,
                radius as int,
                i,
                j,
            ),
            ObstacleType::Polygon { points, .. } => points@.len() >= 3 && polygon_marks(
                cell_size,
                points@,
                i,
                j,
            ),
            ObstacleType::Line { points, width, .. } => points@.len() >= 2 && line_marks(
                cell_size,
                points@,
                width as int,
                points@.len() - 1,
                i,
                j,
            ),
        }
    }

    /// The shape has too few points to be drawn: a polygon needs three, a line two.
    pub open spec fn degenerate(self) -> bool {
        match self {
            ObstacleType::Polygon { points, .. } => points@.len() < 3,
            ObstacleType::Line { points, .. } => points@.len() < 2,
            _ => false,
        }
    }
}

/// Cell `(i, j)` belongs to one of the first `upto` obstacles.
pub open spec fn obstacles_mark(
    obstacles: Seq<ObstacleType>,
    cell_size: int,
    upto: int,
    i: int,
    j: int,
) -> bool {
    exists|k: int| 0 <= k < upto && (#[trigger] obstacles[k]).marks(cell_size, i, j)
}

/// How many of the first `upto` obstacles are degenerate.
pub open spec fn degenerate_count(obstacles: Seq<ObstacleType>, upto: nat) -> nat
    decreases upto,
{
    if upto == 0 {
        0
    } else {
        degenerate_count(obstacles, (upto - 1) as nat) + if obstacles[upto - 1].degenerate() {
            1nat
        } else {
            0nat
        }
    }
}

/// There are no more degenerate obstacles than obstacles.
pub proof fn lemma_degenerate_count_bound(obstacles: Seq<ObstacleType>, upto: nat)
    ensures
        degenerate_count(obstacles, upto) <= upto,
    decreases upto,
{
    if upto > 0 {
        lemma_degenerate_count_bound(obstacles, (upto - 1) as nat);
    }
}

/// Marks the obstacles of a map on the grid, in the order of the map. Returns
/// the number of shapes that had too few points and were passed over.
pub fn apply_obstacles_to_grid(grid: &mut Grid, map: &MapFile) -> (skipped: usize)
    requires
        old(grid).wf(),
    ensures
        final(grid).wf(),
        final(grid).same_frame(old(grid)),
        old(grid).keeps_obstacles(final(grid)),
        forall|i: int, j: int|
            old(grid).in_bounds(i, j) ==> #[trigger] final(grid).cell(i, j) == (if obstacles_mark(
                map.obstacles@,
                old(grid).cell_size as int,
                map.obstacles@.len() as int,
                i,
                j,
            ) {
                Cell::Obstacle
            } else {
                old(grid).cell(i, j)
            }),
        skipped == degenerate_count(map.obstacles@, map.obstacles@.len()),
{
    let ghost cell_size = grid.cell_size as int;
    let ghost obstacles = map.obstacles@;
    let mut skipped: usize = 0;
    let mut n: usize = 0;
    while n < map.obstacles.len()
        invariant
            0 <= n <= obstacles.len(),
            obstacles == map.obstacles@,
            cell_size == grid.cell_size,
            grid.wf(),
            grid.same_frame(old(grid)),
            skipped == degenerate_count(obstacles, n as nat),
            forall|i: int, j: int|
                grid.in_bounds(i, j) ==> #[trigger] grid.cell(i, j) == (if obstacles_mark(
                    obstacles,
                    cell_size,
                    n as int,
                    i,
                    j,
                ) {
                    Cell::Obstacle
                } else {
                    old(grid).cell(i, j)
                }),
        decreases obstacles.len() - n,
    {
        let ghost before = *grid;
        proof {
            lemma_degenerate_count_bound(obstacles, n as nat);
        }
        let applied = match &map.obstacles[n] {
            ObstacleType::Rectangle { x, y, width, height, .. } => {
                apply_rectangle_obstacle(grid, *x, *y, *width, *height);
                true
            },
            ObstacleType::Circle { x, y, radius, .. } => {
                apply_circle_obstacle(grid, *x, *y, *radius);
                true
            },
            ObstacleType::Polygon { points, .. } => apply_polygon_obstacle(grid, points.as_slice()),
            ObstacleType::Line { points, width, .. } => apply_line_obstacle(
                grid,
                points.as_slice(),
                *width,
            ),
        };
        if !applied {
            skipped += 1;
        }
        proof {
            assert(applied == !obstacles[n as int].degenerate());
            assert forall|i: int, j: int| grid.in_bounds(i, j) implies #[trigger] grid.cell(i, j) == (
            if obstacles_mark(obstacles, cell_size, n + 1, i, j) {
                Cell::Obstacle
            } else {
                old(grid).cell(i, j)
            }) by {
                assert(before.in_bounds(i, j));
                let here = obstacles[n as int].marks(cell_size, i, j);
                let earlier = obstacles_mark(obstacles, cell_size, n as int, i, j);
                assert(grid.cell(i, j) == (if here {
                    Cell::Obstacle
                } else {
                    before.cell(i, j)
                }));
                if obstacles_mark(obstacles, cell_size, n + 1, i, j) {
                    let w = choose|w: int|
                        0 <= w < n + 1 && (#[trigger] obstacles[w]).marks(cell_size, i, j);
                    if w < n {
                        assert(earlier);
                    }
                } else {
                    if earlier {
                        let w = choose|w: int|
                            0 <= w < n && (#[trigger] obstacles[w]).marks(cell_size, i, j);
                        assert(obstacles[w].marks(cell_size, i, j));
                    }
                }
            }
        }
        n += 1;
    }
    skipped
}

} // verus!
