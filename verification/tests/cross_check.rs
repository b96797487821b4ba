//! The integer geometry of the library against the same geometry in floating
//! point, on inputs that floating point represents exactly.

use coverage_sim::mapfile::circle::apply_circle_obstacle;
use coverage_sim::mapfile::polygon::apply_polygon_obstacle;
use coverage_sim::mapfile::polygon::point_in_polygon;
use coverage_sim::mapfile::rectangle::apply_rectangle_obstacle;
use coverage_sim::model::cuttertype::CutterType;
use coverage_sim::model::grid::Cell;
use coverage_sim::model::grid::Grid;
use coverage_sim::model::quadtree::QuadTree;
use coverage_sim::model::quadtree::QuadTreeNode;
use coverage_sim::vector::Vector;
use rand::rngs::StdRng;
use rand::Rng;
use rand::SeedableRng;

fn cell_of(coordinate: f64, cell: f64) -> usize {
    (coordinate / cell).floor() as usize
}

fn covered_in_floats(
    center: (f64, f64),
    radius: f64,
    blade: f64,
    x: usize,
    y: usize,
    cell: f64,
    ring: bool,
) -> bool {
    let corners = [
        (x as f64 * cell, y as f64 * cell),
        (x as f64 * cell + cell, y as f64 * cell),
        (x as f64 * cell, y as f64 * cell + cell),
        (x as f64 * cell + cell, y as f64 * cell + cell),
    ];
    let square = |(px, py): (f64, f64)| (px - center.0).powi(2) + (py - center.1).powi(2);
    let within = corners.iter().all(|c| square(*c) <= radius * radius);
    let beyond = corners.iter().all(|c| square(*c) >= (radius - blade) * (radius - blade));
    within && (!ring || beyond)
}

fn obstacles_of(grid: &Grid) -> Vec<Vec<bool>> {
    let (cells_x, cells_y) = grid.get_numcells();
    (0..cells_x)
        .map(|x| (0..cells_y).map(|y| grid.get_cell(x, y).unwrap().is_obstacle()).collect())
        .collect()
}

#[test]
fn cells_of_coordinates_agree() {
    let mut rng = StdRng::seed_from_u64(1);
    for _ in 0..2000 {
        let cell: i32 = rng.random_range(1..=50);
        let coordinate: i32 = rng.random_range(-200..=5000);
        let grid = Grid::new(4, 4, cell);
        assert_eq!(grid.world_coordinate_to_grid_x(coordinate), cell_of(coordinate as f64, cell as f64));
    }
}

#[test]
fn covered_cells_agree() {
    let mut rng = StdRng::seed_from_u64(2);
    for round in 0..300 {
        let cell: i32 = rng.random_range(1..=12);
        let cells: usize = rng.random_range(1..=24);
        let radius: i32 = rng.random_range(0..=60);
        let blade: i32 = rng.random_range(0..=radius);
        let extent = cell * cells as i32;
        let center = (rng.random_range(-20..=extent + 20), rng.random_range(-20..=extent + 20));
        let cutter = if round % 2 == 0 { CutterType::Circular } else { CutterType::Blade };
        let mut grid = Grid::new(cells, cells, cell);
        for x in 0..cells {
            for y in 0..cells {
                let expected = covered_in_floats(
                    (center.0 as f64, center.1 as f64),
                    radius as f64,
                    blade as f64,
                    x,
                    y,
                    cell as f64,
                    cutter == CutterType::Blade,
                );
                assert_eq!(
                    grid.is_cell_covered(&Vector::new(center.0, center.1), radius, blade, x, y, cutter),
                    expected
                );
            }
        }
        grid.mark_covered_cells(&Vector::new(center.0, center.1), radius, 0, blade, cutter, false);
        // the pass walks the cells within reach of the centre cell
        let reach = (radius as f64 / cell as f64).ceil() as i64;
        let cx = cell_of(center.0 as f64, cell as f64) as i64;
        let cy = cell_of(center.1 as f64, cell as f64) as i64;
        for x in 0..cells {
            for y in 0..cells {
                let near = (x as i64 - cx).abs() <= reach && (y as i64 - cy).abs() <= reach;
                let expected = near
                    && covered_in_floats(
                        (center.0 as f64, center.1 as f64),
                        radius as f64,
                        blade as f64,
                        x,
                        y,
                        cell as f64,
                        cutter == CutterType::Blade,
                    );
                assert_eq!(*grid.get_cell(x, y).unwrap() != Cell::Empty, expected);
            }
        }
    }
}

#[test]
fn rectangles_agree() {
    let mut rng = StdRng::seed_from_u64(3);
    for _ in 0..500 {
        let cell: i32 = rng.random_range(1..=12);
        let cells: usize = rng.random_range(1..=20);
        let (x, y) = (rng.random_range(-30..=260), rng.random_range(-30..=260));
        let (width, height) = (rng.random_range(-5..=120), rng.random_range(-5..=120));
        let mut grid = Grid::new(cells, cells, cell);
        apply_rectangle_obstacle(&mut grid, x, y, width, height);
        let first_x = cell_of(x as f64, cell as f64);
        let first_y = cell_of(y as f64, cell as f64);
        let across = (width as f64 / cell as f64).ceil() as usize;
        let up = (height as f64 / cell as f64).ceil() as usize;
        let marked = obstacles_of(&grid);
        for i in 0..cells {
            for j in 0..cells {
                let expected = (first_x..first_x + across).contains(&i)
                    && (first_y..first_y + up).contains(&j);
                assert_eq!(marked[i][j], expected);
            }
        }
    }
}

#[test]
fn circles_agree() {
    let mut rng = StdRng::seed_from_u64(4);
    for _ in 0..500 {
        let cell: i32 = rng.random_range(1..=12);
        let cells: usize = rng.random_range(1..=20);
        let extent = cell * cells as i32;
        let (cx, cy) = (rng.random_range(-30..=extent + 30), rng.random_range(-30..=extent + 30));
        let radius: i32 = rng.random_range(-3..=80);
        let mut grid = Grid::new(cells, cells, cell);
        apply_circle_obstacle(&mut grid, cx, cy, radius);
        let reach = (radius as f64 / cell as f64).ceil() as i64;
        let centre_x = cell_of(cx as f64, cell as f64) as i64;
        let centre_y = cell_of(cy as f64, cell as f64) as i64;
        let marked = obstacles_of(&grid);
        for i in 0..cells {
            for j in 0..cells {
                let near = (i as i64 - centre_x).abs() <= reach && (j as i64 - centre_y).abs() <= reach;
                let corners = [(i, j), (i + 1, j), (i + 1, j + 1), (i, j + 1)];
                let touched = corners.iter().any(|(a, b)| {
                    let dx = *a as f64 * cell as f64 - cx as f64;
                    let dy = *b as f64 * cell as f64 - cy as f64;
                    dx * dx + dy * dy <= radius as f64 * radius as f64
                });
                assert_eq!(marked[i][j], near && touched);
            }
        }
    }
}

fn inside_in_floats(x: f64, y: f64, polygon: &[(f64, f64)]) -> bool {
    let mut inside = false;
    let mut j = polygon.len() - 1;
    for i in 0..polygon.len() {
        let (xi, yi) = polygon[i];
        let (xj, yj) = polygon[j];
        if ((yi > y) != (yj > y)) && (x < (xj - xi) * (y - yi) / (yj - yi) + xi) {
            inside = !inside;
        }
        j = i;
    }
    inside
}

#[test]
fn polygons_agree() {
    let mut rng = StdRng::seed_from_u64(5);
    for _ in 0..400 {
        // powers of two keep the divisions of the floating-point test exact
        let cell: i32 = 2 << rng.random_range(0..4);
        let cells: usize = rng.random_range(1..=16);
        let corners: usize = rng.random_range(3..=7);
        let points: Vec<Vector> = (0..corners)
            .map(|_| Vector::new(rng.random_range(-4..=40) * 8, rng.random_range(-4..=40) * 8))
            .collect();
        let floats: Vec<(f64, f64)> = points.iter().map(|p| (p.x as f64, p.y as f64)).collect();
        let mut grid = Grid::new(cells, cells, cell);
        assert!(apply_polygon_obstacle(&mut grid, &points));
        let marked = obstacles_of(&grid);
        for i in 0..cells {
            for j in 0..cells {
                let x = i as f64 * cell as f64 + cell as f64 / 2.0;
                let y = j as f64 * cell as f64 + cell as f64 / 2.0;
                // inside the polygon the centre lies within the candidates
                assert_eq!(marked[i][j], inside_in_floats(x, y, &floats));
                let x2 = 2 * i as i64 * cell as i64 + cell as i64;
                let y2 = 2 * j as i64 * cell as i64 + cell as i64;
                assert_eq!(point_in_polygon(x2, y2, &points), inside_in_floats(x, y, &floats));
            }
        }
    }
}

#[test]
fn collision_scans_agree() {
    let mut rng = StdRng::seed_from_u64(6);
    for _ in 0..300 {
        let cell: i32 = rng.random_range(1..=12);
        let cells: usize = rng.random_range(1..=20);
        let extent = cell * cells as i32;
        let mut grid = Grid::new(cells, cells, cell);
        for _ in 0..rng.random_range(0..6) {
            grid.set_cell(rng.random_range(0..cells), rng.random_range(0..cells), Cell::Obstacle);
        }
        let obstacles = obstacles_of(&grid);
        for _ in 0..20 {
            let (cx, cy) = (rng.random_range(-10..=extent + 10), rng.random_range(-10..=extent + 10));
            let radius: i32 = rng.random_range(-2..=40);
            let reach = (radius as f64 / cell as f64).ceil() as i64;
            let centre_x = cell_of(cx as f64, cell as f64) as i64;
            let centre_y = cell_of(cy as f64, cell as f64) as i64;
            let mut expected = false;
            for dx in -reach..=reach {
                for dy in -reach..=reach {
                    let (x, y) = (centre_x + dx, centre_y + dy);
                    if x >= 0 && y >= 0 && (x as usize) < cells && (y as usize) < cells {
                        expected = expected || obstacles[x as usize][y as usize];
                    }
                }
            }
            assert_eq!(grid.collision_with_obstacle(&Vector::new(cx, cy), radius), expected);
        }
    }
}

struct FloatNode {
    bounds: (f64, f64, f64, f64),
    has_obstacle: bool,
    children: Vec<FloatNode>,
}

fn build_in_floats(
    bounds: (f64, f64, f64, f64),
    obstacles: &Vec<Vec<bool>>,
    cell: f64,
    radius: f64,
    smallest: f64,
) -> FloatNode {
    let cells = obstacles.len();
    let (x, y, width, height) = bounds;
    let margin = (radius / cell).ceil() as usize;
    let start_x = (x / cell).floor() as usize;
    let start_y = (y / cell).floor() as usize;
    let end_x = ((x + width) / cell).ceil() as usize;
    let end_y = ((y + height) / cell).ceil() as usize;
    let mut has_obstacle = false;
    for j in start_y.saturating_sub(margin)..(end_y + margin).min(cells) {
        for i in start_x.saturating_sub(margin)..(end_x + margin).min(cells) {
            has_obstacle = has_obstacle || obstacles[i][j];
        }
    }
    let mut children = Vec::new();
    if has_obstacle && width > smallest {
        let (hw, hh) = (width / 2.0, height / 2.0);
        for quadrant in [(x, y), (x + hw, y), (x, y + hh), (x + hw, y + hh)] {
            children.push(build_in_floats(
                (quadrant.0, quadrant.1, hw, hh),
                obstacles,
                cell,
                radius,
                smallest,
            ));
        }
    }
    FloatNode { bounds, has_obstacle, children }
}

fn find_in_floats(node: &FloatNode, cx: f64, cy: f64, r: f64) -> Option<&FloatNode> {
    let (x, y, width, height) = node.bounds;
    if !(cx - r >= x && cx + r <= x + width && cy - r >= y && cy + r <= y + height) {
        return None;
    }
    for child in &node.children {
        if let Some(found) = find_in_floats(child, cx, cy, r) {
            return Some(found);
        }
    }
    Some(node)
}

fn same_tree(node: &QuadTreeNode, float: &FloatNode) {
    assert_eq!(
        (node.bounds.x as f64, node.bounds.y as f64, node.bounds.width as f64, node.bounds.height as f64),
        float.bounds
    );
    assert_eq!(node.has_obstacle, float.has_obstacle);
    assert_eq!(node.is_leaf, float.children.is_empty());
    match &node.children {
        None => assert!(float.children.is_empty()),
        Some(q) => {
            same_tree(&q.sw, &float.children[0]);
            same_tree(&q.se, &float.children[1]);
            same_tree(&q.nw, &float.children[2]);
            same_tree(&q.ne, &float.children[3]);
        }
    }
}

#[test]
fn spatial_indexes_agree() {
    let mut rng = StdRng::seed_from_u64(7);
    for _ in 0..200 {
        // extents that halve without a remainder down to the smallest node
        let cell: i32 = 1 << rng.random_range(0..4);
        let cells: usize = 1 << rng.random_range(2..6);
        let radius: i32 = rng.random_range(1..=3) * cell;
        let smallest = 2 * radius;
        let mut grid = Grid::new(cells, cells, cell);
        for _ in 0..rng.random_range(0..5) {
            grid.set_cell(rng.random_range(0..cells), rng.random_range(0..cells), Cell::Obstacle);
        }
        let tree = QuadTree::build_from_grid(&grid, radius, 2000);
        assert_eq!(tree.min_node_size, smallest);
        let extent = (cell * cells as i32) as f64;
        let float = build_in_floats(
            (0.0, 0.0, extent, extent),
            &obstacles_of(&grid),
            cell as f64,
            radius as f64,
            smallest as f64,
        );
        same_tree(&tree.root, &float);
        for _ in 0..50 {
            let cx: i32 = rng.random_range(-5..=extent as i32 + 5);
            let cy: i32 = rng.random_range(-5..=extent as i32 + 5);
            let expected = match find_in_floats(&float, cx as f64, cy as f64, radius as f64) {
                Some(node) => node.has_obstacle,
                None => true,
            };
            assert_eq!(tree.might_have_collision(cx, cy, radius), expected);
        }
    }
}
