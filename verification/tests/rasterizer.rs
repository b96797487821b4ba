use coverage_sim::mapfile::apply_obstacles_to_grid;
use coverage_sim::mapfile::circle::apply_circle_obstacle;
use coverage_sim::mapfile::circle::is_cell_in_circle;
use coverage_sim::mapfile::line::apply_line_obstacle;
use coverage_sim::mapfile::line::create_line_polygon;
use coverage_sim::mapfile::polygon::apply_polygon_obstacle;
use coverage_sim::mapfile::polygon::get_polygon_bounds;
use coverage_sim::mapfile::polygon::is_cell_in_polygon;
use coverage_sim::mapfile::polygon::point_in_polygon;
use coverage_sim::mapfile::rectangle::apply_rectangle_obstacle;
use coverage_sim::mapfile::MapFile;
use coverage_sim::mapfile::ObstacleType;
use coverage_sim::model::coverageinfo::CoverageInfo;
use coverage_sim::model::grid::Cell;
use coverage_sim::model::grid::Grid;
use coverage_sim::vector::Vector;

fn obstacle_cells(grid: &Grid) -> Vec<(usize, usize)> {
    let (cells_x, cells_y) = grid.get_numcells();
    let mut found = Vec::new();
    for x in 0..cells_x {
        for y in 0..cells_y {
            if grid.get_cell(x, y).unwrap().is_obstacle() {
                found.push((x, y));
            }
        }
    }
    found
}

#[test]
fn rectangle_rounds_its_size_up_to_whole_cells() {
    let mut grid = Grid::new(10, 10, 10);
    apply_rectangle_obstacle(&mut grid, 25, 31, 11, 10);
    // starts in cell (2, 3), spans ceil(11 / 10) = 2 columns and 1 row
    assert_eq!(obstacle_cells(&grid), vec![(2, 3), (3, 3)]);
    assert_eq!(grid.get_obstacle_count(), 2);
}

#[test]
fn rectangle_is_clipped_to_the_grid() {
    let mut grid = Grid::new(4, 4, 10);
    apply_rectangle_obstacle(&mut grid, 30, 20, 50, 100);
    assert_eq!(obstacle_cells(&grid), vec![(3, 2), (3, 3)]);
    // a corner left of the area starts at the first cell
    let mut other = Grid::new(4, 4, 10);
    apply_rectangle_obstacle(&mut other, -30, -30, 10, 20);
    assert_eq!(obstacle_cells(&other), vec![(0, 0), (0, 1)]);
    // no size, no cells
    let mut none = Grid::new(4, 4, 10);
    apply_rectangle_obstacle(&mut none, 10, 10, 0, 30);
    apply_rectangle_obstacle(&mut none, 10, 10, 30, -5);
    assert_eq!(obstacle_cells(&none), vec![]);
}

#[test]
fn rasterizing_twice_changes_nothing() {
    let mut grid = Grid::new(10, 10, 10);
    apply_rectangle_obstacle(&mut grid, 20, 20, 20, 20);
    apply_circle_obstacle(&mut grid, 70, 70, 12);
    let once = obstacle_cells(&grid);
    let count = grid.get_obstacle_count();
    apply_rectangle_obstacle(&mut grid, 20, 20, 20, 20);
    apply_circle_obstacle(&mut grid, 70, 70, 12);
    assert_eq!(obstacle_cells(&grid), once);
    assert_eq!(grid.get_obstacle_count(), count);
}

#[test]
fn an_obstacle_replaces_a_covered_cell_and_the_totals_follow() {
    let mut grid = Grid::new(10, 10, 10);
    grid.set_cell(2, 2, Cell::Covered(CoverageInfo::new(0, 1)));
    grid.set_cell(5, 5, Cell::Covered(CoverageInfo::new(0, 1)));
    apply_rectangle_obstacle(&mut grid, 20, 20, 10, 10);
    assert!(grid.get_cell(2, 2).unwrap().is_obstacle());
    assert_eq!(grid.get_coverage_count(), 1);
    assert_eq!(grid.get_obstacle_count(), 1);
}

#[test]
fn circle_marks_every_cell_with_a_corner_in_it() {
    let mut grid = Grid::new(10, 10, 10);
    apply_circle_obstacle(&mut grid, 50, 50, 10);
    // the candidates lie within one cell of the centre cell (5, 5); of those
    // only (6, 6) has no corner within 10 of the centre
    assert_eq!(
        obstacle_cells(&grid),
        vec![(4, 4), (4, 5), (4, 6), (5, 4), (5, 5), (5, 6), (6, 4), (6, 5)]
    );
    let mut small = Grid::new(10, 10, 10);
    apply_circle_obstacle(&mut small, 55, 55, 8);
    // the corners of cell (5, 5) are sqrt(50) away, and each is shared with
    // three of the cells around
    let mut around = Vec::new();
    for x in 4..7usize {
        for y in 4..7usize {
            around.push((x, y));
        }
    }
    assert_eq!(obstacle_cells(&small), around);
    let mut none = Grid::new(10, 10, 10);
    apply_circle_obstacle(&mut none, 55, 55, 7);
    assert_eq!(none.get_obstacle_count(), 0);
    apply_circle_obstacle(&mut none, 55, 55, -20);
    assert_eq!(none.get_obstacle_count(), 0);
}

#[test]
fn cell_in_circle_asks_for_one_corner() {
    let grid = Grid::new(10, 10, 10);
    assert!(is_cell_in_circle(&grid, 5, 5, 55, 55, 8));
    assert!(!is_cell_in_circle(&grid, 5, 5, 55, 55, 7 - 1));
    assert!(is_cell_in_circle(&grid, 0, 0, 10, 10, 0));
    assert!(!is_cell_in_circle(&grid, 0, 0, 11, 11, 1));
    assert!(is_cell_in_circle(&grid, 9, 9, 100, 100, 0));
}

#[test]
fn circle_rasterization_is_sound() {
    // every cell that lies in the circle entirely is marked, and every marked
    // cell has a corner in the circle
    let cases = [(47, 52, 23, 10), (13, 88, 31, 7), (0, 0, 40, 9), (95, 40, 17, 10), (50, 50, 3, 10)];
    for (cx, cy, r, cell) in cases {
        let cells = (100 / cell) as usize;
        let mut grid = Grid::new(cells, cells, cell);
        apply_circle_obstacle(&mut grid, cx, cy, r);
        for x in 0..cells {
            for y in 0..cells {
                let corners = [
                    (x as i64 * cell as i64, y as i64 * cell as i64),
                    ((x as i64 + 1) * cell as i64, y as i64 * cell as i64),
                    (x as i64 * cell as i64, (y as i64 + 1) * cell as i64),
                    ((x as i64 + 1) * cell as i64, (y as i64 + 1) * cell as i64),
                ];
                let inside = |(px, py): (i64, i64)| {
                    (px - cx as i64).pow(2) + (py - cy as i64).pow(2) <= (r as i64).pow(2)
                };
                let all = corners.iter().all(|c| inside(*c));
                let any = corners.iter().any(|c| inside(*c));
                let marked = grid.get_cell(x, y).unwrap().is_obstacle();
                if all {
                    assert!(marked);
                }
                if marked {
                    assert!(any);
                }
            }
        }
    }
}

#[test]
fn point_in_polygon_by_ray_casting() {
    let square = [Vector::new(0, 0), Vector::new(10, 0), Vector::new(10, 10), Vector::new(0, 10)];
    // points are given by twice their coordinates
    assert!(point_in_polygon(10, 10, &square));
    assert!(point_in_polygon(1, 19, &square));
    assert!(!point_in_polygon(21, 10, &square));
    assert!(!point_in_polygon(-1, 10, &square));
    assert!(!point_in_polygon(10, 21, &square));
    // on the left edge counts as inside, on the right edge as outside
    assert!(point_in_polygon(0, 10, &square));
    assert!(!point_in_polygon(20, 10, &square));
    // on the bottom edge counts as inside, on the top edge as outside
    assert!(point_in_polygon(10, 0, &square));
    assert!(!point_in_polygon(10, 20, &square));
    let triangle = [Vector::new(0, 0), Vector::new(20, 0), Vector::new(0, 20)];
    assert!(point_in_polygon(10, 10, &triangle));
    assert!(point_in_polygon(19, 19, &triangle));
    assert!(!point_in_polygon(21, 21, &triangle));
    // a shape with a notch: the even-odd rule
    let notched = [
        Vector::new(0, 0),
        Vector::new(30, 0),
        Vector::new(30, 30),
        Vector::new(20, 30),
        Vector::new(20, 10),
        Vector::new(10, 10),
        Vector::new(10, 30),
        Vector::new(0, 30),
    ];
    assert!(point_in_polygon(10, 40, &notched));
    assert!(!point_in_polygon(30, 40, &notched));
    assert!(point_in_polygon(50, 40, &notched));
    assert!(point_in_polygon(30, 10, &notched));
}

#[test]
fn polygon_bounds_are_least_and_greatest_coordinates() {
    let points = [Vector::new(5, -3), Vector::new(-7, 12), Vector::new(9, 4), Vector::new(0, 0)];
    assert_eq!(get_polygon_bounds(&points), (-7, 9, -3, 12));
    assert_eq!(get_polygon_bounds(&[Vector::new(4, 4)]), (4, 4, 4, 4));
}

#[test]
fn polygon_marks_cells_by_their_centres() {
    let mut grid = Grid::new(10, 10, 10);
    // a triangle with corners (10, 10), (60, 10), (10, 60)
    let triangle = vec![Vector::new(10, 10), Vector::new(60, 10), Vector::new(10, 60)];
    assert!(apply_polygon_obstacle(&mut grid, &triangle));
    // cell (x, y) has its centre at (10x + 5, 10y + 5); inside where x + y < 6
    let mut expected = Vec::new();
    for x in 1..6usize {
        for y in 1..6usize {
            if x + y < 6 {
                expected.push((x, y));
            }
        }
    }
    assert_eq!(obstacle_cells(&grid), expected);
    assert!(is_cell_in_polygon(&grid, 1, 1, &triangle));
    assert!(!is_cell_in_polygon(&grid, 3, 3, &triangle));
    assert!(!is_cell_in_polygon(&grid, 0, 1, &triangle));
}

#[test]
fn polygon_of_too_few_points_marks_nothing() {
    let mut grid = Grid::new(10, 10, 10);
    assert!(!apply_polygon_obstacle(&mut grid, &[Vector::new(0, 0), Vector::new(90, 90)]));
    assert!(!apply_polygon_obstacle(&mut grid, &[]));
    assert_eq!(grid.get_obstacle_count(), 0);
}

#[test]
fn line_outline_is_a_rectangle_around_the_segment() {
    // a horizontal segment: the normal is (0, 1)
    assert_eq!(
        create_line_polygon(Vector::new(10, 50), Vector::new(90, 50), 5),
        vec![Vector::new(10, 55), Vector::new(10, 45), Vector::new(90, 45), Vector::new(90, 55)]
    );
    // a segment along (3, 4) of length 50: the normal is (-4, 3) / 5
    assert_eq!(
        create_line_polygon(Vector::new(0, 0), Vector::new(30, 40), 10),
        vec![Vector::new(-8, 6), Vector::new(8, -6), Vector::new(38, 34), Vector::new(22, 46)]
    );
    // a segment of length 0: a square around the point
    assert_eq!(
        create_line_polygon(Vector::new(20, 30), Vector::new(20, 30), 4),
        vec![Vector::new(16, 26), Vector::new(24, 26), Vector::new(24, 34), Vector::new(16, 34)]
    );
    // a short segment: the offset is 10 / sqrt(2), rounded towards zero
    assert_eq!(
        create_line_polygon(Vector::new(0, 0), Vector::new(1, 1), 10),
        vec![Vector::new(-7, 7), Vector::new(7, -7), Vector::new(8, -6), Vector::new(-6, 8)]
    );
}

#[test]
fn line_marks_the_cells_along_it() {
    let mut grid = Grid::new(10, 10, 10);
    let points = vec![Vector::new(10, 50), Vector::new(90, 50), Vector::new(90, 90)];
    assert!(apply_line_obstacle(&mut grid, &points, 20));
    // first outline: x in [10, 90), y in [40, 60); second: x in [80, 100), y in [50, 90)
    let mut expected = Vec::new();
    for x in 0..10usize {
        for y in 0..10usize {
            let first = (1..9).contains(&x) && (4..6).contains(&y);
            let second = (8..10).contains(&x) && (5..9).contains(&y);
            if first || second {
                expected.push((x, y));
            }
        }
    }
    assert_eq!(obstacle_cells(&grid), expected);
}

#[test]
fn line_of_too_few_points_marks_nothing() {
    let mut grid = Grid::new(10, 10, 10);
    assert!(!apply_line_obstacle(&mut grid, &[Vector::new(50, 50)], 30));
    assert!(!apply_line_obstacle(&mut grid, &[], 30));
    assert_eq!(grid.get_obstacle_count(), 0);
    // two equal points make a square
    assert!(apply_line_obstacle(&mut grid, &[Vector::new(50, 50), Vector::new(50, 50)], 20));
    assert_eq!(obstacle_cells(&grid), vec![(4, 4), (4, 5), (5, 4), (5, 5)]);
}

#[test]
fn obstacles_of_a_map_are_applied_in_order() {
    let map = MapFile {
        name: String::from("yard"),
        description: None,
        grid: None,
        obstacles: vec![
            ObstacleType::Rectangle { x: 0, y: 0, width: 20, height: 10, name: None },
            ObstacleType::Polygon {
                points: vec![Vector::new(0, 0), Vector::new(50, 50)],
                name: Some(String::from("broken")),
            },
            ObstacleType::Circle { x: 85, y: 85, radius: 8, name: None },
            ObstacleType::Line { points: vec![Vector::new(1, 1)], width: 4, name: None },
            ObstacleType::Polygon {
                points: vec![
                    Vector::new(40, 40),
                    Vector::new(60, 40),
                    Vector::new(60, 60),
                    Vector::new(40, 60),
                ],
                name: None,
            },
            ObstacleType::Line {
                points: vec![Vector::new(0, 95), Vector::new(30, 95)],
                width: 10,
                name: None,
            },
        ],
    };
    let mut grid = Grid::new(10, 10, 10);
    let skipped = apply_obstacles_to_grid(&mut grid, &map);
    assert_eq!(skipped, 2);
    assert_eq!(
        obstacle_cells(&grid),
        vec![
            (0, 0),
            (0, 9),
            (1, 0),
            (1, 9),
            (2, 9),
            (4, 4),
            (4, 5),
            (5, 4),
            (5, 5),
            (7, 7),
            (7, 8),
            (7, 9),
            (8, 7),
            (8, 8),
            (8, 9),
            (9, 7),
            (9, 8),
            (9, 9)
        ]
    );
    assert_eq!(grid.get_obstacle_count(), 18);
}
