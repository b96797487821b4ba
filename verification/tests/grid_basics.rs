use coverage_sim::model::coverageinfo::CoverageInfo;
use coverage_sim::model::cuttertype::CutterType;
use coverage_sim::model::grid::Cell;
use coverage_sim::model::grid::Grid;
use coverage_sim::vector::Vector;

#[test]
fn new_grid_is_empty() {
    let grid = Grid::new(10, 8, 5);
    assert_eq!(grid.get_numcells(), (10, 8));
    assert_eq!(grid.get_cell_size(), 5);
    assert_eq!(grid.get_coverage_count(), 0);
    assert_eq!(grid.get_obstacle_count(), 0);
    assert!(grid.get_cell(0, 0).unwrap().is_empty());
    assert!(grid.get_cell(9, 7).unwrap().is_empty());
    assert!(grid.get_cell(10, 0).is_none());
    assert!(grid.get_cell(0, 8).is_none());
    assert_eq!(grid.get_coverage(), (0, 0));
    assert_eq!(*grid.get_cell(3, 3).unwrap(), Cell::Empty);
    assert!(grid.quadtree.is_none());
    assert!(!grid.use_quad_tree);
}

#[test]
fn empty_grid_has_no_coverage() {
    let grid = Grid::new(0, 0, 1);
    assert_eq!(grid.get_coverage_percent(), 0);
    assert_eq!(grid.get_max_visited_number(), 0);
    assert_eq!(grid.get_min_visited_number(), 0);
}

#[test]
fn cell_predicates_and_setters() {
    let mut cell = Cell::Empty;
    assert!(cell.is_empty() && !cell.is_covered() && !cell.is_obstacle());
    cell.set_as_covered(7);
    assert_eq!(cell, Cell::Covered(CoverageInfo::new(7, 1)));
    assert!(!cell.is_empty() && cell.is_covered() && !cell.is_obstacle());
    cell.set_as_obstacle();
    assert_eq!(cell, Cell::Obstacle);
    assert!(cell.is_obstacle());
    let center = Cell::CenterPoint(CoverageInfo::new(1, 2));
    assert!(!center.is_covered() && !center.is_empty() && !center.is_obstacle());
}

#[test]
fn coverage_info_keeps_its_fields() {
    let info = CoverageInfo::new(3, 9);
    assert_eq!(info.segment_number, 3);
    assert_eq!(info.times_visited, 9);
}

#[test]
fn cutter_type_names() {
    assert_eq!(CutterType::Circular.as_str(), "circular");
    assert_eq!(CutterType::Blade.as_str(), "blade");
}

#[test]
fn world_coordinates_are_floor_divided() {
    let grid = Grid::new(10, 10, 100);
    assert_eq!(grid.world_coordinate_to_grid_x(0), 0);
    assert_eq!(grid.world_coordinate_to_grid_x(99), 0);
    assert_eq!(grid.world_coordinate_to_grid_x(100), 1);
    assert_eq!(grid.world_coordinate_to_grid_y(999), 9);
    assert_eq!(grid.world_coordinate_to_grid(250, 730), (2, 7));
    // a coordinate left of the area belongs to the first cell
    assert_eq!(grid.world_coordinate_to_grid_x(-1), 0);
    assert_eq!(grid.world_coordinate_to_grid_y(-100_000), 0);
    // a coordinate beyond the area has an index beyond the grid
    assert_eq!(grid.world_coordinate_to_grid_x(1234), 12);
}

#[test]
fn grid_coordinates_are_cell_corners() {
    let grid = Grid::new(10, 10, 100);
    assert_eq!(grid.grid_to_world_coordinate(0, 0), (0, 0));
    assert_eq!(grid.grid_to_world_coordinate(3, 7), (300, 700));
    assert_eq!(grid.grid_to_world_coordinate(10, 10), (1000, 1000));
}

#[test]
fn set_cell_keeps_the_totals() {
    let mut grid = Grid::new(4, 4, 10);
    grid.set_cell(1, 1, Cell::Covered(CoverageInfo::new(0, 1)));
    grid.set_cell(2, 2, Cell::CenterPoint(CoverageInfo::new(0, 1)));
    grid.set_cell(3, 3, Cell::Obstacle);
    assert_eq!(grid.get_coverage_count(), 2);
    assert_eq!(grid.get_obstacle_count(), 1);
    grid.set_cell(1, 1, Cell::Covered(CoverageInfo::new(1, 2)));
    assert_eq!(grid.get_coverage_count(), 2);
    grid.set_cell(1, 1, Cell::Obstacle);
    assert_eq!(grid.get_coverage_count(), 1);
    assert_eq!(grid.get_obstacle_count(), 2);
    grid.set_cell(2, 2, Cell::Empty);
    assert_eq!(grid.get_coverage_count(), 0);
    grid.update_obstacle_cells_count();
    assert_eq!(grid.get_obstacle_count(), 2);
}

#[test]
fn update_obstacle_cells_count_counts_anew() {
    let mut grid = Grid::new(5, 5, 10);
    grid.set_cell(0, 0, Cell::Obstacle);
    grid.set_cell(4, 4, Cell::Obstacle);
    grid.set_cell(2, 3, Cell::Obstacle);
    grid.cells_obstacles_count = 0;
    grid.update_obstacle_cells_count();
    assert_eq!(grid.cells_obstacles_count, 3);
}

#[test]
fn coverage_percent_leaves_obstacles_out() {
    let mut grid = Grid::new(10, 10, 10);
    for x in 0..2 {
        for y in 0..2 {
            grid.set_cell(x, y, Cell::Obstacle);
        }
    }
    for x in 4..8 {
        for y in 0..6 {
            grid.set_cell(x, y, Cell::Covered(CoverageInfo::new(0, 1)));
        }
    }
    // 24 of 96 usable cells: 25 percent
    assert_eq!(grid.get_coverage(), (24, 25_000));
    grid.set_cell(9, 9, Cell::Covered(CoverageInfo::new(0, 1)));
    // 25 of 96: 26.0416... percent, rounded down to thousandths
    assert_eq!(grid.get_coverage_percent(), 26_041);
}

#[test]
fn coverage_percent_of_a_grid_of_obstacles_is_zero() {
    let mut grid = Grid::new(2, 2, 10);
    for x in 0..2 {
        for y in 0..2 {
            grid.set_cell(x, y, Cell::Obstacle);
        }
    }
    assert_eq!(grid.get_coverage_percent(), 0);
}

#[test]
fn visit_statistics_look_at_covered_cells_only() {
    let mut grid = Grid::new(4, 4, 10);
    assert_eq!(grid.get_max_visited_number(), 0);
    assert_eq!(grid.get_min_visited_number(), 0);
    grid.set_cell(0, 0, Cell::Covered(CoverageInfo::new(0, 3)));
    grid.set_cell(1, 0, Cell::Covered(CoverageInfo::new(0, 7)));
    grid.set_cell(2, 0, Cell::Covered(CoverageInfo::new(0, 5)));
    grid.set_cell(3, 0, Cell::CenterPoint(CoverageInfo::new(0, 99)));
    grid.set_cell(3, 3, Cell::CenterPoint(CoverageInfo::new(0, 1)));
    assert_eq!(grid.get_max_visited_number(), 7);
    assert_eq!(grid.get_min_visited_number(), 3);
}

#[test]
fn a_circular_cutter_covers_cells_that_lie_in_it_entirely() {
    let grid = Grid::new(10, 10, 10);
    let center = Vector::new(50, 50);
    // corners of cell (4, 4) are at most sqrt(200) away
    assert!(grid.is_cell_covered(&center, 15, 0, 4, 4, CutterType::Circular));
    assert!(grid.is_cell_covered(&center, 15, 0, 5, 5, CutterType::Circular));
    // the far corner of cell (6, 5) is sqrt(500) away
    assert!(!grid.is_cell_covered(&center, 15, 0, 6, 5, CutterType::Circular));
    assert!(grid.is_cell_covered(&center, 23, 0, 6, 5, CutterType::Circular));
    // exactly on the circle counts: the far corners of cell (5, 5) are sqrt(200) away
    assert!(!grid.is_cell_covered(&Vector::new(50, 50), 14, 0, 5, 5, CutterType::Circular));
    let exact = Grid::new(10, 10, 3);
    // corners of cell (1, 1) are (3,3), (6,3), (3,6), (6,6); from (3, 2): 1, 10, 16, 25
    assert!(exact.is_cell_covered(&Vector::new(3, 2), 5, 0, 1, 1, CutterType::Circular));
    assert!(!exact.is_cell_covered(&Vector::new(3, 2), 4, 0, 1, 1, CutterType::Circular));
}

#[test]
fn a_blade_covers_cells_in_its_ring_only() {
    let grid = Grid::new(20, 20, 10);
    let center = Vector::new(100, 100);
    // cell (13, 10): corners (130,100) (140,100) (130,110) (140,110): 30, 40, 31.6, 41.2 away
    assert!(grid.is_cell_covered(&center, 45, 15, 13, 10, CutterType::Blade));
    // with a blade of 10 the inner radius is 35: the near corners lie inside it
    assert!(!grid.is_cell_covered(&center, 45, 10, 13, 10, CutterType::Blade));
    // the cell under the centre lies within the inner radius
    assert!(!grid.is_cell_covered(&center, 45, 15, 10, 10, CutterType::Blade));
    // a circular cutter of the same radius covers both
    assert!(grid.is_cell_covered(&center, 45, 15, 10, 10, CutterType::Circular));
}

#[test]
fn the_cells_in_a_row() {
    let mut grid = Grid::new(3, 2, 10);
    grid.set_cell(0, 1, Cell::Obstacle);
    grid.set_cell(2, 0, Cell::Covered(CoverageInfo::new(4, 2)));
    assert_eq!(
        grid.get_cell_iter(),
        vec![
            Cell::Empty,
            Cell::Obstacle,
            Cell::Empty,
            Cell::Empty,
            Cell::Covered(CoverageInfo::new(4, 2)),
            Cell::Empty
        ]
    );
    assert_eq!(Grid::new(0, 5, 1).get_cell_iter(), vec![]);
}
