use coverage_sim::model::grid::Cell;
use coverage_sim::model::grid::Grid;
use coverage_sim::model::quadtree::build_node;
use coverage_sim::model::quadtree::scan_region;
use coverage_sim::model::quadtree::QuadTree;
use coverage_sim::model::quadtree::QuadTreeBounds;
use coverage_sim::model::quadtree::QuadTreeNode;
use coverage_sim::vector::Vector;

#[test]
fn bounds_and_their_centre() {
    let bounds = QuadTreeBounds::new(10, 20, 100, 60);
    assert_eq!(bounds.center_x(), 60);
    assert_eq!(bounds.center_y(), 50);
    let odd = QuadTreeBounds::new(0, 0, 25, 7);
    assert_eq!(odd.center_x(), 12);
    assert_eq!(odd.center_y(), 3);
}

#[test]
fn bounds_contain_a_circle_with_all_its_extremes() {
    let bounds = QuadTreeBounds::new(0, 0, 100, 100);
    assert!(bounds.contains_circle(50, 50, 50));
    assert!(!bounds.contains_circle(50, 50, 51));
    assert!(bounds.contains_circle(10, 90, 10));
    assert!(!bounds.contains_circle(9, 90, 10));
    assert!(!bounds.contains_circle(10, 91, 10));
    assert!(bounds.contains_circle(0, 0, 0));
    assert!(!bounds.contains_circle(-1, 0, 0));
}

#[test]
fn a_new_node_is_a_leaf_without_obstacle() {
    let node = QuadTreeNode::new(QuadTreeBounds::new(0, 0, 40, 40));
    assert!(node.is_leaf);
    assert!(!node.has_obstacle);
    assert!(node.children.is_none());
    let tree = QuadTree::new(QuadTreeBounds::new(0, 0, 40, 40), 5);
    assert_eq!(tree.min_node_size, 5);
    assert!(tree.root.is_leaf);
    assert_eq!(tree.root.bounds, QuadTreeBounds::new(0, 0, 40, 40));
}

#[test]
fn split_makes_four_quadrants() {
    let mut node = QuadTreeNode::new(QuadTreeBounds::new(10, 20, 100, 60));
    node.has_obstacle = true;
    node.split();
    assert!(!node.is_leaf);
    assert!(node.has_obstacle);
    let q = node.children.as_ref().unwrap();
    assert_eq!(q.sw.bounds, QuadTreeBounds::new(10, 20, 50, 30));
    assert_eq!(q.se.bounds, QuadTreeBounds::new(60, 20, 50, 30));
    assert_eq!(q.nw.bounds, QuadTreeBounds::new(10, 50, 50, 30));
    assert_eq!(q.ne.bounds, QuadTreeBounds::new(60, 50, 50, 30));
    assert!(q.sw.is_leaf && q.se.is_leaf && q.nw.is_leaf && q.ne.is_leaf);
    assert!(!q.sw.has_obstacle && !q.ne.has_obstacle);
}

#[test]
fn region_scan_widens_the_bounds_by_the_margin() {
    let mut grid = Grid::new(10, 10, 10);
    grid.set_cell(6, 2, Cell::Obstacle);
    let bounds = QuadTreeBounds::new(0, 0, 50, 50);
    // the bounds span the cells 0..5 along each axis
    assert!(!scan_region(&grid, &bounds, 0));
    assert!(!scan_region(&grid, &bounds, 1));
    assert!(scan_region(&grid, &bounds, 2));
    assert!(scan_region(&grid, &QuadTreeBounds::new(61, 29, 1, 1), 0));
    assert!(!scan_region(&grid, &QuadTreeBounds::new(70, 20, 30, 10), 0));
    assert!(scan_region(&grid, &QuadTreeBounds::new(70, 20, 30, 10), 1));
}

#[test]
fn the_index_of_a_grid_without_obstacles_is_one_leaf() {
    let grid = Grid::new(10, 10, 10);
    let tree = QuadTree::build_from_grid(&grid, 15, 1000);
    assert_eq!(tree.root.bounds, QuadTreeBounds::new(0, 0, 100, 100));
    assert_eq!(tree.min_node_size, 15);
    assert!(tree.root.is_leaf);
    assert!(!tree.root.has_obstacle);
    assert!(!tree.might_have_collision(50, 50, 15));
    // a circle that leaves the area gets the careful answer
    assert!(tree.might_have_collision(5, 50, 15));
    assert!(tree.might_have_collision(50, 95, 15));
}

#[test]
fn the_index_splits_around_an_obstacle() {
    let mut grid = Grid::new(16, 16, 10);
    grid.set_cell(1, 1, Cell::Obstacle);
    // smallest node: 10 * 4000 / 1000 = 40
    let tree = QuadTree::build_from_grid(&grid, 10, 4000);
    assert_eq!(tree.min_node_size, 40);
    let root = &tree.root;
    assert!(root.has_obstacle && !root.is_leaf);
    let q = root.children.as_ref().unwrap();
    assert_eq!(q.sw.bounds, QuadTreeBounds::new(0, 0, 80, 80));
    assert!(q.sw.has_obstacle && !q.sw.is_leaf);
    assert!(!q.se.has_obstacle && q.se.is_leaf);
    assert!(!q.nw.has_obstacle && q.nw.is_leaf);
    assert!(!q.ne.has_obstacle && q.ne.is_leaf);
    let qq = q.sw.children.as_ref().unwrap();
    // nodes of the smallest size are not split, with or without obstacle
    assert_eq!(qq.sw.bounds, QuadTreeBounds::new(0, 0, 40, 40));
    assert!(qq.sw.has_obstacle && qq.sw.is_leaf);
    // the margin of one cell does not reach from (40, 0, 40, 40) to cell (1, 1)
    assert!(!qq.se.has_obstacle && qq.se.is_leaf);
    assert!(!qq.ne.has_obstacle && qq.ne.is_leaf);

    assert!(tree.might_have_collision(20, 20, 10));
    assert!(!tree.might_have_collision(60, 20, 10));
    assert!(!tree.might_have_collision(120, 120, 10));
    // a circle across the quadrants of the south-west node is answered by that node
    assert!(tree.might_have_collision(40, 40, 10));
    // a circle across the quadrants of the root is answered by the root
    assert!(tree.might_have_collision(80, 80, 10));
}

#[test]
fn find_node_prefers_the_deepest_node() {
    let mut grid = Grid::new(16, 16, 10);
    grid.set_cell(1, 1, Cell::Obstacle);
    let tree = QuadTree::build_from_grid(&grid, 10, 4000);
    let node = QuadTree::find_node_containing_circle(&tree.root, 60, 20, 10).unwrap();
    assert_eq!(node.bounds, QuadTreeBounds::new(40, 0, 40, 40));
    let node = QuadTree::find_node_containing_circle(&tree.root, 40, 40, 10).unwrap();
    assert_eq!(node.bounds, QuadTreeBounds::new(0, 0, 80, 80));
    let node = QuadTree::find_node_containing_circle(&tree.root, 100, 30, 20).unwrap();
    assert_eq!(node.bounds, QuadTreeBounds::new(80, 0, 80, 80));
    let node = QuadTree::find_node_containing_circle(&tree.root, 80, 30, 20).unwrap();
    assert_eq!(node.bounds, QuadTreeBounds::new(0, 0, 160, 160));
    assert!(QuadTree::find_node_containing_circle(&tree.root, 5, 30, 20).is_none());
}

#[test]
fn build_node_fills_a_fresh_leaf() {
    let mut grid = Grid::new(8, 8, 10);
    grid.set_cell(7, 7, Cell::Obstacle);
    let mut node = QuadTreeNode::new(QuadTreeBounds::new(0, 0, 80, 80));
    build_node(&mut node, &grid, 0, 20);
    assert!(node.has_obstacle && !node.is_leaf);
    let q = node.children.as_ref().unwrap();
    assert!(q.ne.has_obstacle && !q.ne.is_leaf);
    assert!(!q.sw.has_obstacle && q.sw.is_leaf);
    let qq = q.ne.children.as_ref().unwrap();
    assert_eq!(qq.ne.bounds, QuadTreeBounds::new(60, 60, 20, 20));
    assert!(qq.ne.has_obstacle && qq.ne.is_leaf);
    assert!(!qq.sw.has_obstacle);
}

#[test]
fn the_index_never_rules_out_a_collision_that_the_scan_finds() {
    let mut grid = Grid::new(20, 20, 10);
    for (x, y) in [(3, 4), (15, 2), (9, 9), (10, 17), (19, 19), (0, 12)] {
        grid.set_cell(x, y, Cell::Obstacle);
    }
    let radius = 17;
    let mut plain = Grid::new(20, 20, 10);
    for (x, y) in [(3, 4), (15, 2), (9, 9), (10, 17), (19, 19), (0, 12)] {
        plain.set_cell(x, y, Cell::Obstacle);
    }
    grid.init_spatial_index(radius, 1500);
    grid.use_quad_tree = true;
    let mut pruned = 0;
    for cx in (radius..=200 - radius).step_by(3) {
        for cy in (radius..=200 - radius).step_by(3) {
            let exact = plain.collision_with_obstacle(&Vector::new(cx, cy), radius);
            let maybe = grid.quadtree.as_ref().unwrap().might_have_collision(cx, cy, radius);
            if exact {
                assert!(maybe);
            }
            if !maybe {
                pruned += 1;
            }
            assert_eq!(grid.collision_with_obstacle(&Vector::new(cx, cy), radius), exact);
        }
    }
    assert!(pruned > 0);
    // every check that the index did not rule out was a detailed one
    assert!(grid.num_detailed_collision_checks < plain.num_detailed_collision_checks);
    assert_eq!(
        grid.num_detailed_collision_checks + pruned,
        plain.num_detailed_collision_checks
    );
}

#[test]
fn collision_check_scans_the_cells_in_reach() {
    let mut grid = Grid::new(10, 10, 10);
    grid.set_cell(7, 5, Cell::Obstacle);
    // radius 15 reaches two cells from the centre cell
    assert!(grid.collision_with_obstacle(&Vector::new(55, 55), 15));
    assert!(!grid.collision_with_obstacle(&Vector::new(45, 55), 15));
    assert!(grid.collision_with_obstacle(&Vector::new(45, 55), 21));
    assert!(!grid.collision_with_obstacle(&Vector::new(55, 85), 20));
    assert!(grid.collision_with_obstacle(&Vector::new(55, 75), 20));
    // radius 0 looks at the centre cell alone
    assert!(grid.collision_with_obstacle(&Vector::new(79, 50), 0));
    assert!(!grid.collision_with_obstacle(&Vector::new(80, 50), 0));
    // a negative radius is rounded like any other: down to one cell size
    // below 0 the centre cell is looked at, from there on nothing
    assert!(grid.collision_with_obstacle(&Vector::new(75, 55), -9));
    assert!(!grid.collision_with_obstacle(&Vector::new(75, 55), -10));
    assert_eq!(grid.num_detailed_collision_checks, 9);
}

#[test]
fn an_index_is_checked_against_its_grid() {
    let mut grid = Grid::new(16, 16, 10);
    grid.set_cell(1, 1, Cell::Obstacle);
    grid.set_cell(12, 9, Cell::Obstacle);
    let mut tree = QuadTree::build_from_grid(&grid, 10, 4000);
    assert!(tree.is_index_of(&grid, 10));
    // built for another radius, the margin differs
    assert!(!tree.is_index_of(&grid, 25));
    // another obstacle on the grid
    let mut other = Grid::new(16, 16, 10);
    other.set_cell(1, 1, Cell::Obstacle);
    other.set_cell(12, 9, Cell::Obstacle);
    other.set_cell(6, 14, Cell::Obstacle);
    assert!(!tree.is_index_of(&other, 10));
    // a flag that lies
    tree.root.children.as_mut().unwrap().se.has_obstacle = true;
    assert!(!tree.is_index_of(&grid, 10));
    tree.root.children.as_mut().unwrap().se.has_obstacle = false;
    assert!(tree.is_index_of(&grid, 10));
    // another rule for splitting
    tree.min_node_size = 20;
    assert!(!tree.is_index_of(&grid, 10));
    tree.min_node_size = 40;
    // bounds that are no quadrant
    tree.root.children.as_mut().unwrap().nw.bounds.width = 79;
    assert!(!tree.is_index_of(&grid, 10));
}
