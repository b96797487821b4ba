use coverage_sim::mapfile::rectangle::apply_rectangle_obstacle;
use coverage_sim::model::cuttertype::CutterType;
use coverage_sim::model::grid::Grid;
use coverage_sim::model::SimModel;
use coverage_sim::sim::simulation_loop;
use coverage_sim::vector::Vector;
use coverage_sim::vector::DIR_SCALE;
use rand::rngs::StdRng;
use rand::SeedableRng;

fn scenario_model() -> SimModel {
    // 10 x 10 cells of 1000 units, cutter radius 1500, start (5000, 5000),
    // heading along +x, step 500, velocity 1000 units per second.
    let mut model = SimModel::new(
        5000,
        5000,
        DIR_SCALE,
        0,
        500,
        1500,
        10_000,
        10_000,
        1000,
        1000,
        0,
        0,
        1,
        0,
        0,
        false,
        0,
        CutterType::Circular,
        false,
        0,
        0,
        0,
    );
    model.grid_cells_x = 10;
    model.grid_cells_y = 10;
    model.grid = Some(Grid::new(10, 10, 1000));
    model
}

#[test]
fn bounce_off_right_boundary_ends_first_segment() {
    let mut model = scenario_model();
    model.perturb = false;
    let mut rng = StdRng::seed_from_u64(7);
    let state = simulation_loop(&mut model, &mut rng).unwrap();
    assert_eq!(model.segment_number, 1);
    assert_eq!(state.center, Vector::new(8500, 5000));
    assert_eq!(state.dir, Vector::new(-DIR_SCALE, 0));
    // 5500, 6000, ..., 8500, 9000: eight steps, the last one beyond the box
    assert_eq!(model.sim_steps, 8);
    assert_eq!(model.distance_covered, 4000);
    assert_eq!(model.sim_time_elapsed, 4_000_000);
    let grid = model.grid.as_ref().unwrap();
    let (count, percent) = grid.get_coverage();
    // the two rows beside the path, from the first position to the boundary
    assert_eq!(count, 10);
    for x in 0..10 {
        for y in 0..10 {
            let on_path = (5..=9).contains(&x) && (4..=5).contains(&y);
            assert_eq!(grid.get_cell(x, y).unwrap().is_covered(), on_path, "({x}, {y})");
        }
    }
    // 10 of 100 cells, in thousandths of a percent
    assert_eq!(percent, 10_000);
    assert_eq!(state.coverage_percent, percent);
}

#[test]
fn bounce_with_perturbation_still_ends_first_segment() {
    let mut model = scenario_model();
    let mut rng = StdRng::seed_from_u64(11);
    let state = simulation_loop(&mut model, &mut rng).unwrap();
    assert_eq!(model.segment_number, 1);
    assert_eq!(state.center, Vector::new(8500, 5000));
    // the new direction lies within 60 degrees of the reflected one
    assert!(state.dir.x < 0);
    let dot = -(state.dir.x as i128) * DIR_SCALE as i128;
    let len_sq = (state.dir.x as i128).pow(2) + (state.dir.y as i128).pow(2);
    assert!(4 * dot * dot >= len_sq * (DIR_SCALE as i128).pow(2) - (1i128 << 64));
}

#[test]
fn rectangle_marks_exactly_four_cells() {
    let mut grid = Grid::new(10, 10, 1);
    apply_rectangle_obstacle(&mut grid, 2, 2, 2, 2);
    let mut obstacles = 0;
    for x in 0..10 {
        for y in 0..10 {
            let inside = (2..=3).contains(&x) && (2..=3).contains(&y);
            assert_eq!(grid.get_cell(x, y).unwrap().is_obstacle(), inside);
            if inside {
                obstacles += 1;
            }
        }
    }
    assert_eq!(obstacles, 4);
    assert_eq!(grid.get_obstacle_count(), 4);
}
