use coverage_sim::frames::pace_for_frames;
use coverage_sim::model::cuttertype::CutterType;
use coverage_sim::model::grid::Grid;
use coverage_sim::model::SimModel;
use coverage_sim::sim::run_simulation;
use coverage_sim::sim::RunError;
use coverage_sim::strategy::is_lot_won;
use coverage_sim::vector::DIR_SCALE;
use rand::rngs::StdRng;
use rand::SeedableRng;

fn paced_model(velocity: i32) -> SimModel {
    let mut model = SimModel::new(
        5000,
        5000,
        DIR_SCALE,
        0,
        500,
        1500,
        10_000,
        10_000,
        1000,
        velocity,
        0,
        0,
        0,
        20,
        0,
        false,
        0,
        CutterType::Circular,
        false,
        0,
        0,
        0,
    );
    model.perturb = false;
    model.grid_cells_x = 10;
    model.grid_cells_y = 10;
    model.grid = Some(Grid::new(10, 10, 1000));
    model
}

#[test]
fn a_slow_cutter_steps_once_per_frame() {
    // 1000 units a second at 5 frames a second: 200 units a frame, less than
    // three fifths of a cell
    let mut model = paced_model(1000);
    assert_eq!(pace_for_frames(&mut model, 5), 1);
    assert_eq!(model.step_size, 200);
    // rounded down to whole units
    let mut model = paced_model(1000);
    assert_eq!(pace_for_frames(&mut model, 30), 1);
    assert_eq!(model.step_size, 33);
    // exactly three fifths of a cell a frame
    let mut model = paced_model(3000);
    assert_eq!(pace_for_frames(&mut model, 5), 1);
    assert_eq!(model.step_size, 600);
}

#[test]
fn a_fast_cutter_steps_several_times_per_frame() {
    // 4000 units a second at 5 frames a second: 800 units a frame, 1.6 steps
    let mut model = paced_model(4000);
    assert_eq!(pace_for_frames(&mut model, 5), 2);
    assert_eq!(model.step_size, 500);
    // 3005 units a second: 601 units a frame, just above three fifths of a cell
    let mut model = paced_model(3005);
    assert_eq!(pace_for_frames(&mut model, 5), 2);
    assert_eq!(model.step_size, 500);
    // 10000 units a second: 2000 units a frame, 4 steps exactly
    let mut model = paced_model(10_000);
    assert_eq!(pace_for_frames(&mut model, 5), 4);
    assert_eq!(model.step_size, 500);
}

#[test]
fn pacing_leaves_a_step_that_no_frame_rate_gives() {
    // no frame rate
    let mut model = paced_model(1000);
    assert_eq!(pace_for_frames(&mut model, 0), 1);
    assert_eq!(model.step_size, 500);
    // less than a unit a frame
    let mut model = paced_model(4);
    assert_eq!(pace_for_frames(&mut model, 5), 1);
    assert_eq!(model.step_size, 500);
    // nothing else changes
    let mut model = paced_model(1000);
    pace_for_frames(&mut model, 5);
    assert_eq!(model.velocity, 1000);
    assert_eq!(model.cell_size, 1000);
    assert_eq!(model.sim_steps, 0);
    assert_eq!(model.stop_simsteps, 20);
}

#[test]
fn a_lot_falls_under_a_chance() {
    assert!(!is_lot_won(0, 0));
    assert!(!is_lot_won(999_999, 0));
    assert!(is_lot_won(0, 1));
    assert!(!is_lot_won(1, 1));
    assert!(is_lot_won(499_999, 500_000));
    assert!(!is_lot_won(500_000, 500_000));
    assert!(is_lot_won(999_999, 1_000_000));
    assert!(is_lot_won(999_999, u32::MAX));
}

#[test]
fn a_simulation_without_a_map_succeeds() {
    for seed in 0..20 {
        let mut model = paced_model(1000);
        model.grid = None;
        model.grid_cells_x = 0;
        model.grid_cells_y = 0;
        model.perturb = true;
        model.stop_simsteps = 200;
        let mut rng = StdRng::seed_from_u64(seed);
        let report = run_simulation(model, None, &mut rng).unwrap();
        assert_eq!(report.model.sim_steps, 200);
        assert_eq!(report.model.distance_covered, 200 * 500);
        assert_eq!(report.model.sim_time_elapsed, 200 * 500_000);
        assert_eq!(report.skipped_shapes, 0);
        assert_eq!(report.model.grid_cells_obstacles_count, 0);
        let grid = report.model.grid.as_ref().unwrap();
        assert_eq!(report.model.coverage_count, grid.covered_cells);
        assert!(report.model.coverage_count > 0);
        assert_eq!(report.state.coverage_percent, report.model.coverage_percent);
    }
}

#[test]
fn a_faulty_configuration_is_told_before_anything_else() {
    // no radius, and no start position either
    let mut model = paced_model(1000);
    model.grid = None;
    model.radius = 0;
    model.start_x = -1;
    let mut rng = StdRng::seed_from_u64(3);
    match run_simulation(model, None, &mut rng) {
        Err(RunError::Config(error)) => {
            assert_eq!(error, coverage_sim::model::ConfigError::RadiusTooSmall)
        }
        other => panic!("unexpected outcome: {:?}", other.map(|report| report.model.sim_steps)),
    }
}

#[test]
fn a_run_does_not_go_on_beyond_a_limit() {
    // a limit on the distance that no whole number of steps meets
    let mut model = paced_model(1000);
    model.stop_simsteps = 0;
    model.stop_distance = 2600;
    let mut rng = StdRng::seed_from_u64(2);
    coverage_sim::sim::simulation_loop(&mut model, &mut rng).unwrap();
    assert_eq!(model.sim_steps, 6);
    assert_eq!(model.distance_covered, 3000);
    // a limit on the time: half a second per step
    let mut model = paced_model(1000);
    model.stop_simsteps = 0;
    model.stop_time = 1_750_000;
    coverage_sim::sim::simulation_loop(&mut model, &mut rng).unwrap();
    assert_eq!(model.sim_steps, 4);
    assert_eq!(model.sim_time_elapsed, 2_000_000);
    // a limit on the steps
    let mut model = paced_model(1000);
    model.perturb = true;
    model.stop_simsteps = 10;
    coverage_sim::sim::simulation_loop(&mut model, &mut rng).unwrap();
    assert_eq!(model.sim_steps, 10);
}
