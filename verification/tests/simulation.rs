use coverage_sim::mapfile::GridConfig;
use coverage_sim::mapfile::MapFile;
use coverage_sim::mapfile::ObstacleType;
use coverage_sim::model::cuttertype::CutterType;
use coverage_sim::model::grid::Cell;
use coverage_sim::model::grid::Grid;
use coverage_sim::model::ConfigError;
use coverage_sim::model::SimModel;
use coverage_sim::sim::begin_slippage;
use coverage_sim::sim::continue_slippage;
use coverage_sim::sim::handle_battery_charge;
use coverage_sim::sim::handle_wheel_inbalance;
use coverage_sim::sim::handle_wheel_slippage;
use coverage_sim::sim::recharge;
use coverage_sim::sim::resolve_collision;
use coverage_sim::sim::run_simulation;
use coverage_sim::sim::signed_radius;
use coverage_sim::sim::simulation_loop;
use coverage_sim::sim::simulation_step;
use coverage_sim::sim::start_state;
use coverage_sim::sim::InbalanceModel;
use coverage_sim::sim::RunError;
use coverage_sim::sim::SimError;
use coverage_sim::sim::SlippageModel;
use coverage_sim::sim::FAILSAFE_TIME_LIMIT;
use coverage_sim::strategy::choose_bounce;
use coverage_sim::strategy::choose_freely;
use coverage_sim::strategy::collision_strategy;
use coverage_sim::strategy::cutter_strategy;
use coverage_sim::strategy::is_in_disc;
use coverage_sim::vector::Vector;
use coverage_sim::vector::DIR_SCALE;
use rand::rngs::StdRng;
use rand::SeedableRng;

fn model_10x10() -> SimModel {
    let mut model = SimModel::new(
        5000,
        5000,
        DIR_SCALE,
        0,
        500,
        1500,
        10_000,
        10_000,
        1000,
        1000,
        0,
        0,
        0,
        0,
        0,
        false,
        0,
        CutterType::Circular,
        false,
        0,
        0,
        0,
    );
    model.perturb = false;
    model.grid_cells_x = 10;
    model.grid_cells_y = 10;
    model.grid = Some(Grid::new(10, 10, 1000));
    model
}

#[test]
fn the_run_stops_at_the_step_limit() {
    let mut model = model_10x10();
    model.stop_simsteps = 5;
    let mut rng = StdRng::seed_from_u64(1);
    let state = simulation_loop(&mut model, &mut rng).unwrap();
    assert_eq!(model.sim_steps, 5);
    assert_eq!(state.center, Vector::new(7500, 5000));
    assert_eq!(model.segment_number, 0);
    assert_eq!(model.distance_covered, 2500);
    // half a second per step
    assert_eq!(model.sim_time_elapsed, 2_500_000);
}

#[test]
fn the_run_stops_at_the_time_limit() {
    let mut model = model_10x10();
    model.stop_time = 1_700_000;
    let mut rng = StdRng::seed_from_u64(1);
    simulation_loop(&mut model, &mut rng).unwrap();
    // the fourth step takes the clock to 2 s
    assert_eq!(model.sim_steps, 4);
    assert_eq!(model.sim_time_elapsed, 2_000_000);
}

#[test]
fn the_run_stops_at_the_distance_limit() {
    let mut model = model_10x10();
    model.stop_distance = 1800;
    let mut rng = StdRng::seed_from_u64(1);
    simulation_loop(&mut model, &mut rng).unwrap();
    assert_eq!(model.sim_steps, 4);
    assert_eq!(model.distance_covered, 2000);
}

#[test]
fn the_run_stops_at_the_coverage_limit() {
    let mut model = model_10x10();
    model.stop_coverage = 10_000;
    let mut rng = StdRng::seed_from_u64(1);
    let state = simulation_loop(&mut model, &mut rng).unwrap();
    let (count, percent) = model.grid.as_ref().unwrap().get_coverage();
    assert!(percent >= 10_000);
    assert_eq!(state.coverage_percent, percent);
    assert!(count >= 10);
    // the step before, coverage was below the limit
    assert!(model.sim_steps >= 1);
}

#[test]
fn the_run_stops_after_the_given_bounces() {
    let mut model = model_10x10();
    model.stop_bounces = 3;
    let mut rng = StdRng::seed_from_u64(1);
    let state = simulation_loop(&mut model, &mut rng).unwrap();
    assert_eq!(model.segment_number, 3);
    // right edge, left edge, right edge
    assert_eq!(state.center, Vector::new(8500, 5000));
    assert_eq!(state.dir, Vector::new(-DIR_SCALE, 0));
    // 8 steps to the first bounce, then 15 from edge to edge, twice
    assert_eq!(model.sim_steps, 8 + 15 + 15);
}

#[test]
fn a_run_without_stop_condition_ends_at_the_failsafe() {
    let mut model = model_10x10();
    // one step takes a whole day
    model.step_size = 864;
    model.velocity = 1;
    model.cell_size = 1000;
    model.radius = 1500;
    // 864 units at 1 unit per second: 864 s per step
    let mut rng = StdRng::seed_from_u64(1);
    simulation_loop(&mut model, &mut rng).unwrap();
    assert!(model.sim_time_elapsed >= FAILSAFE_TIME_LIMIT);
    assert!(model.sim_time_elapsed < FAILSAFE_TIME_LIMIT + 864_000_000);
    assert_eq!(model.sim_steps, 700);
    assert_eq!(model.sim_time_elapsed, 700 * 864_000_000);
}

#[test]
fn the_cutter_stays_in_the_bounding_box() {
    let mut model = model_10x10();
    model.perturb = true;
    model.perturb_segment = true;
    model.perturb_segment_percent = 200_000;
    model.wheel_inbalance = true;
    model.wheel_inbalance_radius_min = 3000;
    model.wheel_inbalance_radius_max = 9000;
    model.wheel_inbalance_adjustment_step = 400;
    model.wheel_slippage = true;
    model.slippage_probability = 300_000;
    model.slippage_min_distance = 2000;
    model.slippage_max_distance = 6000;
    model.slippage_radius_min = 2000;
    model.slippage_radius_max = 8000;
    model.slippage_check_activation_distance = 1500;
    model.slippage_adjustment_step = 300;
    model.track_center = true;
    model.stop_simsteps = 5000;
    let mut rng = StdRng::seed_from_u64(2024);
    let mut state = start_state(&mut model, &mut rng);
    assert_ne!(state.inbalance.radius, 0);
    assert_eq!(model.wheel_inbalance_radius_used, state.inbalance.radius);
    let mut last_count = 0;
    let mut hits = 0;
    while model.should_continue(state.coverage_percent) {
        let steps = model.sim_steps;
        let time = model.sim_time_elapsed;
        if simulation_step(&mut model, &mut state, &mut rng).unwrap() {
            hits += 1;
        }
        assert!(1500 <= state.center.x && state.center.x <= 8500);
        assert!(1500 <= state.center.y && state.center.y <= 8500);
        assert!(state.dir.x.abs() <= DIR_SCALE && state.dir.y.abs() <= DIR_SCALE);
        assert_eq!(model.sim_steps, steps + 1);
        assert_eq!(model.sim_time_elapsed, time + 500_000);
        let count = model.grid.as_ref().unwrap().get_coverage_count();
        assert!(count >= last_count);
        last_count = count;
    }
    assert_eq!(model.sim_steps, 5000);
    assert_eq!(model.segment_number, hits);
    assert!(hits > 10);
    assert!(last_count > 30);
}

#[test]
fn the_cutter_bounces_off_an_obstacle() {
    let mut model = model_10x10();
    model.stop_bounces = 1;
    for y in 0..10 {
        model.grid.as_mut().unwrap().set_cell(9, y, Cell::Obstacle);
    }
    let mut rng = StdRng::seed_from_u64(1);
    let state = simulation_loop(&mut model, &mut rng).unwrap();
    // radius 1500 reaches two cells: column 9 is in reach from column 7 on,
    // which the cutter enters at x = 7000, after four steps; it is set back one step
    assert_eq!(model.sim_steps, 4);
    assert_eq!(model.segment_number, 1);
    assert_eq!(state.center, Vector::new(6500, 5000));
    assert_eq!(state.dir, Vector::new(-DIR_SCALE, 0));
    assert_eq!(model.grid.as_ref().unwrap().num_detailed_collision_checks, 4);
    for y in 0..10 {
        assert!(model.grid.as_ref().unwrap().get_cell(9, y).unwrap().is_obstacle());
    }
}

#[test]
fn covering_an_obstacle_fails_the_step() {
    let mut model = model_10x10();
    model.stop_simsteps = 10;
    model.grid.as_mut().unwrap().set_cell(5, 5, Cell::Obstacle);
    let mut rng = StdRng::seed_from_u64(1);
    assert_eq!(simulation_loop(&mut model, &mut rng), Err(SimError::ObstacleInFootprint));
    assert_eq!(model.grid.as_ref().unwrap().get_coverage_count(), 0);
    assert!(model.grid.as_ref().unwrap().get_cell(5, 5).unwrap().is_obstacle());
}

#[test]
fn collision_check_on_the_boundary_comes_first() {
    let mut model = model_10x10();
    model.grid.as_mut().unwrap().set_cell(9, 5, Cell::Obstacle);
    let mut center = Vector::new(8600, 5000);
    let mut dir = Vector::new(644_245_094, 858_993_459);
    assert!(resolve_collision(&mut model, &mut center, &mut dir));
    assert_eq!(center, Vector::new(8500, 5000));
    assert_eq!(dir, Vector::new(-644_245_094, 858_993_459));
    assert_eq!(model.segment_number, 1);
    // the obstacle check was skipped
    assert_eq!(model.grid.as_ref().unwrap().num_detailed_collision_checks, 0);

    let mut center = Vector::new(7000, 5000);
    assert!(resolve_collision(&mut model, &mut center, &mut dir));
    // reversed, and set back one step of 500 along the new direction
    assert_eq!(dir, Vector::new(644_245_094, -858_993_459));
    assert_eq!(center, Vector::new(7299, 4601));
    assert_eq!(model.segment_number, 2);

    let mut center = Vector::new(3000, 3000);
    assert!(!resolve_collision(&mut model, &mut center, &mut dir));
    assert_eq!(center, Vector::new(3000, 3000));
    assert_eq!(dir, Vector::new(644_245_094, -858_993_459));
    assert_eq!(model.segment_number, 2);
}

#[test]
fn the_battery_runs_down_and_is_charged() {
    let mut model = model_10x10();
    let mut rng = StdRng::seed_from_u64(3);
    // without a battery nothing happens
    assert_eq!(handle_battery_charge(&mut model, 123, &mut rng), 123);
    assert_eq!(model.battery_charge_left, 100_000);
    // one hour of run time, two hours to charge
    model.battery_run_time = 3_600_000_000;
    model.battery_charge_time = 7_200_000_000;
    assert_eq!(handle_battery_charge(&mut model, 900_000_000, &mut rng), 900_000_000);
    assert_eq!(model.battery_charge_left, 75_000);
    assert_eq!(model.battery_charge_count, 0);
    assert_eq!(handle_battery_charge(&mut model, 3_600_000_000, &mut rng), 3_600_000_000);
    assert_eq!(model.battery_charge_left, 0);
    assert_eq!(model.sim_time_elapsed, 0);
    assert_eq!(handle_battery_charge(&mut model, 3_600_036_000, &mut rng), 0);
    assert_eq!(model.battery_charge_left, -1);
    assert_eq!(model.battery_charge_count, 1);
    // between 3 and 15 minutes to the station, then the charging
    assert!(model.sim_time_elapsed >= 7_200_000_000 + 180_000_000);
    assert!(model.sim_time_elapsed <= 7_200_000_000 + 900_000_000);
    let before = model.sim_time_elapsed;
    recharge(&mut model, 500);
    assert_eq!(model.sim_time_elapsed, before + 500 + 7_200_000_000);
    assert_eq!(model.battery_charge_count, 2);
}

#[test]
fn a_run_with_a_battery_counts_its_charges() {
    let mut model = model_10x10();
    model.stop_time = 100_000_000;
    // ten seconds of run time, one second to charge
    model.battery_run_time = 10_000_000;
    model.battery_charge_time = 1_000_000;
    let mut rng = StdRng::seed_from_u64(3);
    simulation_loop(&mut model, &mut rng).unwrap();
    // the battery is empty after 21 steps; finding the station takes 3 minutes at least
    assert_eq!(model.sim_steps, 21);
    assert_eq!(model.battery_charge_count, 1);
    assert!(model.sim_time_elapsed >= 10_500_000 + 180_000_000 + 1_000_000);
}

#[test]
fn wheel_imbalance_turns_at_every_adjustment_step() {
    let mut model = model_10x10();
    model.wheel_inbalance = true;
    model.wheel_inbalance_adjustment_step = 1000;
    let mut inbalance = InbalanceModel::new();
    inbalance.radius = 100_000;
    let mut dir = Vector::new(DIR_SCALE, 0);
    model.distance_covered = 999;
    handle_wheel_inbalance(&model, &mut inbalance, &mut dir);
    assert_eq!(dir, Vector::new(DIR_SCALE, 0));
    assert_eq!(inbalance.last_adjustment_distance, 0);
    model.distance_covered = 1000;
    handle_wheel_inbalance(&model, &mut inbalance, &mut dir);
    // turned by 1000 / 100000
    assert_eq!(dir, Vector::new(1_073_688_140, 10_736_881));
    assert_eq!(inbalance.last_adjustment_distance, 1000);
    model.distance_covered = 1500;
    handle_wheel_inbalance(&model, &mut inbalance, &mut dir);
    assert_eq!(dir, Vector::new(1_073_688_140, 10_736_881));
    model.wheel_inbalance = false;
    model.distance_covered = 5000;
    handle_wheel_inbalance(&model, &mut inbalance, &mut dir);
    assert_eq!(dir, Vector::new(1_073_688_140, 10_736_881));
    assert_eq!(signed_radius(1, 40), -40);
    assert_eq!(signed_radius(0, 40), 40);
}

#[test]
fn a_slippage_begins_turns_and_ends() {
    let mut model = model_10x10();
    model.wheel_slippage = true;
    model.slippage_adjustment_step = 1000;
    model.distance_covered = 7000;
    let mut slip = SlippageModel::new();
    let mut dir = Vector::new(DIR_SCALE, 0);
    begin_slippage(&model, &mut slip, &mut dir, -100_000, 1200);
    assert_eq!(
        slip,
        SlippageModel {
            within_slippage: true,
            current_distance: 0,
            adjustment_radius: -100_000,
            end_distance: 1200,
            last_adjustment_distance: 7000,
            last_activation_check: 7000,
        }
    );
    assert_eq!(dir, Vector::new(1_073_688_140, -10_736_881));
    // not yet an adjustment step further
    model.distance_covered = 7500;
    continue_slippage(&model, &mut slip, &mut dir);
    assert_eq!(dir, Vector::new(1_073_688_140, -10_736_881));
    assert_eq!(slip.current_distance, 500);
    assert!(slip.within_slippage);
    // an adjustment, the arc is not yet at its end
    model.distance_covered = 8000;
    continue_slippage(&model, &mut slip, &mut dir);
    assert_ne!(dir, Vector::new(1_073_688_140, -10_736_881));
    assert!(dir.y < -10_736_881);
    assert_eq!(slip.current_distance, 1000);
    assert_eq!(slip.last_adjustment_distance, 8000);
    assert!(slip.within_slippage);
    model.distance_covered = 8500;
    continue_slippage(&model, &mut slip, &mut dir);
    assert_eq!(slip.current_distance, 1500);
    // the next adjustment finds the arc at its end
    model.distance_covered = 9000;
    let before = dir;
    continue_slippage(&model, &mut slip, &mut dir);
    assert_ne!(dir, before);
    assert!(!slip.within_slippage);
    assert_eq!(slip.current_distance, 500);
    assert_eq!(slip.last_activation_check, 9000);
}

#[test]
fn slippage_is_decided_by_lot_at_every_check_distance() {
    let mut model = model_10x10();
    model.slippage_check_activation_distance = 1000;
    model.slippage_adjustment_step = 100;
    model.slippage_radius_min = 5000;
    model.slippage_radius_max = 6000;
    model.slippage_min_distance = 300;
    model.slippage_max_distance = 400;
    let mut rng = StdRng::seed_from_u64(4);
    let mut slip = SlippageModel::new();
    let mut dir = Vector::new(0, DIR_SCALE);
    // switched off
    model.distance_covered = 5000;
    handle_wheel_slippage(&model, &mut slip, &mut dir, &mut rng);
    assert_eq!(slip, SlippageModel::new());
    model.wheel_slippage = true;
    // not yet due
    model.distance_covered = 999;
    handle_wheel_slippage(&model, &mut slip, &mut dir, &mut rng);
    assert_eq!(slip, SlippageModel::new());
    // due, but never by lot
    model.slippage_probability = 0;
    model.distance_covered = 1000;
    handle_wheel_slippage(&model, &mut slip, &mut dir, &mut rng);
    assert_eq!(slip.last_activation_check, 1000);
    assert!(!slip.within_slippage);
    assert_eq!(dir, Vector::new(0, DIR_SCALE));
    // due, and always by lot
    model.slippage_probability = 1_000_000;
    model.distance_covered = 2000;
    handle_wheel_slippage(&model, &mut slip, &mut dir, &mut rng);
    assert!(slip.within_slippage);
    assert!((5000..=6000).contains(&slip.adjustment_radius.abs()));
    assert!((300..=400).contains(&slip.end_distance));
    assert_eq!(slip.last_activation_check, 2000);
    assert_eq!(slip.last_adjustment_distance, 2000);
    assert_eq!(slip.current_distance, 0);
    assert_ne!(dir, Vector::new(0, DIR_SCALE));
    assert_eq!(dir.x > 0, slip.adjustment_radius < 0);
}

#[test]
fn candidates_for_a_bounce() {
    let ahead = Vector::new(DIR_SCALE, 0);
    assert!(is_in_disc(Vector::new(0, DIR_SCALE)));
    assert!(!is_in_disc(Vector::new(1, DIR_SCALE)));
    assert!(!is_in_disc(Vector::new(0, 0)));
    assert!(is_in_disc(Vector::new(-1, 0)));
    assert_eq!(choose_freely(Vector::new(0, 0)), None);
    assert_eq!(choose_freely(Vector::new(DIR_SCALE, DIR_SCALE)), None);
    assert_eq!(choose_freely(Vector::new(-3, 4)), Some(Vector::new(-644_245_094, 858_993_459)));
    // straight ahead, and at 45 degrees
    assert_eq!(choose_bounce(ahead, Vector::new(5, 0)), Some(ahead));
    assert_eq!(choose_bounce(ahead, Vector::new(7, -7)), Some(Vector::new(759_250_125, -759_250_125)));
    // (1000, 1732) is at just below 60 degrees, (1000, 1733) at just above
    assert!(choose_bounce(ahead, Vector::new(1000, 1732)).is_some());
    assert_eq!(choose_bounce(ahead, Vector::new(1000, 1733)), None);
    assert_eq!(choose_bounce(ahead, Vector::new(1000, -1733)), None);
    // backwards, sideways, outside the disc
    assert_eq!(choose_bounce(ahead, Vector::new(-5, 0)), None);
    assert_eq!(choose_bounce(ahead, Vector::new(0, 5)), None);
    assert_eq!(choose_bounce(ahead, Vector::new(DIR_SCALE, 1)), None);
    // exactly 60 degrees from (1, 0) is not a lattice point; from (0, 2) the
    // candidate (0, 1) is at 0 degrees
    assert!(choose_bounce(Vector::new(0, 2), Vector::new(0, 1)).is_some());
}

#[test]
fn the_strategy_turns_the_cutter_only_when_told() {
    let mut model = model_10x10();
    let mut rng = StdRng::seed_from_u64(8);
    let dir = Vector::new(644_245_094, 858_993_459);
    let at = Vector::new(5000, 5000);
    // no perturbation of any kind
    assert_eq!(collision_strategy(&model, &dir, &at, &mut rng), dir);
    assert_eq!(cutter_strategy(&dir, &at, true, &model, &mut rng), dir);
    assert_eq!(cutter_strategy(&dir, &at, false, &model, &mut rng), dir);
    // perturbation at bounces
    model.perturb = true;
    assert_eq!(cutter_strategy(&dir, &at, false, &model, &mut rng), dir);
    let mut changed = 0;
    for _ in 0..50 {
        let turned = cutter_strategy(&dir, &at, true, &model, &mut rng);
        if turned != dir {
            changed += 1;
        }
        // within 60 degrees: the cosine is one half at least, up to rounding
        let dot = turned.x as i128 * dir.x as i128 + turned.y as i128 * dir.y as i128;
        assert!(2 * dot >= (DIR_SCALE as i128).pow(2) - 4 * DIR_SCALE as i128);
    }
    assert!(changed >= 49);
    // perturbation on the way: two steps per cell, always by lot
    model.perturb = false;
    model.perturb_segment = true;
    model.perturb_segment_percent = 1_000_000;
    model.sim_steps = 7;
    assert_eq!(cutter_strategy(&dir, &at, false, &model, &mut rng), dir);
    model.sim_steps = 8;
    assert_ne!(cutter_strategy(&dir, &at, false, &model, &mut rng), dir);
    model.perturb_segment_percent = 0;
    assert_eq!(cutter_strategy(&dir, &at, false, &model, &mut rng), dir);
}

#[test]
fn a_whole_simulation_with_a_map() {
    let model = SimModel::new(
        -1,
        -1,
        0,
        0,
        0,
        300,
        0,
        0,
        0,
        200,
        0,
        0,
        0,
        2000,
        0,
        true,
        0,
        CutterType::Circular,
        true,
        50_000,
        0,
        0,
    );
    let map = MapFile {
        name: String::from("court"),
        description: None,
        grid: Some(GridConfig { width: Some(6000), height: Some(4000) }),
        obstacles: vec![
            ObstacleType::Rectangle { x: 2500, y: 1500, width: 1000, height: 1000, name: None },
            ObstacleType::Circle { x: 5000, y: 3000, radius: 300, name: None },
            ObstacleType::Polygon { points: vec![Vector::new(1, 1)], name: None },
        ],
    };
    let mut configured = model;
    configured.use_quad_tree = true;
    configured.min_qnode_size = 2000;
    let mut rng = StdRng::seed_from_u64(77);
    let report = run_simulation(configured, Some(map), &mut rng).unwrap();
    let model = &report.model;
    assert_eq!(report.skipped_shapes, 1);
    assert_eq!(model.num_obstacles, 3);
    assert_eq!(model.cell_size, 100);
    assert_eq!(model.step_size, 60);
    assert_eq!((model.grid_cells_x, model.grid_cells_y), (60, 40));
    assert_eq!(model.sim_steps, 2000);
    // 60 units at 200 units per second: 0.3 s per step
    assert_eq!(model.sim_time_elapsed, 2000 * 300_000);
    assert_eq!(model.distance_covered, 2000 * 60);
    let grid = model.grid.as_ref().unwrap();
    assert!(grid.quadtree.is_some());
    assert!(grid.use_quad_tree);
    assert_eq!(model.coverage_count, grid.get_coverage_count());
    assert_eq!(model.coverage_percent, grid.get_coverage_percent());
    assert_eq!(model.grid_cells_obstacles_count, grid.get_obstacle_count());
    assert!(model.coverage_count > 100);
    assert!(grid.get_obstacle_count() >= 100);
    assert!(300 <= report.state.center.x && report.state.center.x <= 5700);
    assert!(300 <= report.state.center.y && report.state.center.y <= 3700);
    assert!(model.map_file.is_some());
    // the same seed gives the same run
    let again = SimModel::new(
        -1,
        -1,
        0,
        0,
        0,
        300,
        6000,
        4000,
        0,
        200,
        0,
        0,
        0,
        2000,
        0,
        true,
        0,
        CutterType::Circular,
        true,
        50_000,
        0,
        0,
    );
    let mut again = again;
    again.use_quad_tree = true;
    again.min_qnode_size = 2000;
    let map = MapFile {
        name: String::from("court"),
        description: None,
        grid: None,
        obstacles: vec![
            ObstacleType::Rectangle { x: 2500, y: 1500, width: 1000, height: 1000, name: None },
            ObstacleType::Circle { x: 5000, y: 3000, radius: 300, name: None },
            ObstacleType::Polygon { points: vec![Vector::new(1, 1)], name: None },
        ],
    };
    let mut rng = StdRng::seed_from_u64(77);
    let second = run_simulation(again, Some(map), &mut rng).unwrap();
    assert_eq!(second.state, report.state);
    assert_eq!(second.model.coverage_count, report.model.coverage_count);
    assert_eq!(second.model.segment_number, report.model.segment_number);
}

#[test]
fn a_whole_simulation_tells_what_went_wrong() {
    let mut rng = StdRng::seed_from_u64(77);
    let mut model = model_10x10();
    model.grid = None;
    assert_eq!(
        run_simulation(model, None, &mut rng).unwrap_err(),
        RunError::Config(ConfigError::NoStopCondition)
    );
    // the start position is left open, and the map leaves no free position
    let mut model = model_10x10();
    model.grid = None;
    model.stop_simsteps = 10;
    model.start_x = -1;
    let map = MapFile {
        name: String::from("wall"),
        description: None,
        grid: None,
        obstacles: vec![ObstacleType::Rectangle {
            x: 0,
            y: 0,
            width: 10_000,
            height: 10_000,
            name: None,
        }],
    };
    assert_eq!(run_simulation(model, Some(map), &mut rng).unwrap_err(), RunError::NoStartPosition);
    // the start position is given, in the middle of an obstacle
    let mut model = model_10x10();
    model.grid = None;
    model.stop_simsteps = 10;
    let map = MapFile {
        name: String::from("block"),
        description: None,
        grid: None,
        obstacles: vec![ObstacleType::Rectangle {
            x: 4000,
            y: 4000,
            width: 3000,
            height: 2000,
            name: None,
        }],
    };
    assert_eq!(
        run_simulation(model, Some(map), &mut rng).unwrap_err(),
        RunError::Sim(SimError::ObstacleInFootprint)
    );
}

#[test]
fn a_run_with_no_step_due_returns_its_start() {
    let mut model = model_10x10();
    model.stop_simsteps = 5;
    model.sim_steps = 5;
    model.distance_covered = 2500;
    model.start_x = 100;
    model.start_y = 9900;
    model.grid.as_mut().unwrap().set_cell(0, 0, Cell::Obstacle);
    let mut rng = StdRng::seed_from_u64(1);
    let state = simulation_loop(&mut model, &mut rng).unwrap();
    // the start position, limited to the bounding box
    assert_eq!(state.center, Vector::new(1500, 8500));
    assert_eq!(state.dir, Vector::new(DIR_SCALE, 0));
    assert_eq!(state.slippage, SlippageModel::new());
    assert_eq!(state.coverage_percent, 0);
    assert_eq!(model.sim_steps, 5);
    assert_eq!(model.distance_covered, 2500);
    assert_eq!(model.sim_time_elapsed, 0);
    assert_eq!(model.grid.as_ref().unwrap().get_coverage_count(), 0);
}

#[test]
fn a_failed_run_has_counted_its_steps() {
    let mut model = model_10x10();
    model.stop_simsteps = 100;
    // the cutter starts beside the obstacle and covers it with its first step
    model.grid.as_mut().unwrap().set_cell(5, 5, Cell::Obstacle);
    let mut rng = StdRng::seed_from_u64(1);
    assert_eq!(simulation_loop(&mut model, &mut rng), Err(SimError::ObstacleInFootprint));
    assert_eq!(model.sim_steps, 1);
    assert_eq!(model.distance_covered, 500);
    assert_eq!(model.sim_time_elapsed, 0);
    assert_eq!(model.segment_number, 0);
    assert_eq!(model.grid.as_ref().unwrap().get_obstacle_count(), 1);
    assert_eq!(model.grid.as_ref().unwrap().get_coverage_count(), 0);
}
