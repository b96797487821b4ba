use coverage_sim::mapfile::GridConfig;
use coverage_sim::mapfile::MapFile;
use coverage_sim::model::boundingbox::BoundingBox;
use coverage_sim::model::cuttertype::CutterType;
use coverage_sim::model::init_model;
use coverage_sim::model::load_optional_mapfile;
use coverage_sim::model::set_initial_direction;
use coverage_sim::model::set_optional_random_start_position;
use coverage_sim::model::setup_grid_size;
use coverage_sim::model::ConfigError;
use coverage_sim::model::SimModel;
use coverage_sim::model::grid::Cell;
use coverage_sim::model::grid::Grid;
use coverage_sim::vector::Vector;
use coverage_sim::vector::DIR_SCALE;
use rand::rngs::StdRng;
use rand::SeedableRng;

fn plain_model() -> SimModel {
    SimModel::new(
        5000,
        5000,
        3,
        4,
        500,
        1500,
        10_000,
        8_000,
        1000,
        1000,
        0,
        0,
        1,
        0,
        0,
        false,
        0,
        CutterType::Circular,
        false,
        0,
        0,
        0,
    )
}

fn fault_of(model: SimModel) -> ConfigError {
    let mut rng = StdRng::seed_from_u64(1);
    init_model(model, &mut rng).unwrap_err()
}

#[test]
fn a_new_model_has_not_run() {
    let model = plain_model();
    assert_eq!(model.sim_steps, 0);
    assert_eq!(model.sim_time_elapsed, 0);
    assert_eq!(model.segment_number, 0);
    assert_eq!(model.distance_covered, 0);
    assert_eq!(model.battery_charge_left, 100_000);
    assert_eq!(model.battery_charge_count, 0);
    assert!(model.perturb);
    assert!(model.grid.is_none());
    assert!(model.map_file.is_none());
    assert_eq!(model.bb, BoundingBox::new(1500, 8500, 1500, 6500));
    assert_eq!(model.min_qnode_size, 8000);
}

#[test]
fn a_good_configuration_is_completed() {
    let mut rng = StdRng::seed_from_u64(1);
    let model = init_model(plain_model(), &mut rng).unwrap();
    assert_eq!(model.cell_size, 1000);
    assert_eq!(model.step_size, 500);
    assert_eq!((model.grid_cells_x, model.grid_cells_y), (10, 8));
    assert_eq!((model.grid_width, model.grid_height), (10_000, 8_000));
    assert_eq!(model.bb, BoundingBox::new(1500, 8500, 1500, 6500));
    // the direction (3, 4) scaled to unit length
    assert_eq!((model.start_dir_x, model.start_dir_y), (644_245_094, 858_993_459));
}

#[test]
fn sizes_left_open_get_their_defaults() {
    let mut rng = StdRng::seed_from_u64(1);
    let mut model = plain_model();
    model.cell_size = 0;
    model.step_size = 0;
    model.grid_width = 0;
    model.grid_height = 0;
    let model = init_model(model, &mut rng).unwrap();
    // a third of the radius, three fifths of the cell size, fifty times the radius
    assert_eq!(model.cell_size, 500);
    assert_eq!(model.step_size, 300);
    assert_eq!((model.grid_width, model.grid_height), (75_000, 75_000));
    assert_eq!((model.grid_cells_x, model.grid_cells_y), (150, 150));

    let mut blade = plain_model();
    blade.cutter_type = CutterType::Blade;
    blade.blade_len = 500;
    blade.cell_size = 0;
    blade.step_size = 0;
    blade.grid_height = 0;
    let blade = init_model(blade, &mut rng).unwrap();
    // two fifths of the blade length; the height follows the width
    assert_eq!(blade.cell_size, 200);
    assert_eq!(blade.step_size, 120);
    assert_eq!((blade.grid_width, blade.grid_height), (10_000, 10_000));
}

#[test]
fn the_area_is_stretched_to_whole_cells() {
    let mut rng = StdRng::seed_from_u64(1);
    let mut model = plain_model();
    model.cell_size = 700;
    model.grid_width = 10_000;
    model.grid_height = 7_000;
    let model = init_model(model, &mut rng).unwrap();
    assert_eq!((model.grid_cells_x, model.grid_cells_y), (15, 10));
    assert_eq!((model.grid_width, model.grid_height), (10_500, 7_000));
    assert_eq!(model.bb, BoundingBox::new(1500, 9000, 1500, 5500));
}

#[test]
fn every_fault_is_told() {
    let mut model = plain_model();
    model.stop_bounces = 0;
    assert_eq!(fault_of(model), ConfigError::NoStopCondition);

    let mut model = plain_model();
    model.radius = 0;
    assert_eq!(fault_of(model), ConfigError::RadiusTooSmall);

    let mut model = plain_model();
    model.cutter_type = CutterType::Blade;
    model.cell_size = 0;
    model.blade_len = 0;
    assert_eq!(fault_of(model), ConfigError::BladeLength);
    let mut model = plain_model();
    model.cutter_type = CutterType::Blade;
    model.cell_size = 0;
    model.blade_len = 1500;
    assert_eq!(fault_of(model), ConfigError::BladeLength);

    let mut model = plain_model();
    model.cutter_type = CutterType::Blade;
    model.cell_size = 0;
    model.blade_len = 750;
    assert_eq!(fault_of(model), ConfigError::RadiusVsBlade);

    let mut model = plain_model();
    model.radius = 2;
    model.cell_size = 0;
    assert_eq!(fault_of(model), ConfigError::CellSizeTooSmall);

    let mut model = plain_model();
    model.grid_width = 5_999;
    assert_eq!(fault_of(model), ConfigError::GridTooSmall);
    let mut model = plain_model();
    model.grid_height = -8_000;
    assert_eq!(fault_of(model), ConfigError::GridTooSmall);

    let mut model = plain_model();
    model.grid_width = 1_073_741_825;
    assert_eq!(fault_of(model), ConfigError::AreaTooLarge);
    let mut model = plain_model();
    model.radius = 30_000_000;
    model.grid_width = 0;
    model.grid_height = 0;
    assert_eq!(fault_of(model), ConfigError::AreaTooLarge);
    // the area fits, stretched to whole cells it does not
    let mut model = plain_model();
    model.grid_width = 1_073_741_824;
    model.grid_height = 1_000_000;
    model.cell_size = 1_000_000;
    model.step_size = 1000;
    assert_eq!(fault_of(model), ConfigError::AreaTooLarge);

    let mut model = plain_model();
    model.cell_size = 2;
    model.step_size = 1;
    assert_eq!(fault_of(model), ConfigError::GridTooLarge);

    let mut model = plain_model();
    model.cutter_type = CutterType::Blade;
    model.blade_len = 600;
    model.cell_size = 401;
    model.step_size = 100;
    assert_eq!(fault_of(model), ConfigError::CellSizeVsBlade);

    let mut model = plain_model();
    model.step_size = 1000;
    assert_eq!(fault_of(model), ConfigError::StepSizeTooLarge);

    let mut model = plain_model();
    model.radius = 10;
    model.grid_width = 100;
    model.grid_height = 100;
    model.cell_size = 1;
    model.step_size = 0;
    assert_eq!(fault_of(model), ConfigError::StepSizeTooSmall);

    let mut model = plain_model();
    model.velocity = 0;
    assert_eq!(fault_of(model), ConfigError::VelocityOutOfRange);
    // a step of 500 at 500,000,001 units per second takes less than a tick
    let mut model = plain_model();
    model.velocity = 500_000_001;
    assert_eq!(fault_of(model), ConfigError::VelocityOutOfRange);

    let mut model = plain_model();
    model.battery_charge_time = (1 << 62) + 1;
    assert_eq!(fault_of(model), ConfigError::ChargeTimeTooLong);

    let mut model = plain_model();
    model.wheel_slippage = true;
    assert_eq!(fault_of(model), ConfigError::SlippageRange);

    let mut model = plain_model();
    model.wheel_inbalance = true;
    model.wheel_inbalance_radius_min = 50;
    model.wheel_inbalance_radius_max = 40;
    assert_eq!(fault_of(model), ConfigError::InbalanceRange);

    let mut model = plain_model();
    model.min_qnode_size = -1;
    assert_eq!(fault_of(model), ConfigError::IndexNodeSize);
}

#[test]
fn the_fastest_velocity_that_still_takes_a_tick_is_accepted() {
    let mut rng = StdRng::seed_from_u64(1);
    let mut model = plain_model();
    model.velocity = 500_000_000;
    assert!(init_model(model, &mut rng).is_ok());
}

#[test]
fn setup_grid_size_leaves_the_model_alone_when_it_fails() {
    let mut model = plain_model();
    model.step_size = 1000;
    assert_eq!(setup_grid_size(&mut model), Err(ConfigError::StepSizeTooLarge));
    assert_eq!((model.grid_cells_x, model.grid_cells_y), (0, 0));
    model.step_size = 999;
    assert_eq!(setup_grid_size(&mut model), Ok(()));
    assert_eq!((model.grid_cells_x, model.grid_cells_y), (10, 8));
}

#[test]
fn a_direction_left_open_is_drawn() {
    let mut rng = StdRng::seed_from_u64(99);
    let first = set_initial_direction(0, 0, &mut rng);
    let second = set_initial_direction(0, 0, &mut rng);
    assert_ne!(first, second);
    for dir in [first, second] {
        // a drawn direction has unit length, up to rounding
        let length_sq = (dir.x as i64).pow(2) + (dir.y as i64).pow(2);
        let unit_sq = (DIR_SCALE as i64).pow(2);
        assert!((length_sq - unit_sq).abs() <= 4 * DIR_SCALE as i64);
    }
    assert_eq!(set_initial_direction(0, -5, &mut rng), Vector::new(0, -DIR_SCALE));
}

#[test]
fn a_map_may_prescribe_the_area() {
    let mut model = plain_model();
    let map = MapFile {
        name: String::from("yard"),
        description: Some(String::from("a yard")),
        grid: Some(GridConfig { width: Some(20_000), height: None }),
        obstacles: vec![],
    };
    assert_eq!(load_optional_mapfile(Some(map), &mut model), Ok(()));
    assert_eq!((model.grid_width, model.grid_height), (20_000, 8_000));
    assert_eq!((model.grid_cells_x, model.grid_cells_y), (20, 8));
    assert_eq!(model.bb, BoundingBox::new(1500, 18_500, 1500, 6500));
    assert_eq!(model.map_file.as_ref().unwrap().name, "yard");

    let mut other = plain_model();
    assert_eq!(load_optional_mapfile(None, &mut other), Ok(()));
    assert!(other.map_file.is_none());
    assert_eq!((other.grid_cells_x, other.grid_cells_y), (0, 0));

    let huge = MapFile {
        name: String::from("huge"),
        description: None,
        grid: Some(GridConfig { width: None, height: Some(1_073_741_825) }),
        obstacles: vec![],
    };
    assert_eq!(load_optional_mapfile(Some(huge), &mut other), Err(ConfigError::AreaTooLarge));
    assert!(other.map_file.is_none());
    assert_eq!(other.grid_height, 8_000);
}

#[test]
fn a_start_position_left_open_is_drawn_clear_of_obstacles() {
    let mut model = plain_model();
    model.grid_cells_x = 10;
    model.grid_cells_y = 8;
    let mut grid = Grid::new(10, 8, 1000);
    // obstacles everywhere but in the column x = 1
    for x in 4..10 {
        for y in 0..8 {
            grid.set_cell(x, y, Cell::Obstacle);
        }
    }
    model.grid = Some(grid);
    model.start_x = -1;
    let mut rng = StdRng::seed_from_u64(5);
    assert!(set_optional_random_start_position(&mut rng, &mut model));
    assert!(1500 <= model.start_x && model.start_x < 8500);
    assert!(1500 <= model.start_y && model.start_y < 6500);
    // radius 1500 reaches two cells: the centre cell is at most column 1
    assert!(model.start_x < 2000);

    // a start position that is given stays
    let mut given = plain_model();
    given.grid = Some(Grid::new(10, 8, 1000));
    assert!(set_optional_random_start_position(&mut rng, &mut given));
    assert_eq!((given.start_x, given.start_y), (5000, 5000));

    // nowhere to go
    let mut full = plain_model();
    let mut grid = Grid::new(10, 8, 1000);
    for x in 0..10 {
        for y in 0..8 {
            grid.set_cell(x, y, Cell::Obstacle);
        }
    }
    full.grid = Some(grid);
    full.start_y = -1;
    assert!(!set_optional_random_start_position(&mut rng, &mut full));
}
