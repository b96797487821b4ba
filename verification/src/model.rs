use crate::geometry::cells_spanned;
use crate::geometry::cells_spanned_by;
use crate::geometry::clamp_to_coordinate;
use crate::mapfile::GridConfig;
use crate::mapfile::MapFile;
use crate::mapfile::apply_obstacles_to_grid;
use crate::mapfile::degenerate_count;
use crate::mapfile::obstacles_mark;
use crate::model::boundingbox::BoundingBox;
use crate::model::cuttertype::CutterType;
use crate::model::grid::Cell;
use crate::model::grid::Grid;
use crate::random::random_in_range;
use crate::strategy::MAX_DRAWS;
use crate::strategy::choose_freely;
use crate::strategy::draw_candidate;
use crate::strategy::free_choice;
use crate::vector::DIR_SCALE;
use crate::vector::Vector;
use crate::vector::normalize;
use crate::vector::unit_vector;
use rand::rngs::StdRng;
use vstd::prelude::*;

pub mod boundingbox;
pub mod coverageinfo;
pub mod cuttertype;
pub mod grid;
pub mod papersize;
pub mod quadtree;

verus! {

/// Simulated time is counted in ticks of one microsecond.
pub const TICKS_PER_SECOND: u64 = 1_000_000;

/// The largest width and height of the area, in world units.
pub const MAX_EXTENT: i32 = 1_073_741_824;

/// The longest time the battery may take to charge, in ticks.
pub const MAX_CHARGE_TIME: u64 = 0x4000_0000_0000_0000;

/// Probabilities are given in parts per million.
pub const MILLION: u32 = 1_000_000;

/// The run state of a simulation together with its configuration.
///
/// Lengths are in world units, durations in ticks, probabilities in parts per
/// million, percentages in thousandths of a percent, directions in fixed
/// point with unit length `DIR_SCALE`. A stop condition of 0 is switched off.
#[derive(Debug)]
pub struct SimModel {
    pub start_x: i32,
    pub start_y: i32,
    pub start_dir_x: i32,
    pub start_dir_y: i32,
    pub step_size: i32,
    pub radius: i32,
    pub grid_cells_x: usize,
    pub grid_cells_y: usize,
    pub grid_width: i32,
    pub grid_height: i32,
    pub cell_size: i32,
    /// World units per second.
    pub velocity: i32,
    pub sim_time_elapsed: u64,
    pub segment_number: usize,
    pub coverage_percent: u32,
    pub coverage_count: usize,
    pub grid_cells_obstacles_count: usize,
    pub num_obstacles: usize,
    pub max_visited_number: usize,
    pub min_visited_number: usize,
    /// Bounces turn the cutter by a random angle of at most 60 degrees.
    pub perturb: bool,
    pub sim_steps: u64,
    pub distance_covered: u64,
    pub stop_coverage: u32,
    pub stop_time: u64,
    pub stop_bounces: usize,
    pub stop_simsteps: u64,
    pub stop_distance: u64,
    pub track_center: bool,
    pub blade_len: i32,
    pub cutter_type: CutterType,
    pub perturb_segment: bool,
    pub perturb_segment_percent: u32,
    pub grid: Option<Grid>,
    pub bb: BoundingBox,
    pub battery_run_time: u64,
    pub battery_charge_time: u64,
    pub battery_charge_count: usize,
    pub battery_charge_left: i64,
    pub map_file: Option<MapFile>,
    pub wheel_slippage: bool,
    pub slippage_probability: u32,
    pub slippage_min_distance: i32,
    pub slippage_max_distance: i32,
    pub slippage_radius_min: i32,
    pub slippage_radius_max: i32,
    pub slippage_check_activation_distance: i32,
    pub slippage_adjustment_step: i32,
    pub wheel_inbalance: bool,
    pub wheel_inbalance_radius_min: i32,
    pub wheel_inbalance_radius_max: i32,
    pub wheel_inbalance_adjustment_step: i32,
    pub wheel_inbalance_radius_used: i32,
    /// Smallest node of the spatial index as a multiple of the radius, in thousandths.
    pub min_qnode_size: i32,
    pub use_quad_tree: bool,
}

impl SimModel {
    /// Ticks that one step takes: the step length over the velocity.
    pub open spec fn time_per_step(&self) -> int {
        self.step_size * TICKS_PER_SECOND / (self.velocity as int)
    }

    /// The configuration is one that a run can start from.
    pub open spec fn config_ok(&self) -> bool {
        &&& self.radius >= 1
        &&& 1 <= self.step_size < self.cell_size
        &&& self.velocity >= 1
        &&& self.time_per_step() >= 1
        &&& self.grid_width <= MAX_EXTENT
        &&& self.grid_height <= MAX_EXTENT
        &&& self.bb.min_x == self.radius
        &&& self.bb.max_x == self.grid_width - self.radius
        &&& self.bb.min_y == self.radius
        &&& self.bb.max_y == self.grid_height - self.radius
        &&& self.bb.valid()
        &&& self.battery_charge_time <= MAX_CHARGE_TIME
        &&& self.wheel_slippage ==> {
            &&& 1 <= self.slippage_radius_min <= self.slippage_radius_max
            &&& 0 <= self.slippage_min_distance <= self.slippage_max_distance
        }
        &&& self.wheel_inbalance ==> 1 <= self.wheel_inbalance_radius_min
            <= self.wheel_inbalance_radius_max
        &&& self.min_qnode_size >= 0
    }

    /// The model owns a well-formed grid of the configured size.
    pub open spec fn grid_ok(&self) -> bool {
        match self.grid {
            Some(g) => {
                &&& g.wf()
                &&& g.cell_size == self.cell_size
                &&& g.cells_x == self.grid_cells_x
                &&& g.cells_y == self.grid_cells_y
                &&& g.cells_x * g.cell_size == self.grid_width
                &&& g.cells_y * g.cell_size == self.grid_height
            },
            None => false,
        }
    }

    /// The model can be run.
    pub open spec fn ready(&self) -> bool {
        self.config_ok() && self.grid_ok()
    }

    /// `self` and `other` have the same configuration: they differ at most in
    /// the run state (counters, clock, battery, results) and in the grid.
    pub open spec fn same_config(&self, other: &SimModel) -> bool {
        &&& self.start_x == other.start_x
        &&& self.start_y == other.start_y
        &&& self.start_dir_x == other.start_dir_x
        &&& self.start_dir_y == other.start_dir_y
        &&& self.step_size == other.step_size
        &&& self.radius == other.radius
        &&& self.grid_cells_x == other.grid_cells_x
        &&& self.grid_cells_y == other.grid_cells_y
        &&& self.grid_width == other.grid_width
        &&& self.grid_height == other.grid_height
        &&& self.cell_size == other.cell_size
        &&& self.velocity == other.velocity
        &&& self.perturb == other.perturb
        &&& self.stop_coverage == other.stop_coverage
        &&& self.stop_time == other.stop_time
        &&& self.stop_bounces == other.stop_bounces
        &&& self.stop_simsteps == other.stop_simsteps
        &&& self.stop_distance == other.stop_distance
        &&& self.track_center == other.track_center
        &&& self.blade_len == other.blade_len
        &&& self.cutter_type == other.cutter_type
        &&& self.perturb_segment == other.perturb_segment
        &&& self.perturb_segment_percent == other.perturb_segment_percent
        &&& self.bb == other.bb
        &&& self.battery_run_time == other.battery_run_time
        &&& self.battery_charge_time == other.battery_charge_time
        &&& self.wheel_slippage == other.wheel_slippage
        &&& self.slippage_probability == other.slippage_probability
        &&& self.slippage_min_distance == other.slippage_min_distance
        &&& self.slippage_max_distance == other.slippage_max_distance
        &&& self.slippage_radius_min == other.slippage_radius_min
        &&& self.slippage_radius_max == other.slippage_radius_max
        &&& self.slippage_check_activation_distance == other.slippage_check_activation_distance
        &&& self.slippage_adjustment_step == other.slippage_adjustment_step
        &&& self.wheel_inbalance == other.wheel_inbalance
        &&& self.wheel_inbalance_radius_min == other.wheel_inbalance_radius_min
        &&& self.wheel_inbalance_radius_max == other.wheel_inbalance_radius_max
        &&& self.wheel_inbalance_adjustment_step == other.wheel_inbalance_adjustment_step
        &&& self.min_qnode_size == other.min_qnode_size
        &&& self.use_quad_tree == other.use_quad_tree
        &&& self.num_obstacles == other.num_obstacles
        &&& self.map_file == other.map_file
    }

    /// A model with the given configuration, before any step: all counters at
    /// 0, the battery full, no grid yet, the wheel models switched off, bounce
    /// perturbation switched on.
    pub fn new(
        start_x: i32,
        start_y: i32,
        start_dir_x: i32,
        start_dir_y: i32,
        step_size: i32,
        radius: i32,
        grid_width: i32,
        grid_height: i32,
        cell_size: i32,
        velocity: i32,
        stop_coverage: u32,
        stop_time: u64,
        stop_bounces: usize,
        stop_simsteps: u64,
        stop_distance: u64,
        track_center: bool,
        blade_len: i32,
        cutter_type: CutterType,
        perturb_segment: bool,
        perturb_segment_percent: u32,
        battery_run_time: u64,
        battery_charge_time: u64,
    ) -> (model: Self)
        ensures
            model.start_x == start_x,
            model.start_y == start_y,
            model.start_dir_x == start_dir_x,
            model.start_dir_y == start_dir_y,
            model.step_size == step_size,
            model.radius == radius,
            model.grid_width == grid_width,
            model.grid_height == grid_height,
            model.cell_size == cell_size,
            model.velocity == velocity,
            model.stop_coverage == stop_coverage,
            model.stop_time == stop_time,
            model.stop_bounces == stop_bounces,
            model.stop_simsteps == stop_simsteps,
            model.stop_distance == stop_distance,
            model.track_center == track_center,
            model.blade_len == blade_len,
            model.cutter_type == cutter_type,
            model.perturb_segment == perturb_segment,
            model.perturb_segment_percent == perturb_segment_percent,
            model.battery_run_time == battery_run_time,
            model.battery_charge_time == battery_charge_time,
            model.grid_cells_x == 0 && model.grid_cells_y == 0,
            model.sim_time_elapsed == 0 && model.segment_number == 0 && model.sim_steps == 0
                && model.distance_covered == 0,
            model.coverage_percent == 0 && model.coverage_count == 0,
            model.grid_cells_obstacles_count == 0 && model.num_obstacles == 0,
            model.max_visited_number == 0 && model.min_visited_number == 0,
            model.perturb,
            model.grid is None && model.map_file is None,
            model.battery_charge_count == 0 && model.battery_charge_left == 100_000,
            !model.wheel_slippage && !model.wheel_inbalance && !model.use_quad_tree,
            model.min_qnode_size == 8000,
            model.bb.min_x == radius && model.bb.min_y == radius,
            model.bb.max_x == crate::geometry::clamp_coordinate(grid_width - radius),
            model.bb.max_y == crate::geometry::clamp_coordinate(grid_height - radius),
    {
        Self {
            start_x,
            start_y,
            start_dir_x,
            start_dir_y,
            step_size,
            radius,
            grid_cells_x: 0,
            grid_cells_y: 0,
            grid_width,
            grid_height,
            cell_size,
            velocity,
            sim_time_elapsed: 0,
            segment_number: 0,
            coverage_percent: 0,
            coverage_count: 0,
            grid_cells_obstacles_count: 0,
            num_obstacles: 0,
            max_visited_number: 0,
            min_visited_number: 0,
            perturb: true,
            sim_steps: 0,
            distance_covered: 0,
            stop_coverage,
            stop_time,
            stop_bounces,
            stop_simsteps,
            stop_distance,
            track_center,
            blade_len,
            cutter_type,
            perturb_segment,
            perturb_segment_percent,
            grid: None,
            bb: BoundingBox::new(
                radius,
                clamp_to_coordinate(grid_width as i64 - radius as i64),
                radius,
                clamp_to_coordinate(grid_height as i64 - radius as i64),
            ),
            battery_run_time,
            battery_charge_time,
            battery_charge_count: 0,
            battery_charge_left: 100_000,
            map_file: None,
            wheel_slippage: false,
            slippage_probability: 20_000,
            slippage_min_distance: 0,
            slippage_max_distance: 0,
            slippage_radius_min: 0,
            slippage_radius_max: 0,
            slippage_check_activation_distance: 0,
            slippage_adjustment_step: 0,
            wheel_inbalance: false,
            wheel_inbalance_radius_min: 0,
            wheel_inbalance_radius_max: 0,
            wheel_inbalance_adjustment_step: 0,
            wheel_inbalance_radius_used: 0,
            min_qnode_size: 8000,
            use_quad_tree: false,
        }
    }
}


/// The most cells a grid may have.
pub const MAX_CELLS: u64 = 10_000_000;

/// Why a configuration cannot be run.
#[derive(Debug, Clone, Copy, PartialEq, Eq, Structural)]
pub enum ConfigError {
    /// None of the stop conditions is switched on.
    NoStopCondition,
    /// The radius is not above 0.
    RadiusTooSmall,
    /// The blade is not longer than 0, or not shorter than the radius.
    BladeLength,
    /// The radius is not more than twice the blade length.
    RadiusVsBlade,
    /// The cell size, given or derived, is not above 0.
    CellSizeTooSmall,
    /// The area is narrower or lower than four times the radius.
    GridTooSmall,
    /// The grid would have more than `MAX_CELLS` cells.
    GridTooLarge,
    /// The area is wider or higher than `MAX_EXTENT`.
    AreaTooLarge,
    /// The cell size is not below two thirds of the blade length.
    CellSizeVsBlade,
    /// The step size is not below the cell size.
    StepSizeTooLarge,
    /// The step size, given or derived, is not above 0.
    StepSizeTooSmall,
    /// The velocity is not above 0, or so high that a step takes no tick.
    VelocityOutOfRange,
    /// The battery takes longer than `MAX_CHARGE_TIME` to charge.
    ChargeTimeTooLong,
    /// A range of the wheel slippage model is empty or holds a radius below 1.
    SlippageRange,
    /// The radius range of the wheel imbalance model is empty or holds a radius below 1.
    InbalanceRange,
    /// The smallest node size of the spatial index is below 0.
    IndexNodeSize,
}

/// The cell size that a run uses: the configured one or, where that is not
/// above 0, two fifths of the blade length for a blade and a third of the
/// radius for a circular cutter.
pub open spec fn cell_size_to_use(model: &SimModel) -> int {
    if model.cell_size > 0 {
        model.cell_size as int
    } else if model.cutter_type == CutterType::Blade {
        model.blade_len * 2 / 5
    } else {
        model.radius / 3
    }
}

/// The extent that a run asks for along one axis: the configured one or,
/// where it is 0, the other one or, where both are 0, fifty times the radius.
pub open spec fn extent_to_use(model: &SimModel, own: int, other: int) -> int {
    if own != 0 {
        own
    } else if other != 0 {
        other
    } else {
        model.radius * 50
    }
}

/// The extent along one axis, rounded up to whole cells.
pub open spec fn whole_cells(extent: int, cell_size: int) -> int {
    cells_spanned(extent, cell_size) * cell_size
}

/// The step size that a run uses: the configured one or, where that is not
/// above 0, three fifths of the cell size.
pub open spec fn step_size_to_use(model: &SimModel) -> int {
    if model.step_size > 0 {
        model.step_size as int
    } else {
        cell_size_to_use(model) * 3 / 5
    }
}

/// What is wrong with the cutter and the stop conditions, if anything.
pub open spec fn cutter_fault(model: &SimModel) -> Option<ConfigError> {
    if model.stop_bounces == 0 && model.stop_time == 0 && model.stop_coverage == 0
        && model.stop_simsteps == 0 && model.stop_distance == 0 {
        Some(ConfigError::NoStopCondition)
    } else if model.radius <= 0 {
        Some(ConfigError::RadiusTooSmall)
    } else if model.cell_size <= 0 && model.cutter_type == CutterType::Blade && (model.blade_len
        <= 0 || model.blade_len >= model.radius) {
        Some(ConfigError::BladeLength)
    } else if model.cell_size <= 0 && model.cutter_type == CutterType::Blade && model.radius
        <= model.blade_len * 2 {
        Some(ConfigError::RadiusVsBlade)
    } else if cell_size_to_use(model) <= 0 {
        Some(ConfigError::CellSizeTooSmall)
    } else {
        None
    }
}

/// What is wrong with the extents of the area, if anything.
pub open spec fn area_fault(model: &SimModel) -> Option<ConfigError> {
    let width = extent_to_use(model, model.grid_width as int, model.grid_height as int);
    let height = extent_to_use(model, model.grid_height as int, model.grid_width as int);
    if width > MAX_EXTENT || height > MAX_EXTENT {
        Some(ConfigError::AreaTooLarge)
    } else if width < model.radius * 4 || height < model.radius * 4 {
        Some(ConfigError::GridTooSmall)
    } else {
        None
    }
}

/// What is wrong with a grid of the given extents and cell size for the
/// cutter and the step size of the model, if anything.
pub open spec fn grid_fault(model: &SimModel, width: int, height: int, cell_size: int) -> Option<
    ConfigError,
> {
    if cells_spanned(width, cell_size) * cells_spanned(height, cell_size) > MAX_CELLS {
        Some(ConfigError::GridTooLarge)
    } else if whole_cells(width, cell_size) > MAX_EXTENT || whole_cells(height, cell_size)
        > MAX_EXTENT {
        Some(ConfigError::AreaTooLarge)
    } else if model.cutter_type == CutterType::Blade && cell_size * 3 > model.blade_len * 2 {
        Some(ConfigError::CellSizeVsBlade)
    } else if model.step_size >= cell_size {
        Some(ConfigError::StepSizeTooLarge)
    } else {
        None
    }
}

/// What is wrong with the motion, the battery, the wheel models and the
/// spatial index for a step of the given size, if anything.
pub open spec fn motion_fault(model: &SimModel, step_size: int) -> Option<ConfigError> {
    if step_size <= 0 {
        Some(ConfigError::StepSizeTooSmall)
    } else if model.velocity <= 0 || step_size * TICKS_PER_SECOND / (model.velocity as int) < 1 {
        Some(ConfigError::VelocityOutOfRange)
    } else if model.battery_charge_time > MAX_CHARGE_TIME {
        Some(ConfigError::ChargeTimeTooLong)
    } else if model.wheel_slippage && !(1 <= model.slippage_radius_min <= model.slippage_radius_max
        && 0 <= model.slippage_min_distance <= model.slippage_max_distance) {
        Some(ConfigError::SlippageRange)
    } else if model.wheel_inbalance && !(1 <= model.wheel_inbalance_radius_min
        <= model.wheel_inbalance_radius_max) {
        Some(ConfigError::InbalanceRange)
    } else if model.min_qnode_size < 0 {
        Some(ConfigError::IndexNodeSize)
    } else {
        None
    }
}

/// The first fault of a configuration in the order in which it is examined:
/// the cutter and the stop conditions, the extents of the area, the grid, the
/// motion. `None` for a configuration that can be run.
pub open spec fn config_fault(model: &SimModel) -> Option<ConfigError> {
    if cutter_fault(model) is Some {
        cutter_fault(model)
    } else if area_fault(model) is Some {
        area_fault(model)
    } else if grid_fault(
        model,
        extent_to_use(model, model.grid_width as int, model.grid_height as int),
        extent_to_use(model, model.grid_height as int, model.grid_width as int),
        cell_size_to_use(model),
    ) is Some {
        grid_fault(
            model,
            extent_to_use(model, model.grid_width as int, model.grid_height as int),
            extent_to_use(model, model.grid_height as int, model.grid_width as int),
            cell_size_to_use(model),
        )
    } else {
        motion_fault(model, step_size_to_use(model))
    }
}

/// `after` is `before` with the grid derived from its extents and cell size:
/// the cell counts are the extents in cells, rounded up, the extents are
/// stretched to whole cells, and the bounding box follows from them and the
/// radius.
pub open spec fn grid_set_up(before: &SimModel, after: &SimModel) -> bool {
    let cells_x = cells_spanned(before.grid_width as int, before.cell_size as int);
    let cells_y = cells_spanned(before.grid_height as int, before.cell_size as int);
    let width = whole_cells(before.grid_width as int, before.cell_size as int);
    let height = whole_cells(before.grid_height as int, before.cell_size as int);
    *after == (SimModel {
        grid_cells_x: cells_x as usize,
        grid_cells_y: cells_y as usize,
        grid_width: width as i32,
        grid_height: height as i32,
        bb: BoundingBox {
            min_x: before.radius,
            max_x: (width - before.radius) as i32,
            min_y: before.radius,
            max_y: (height - before.radius) as i32,
        },
        ..*before
    })
}

/// Derives the grid from the area and the cell size, see `grid_set_up`. Fails,
/// and leaves the model as it is, where the grid would have too many cells or
/// too large an area, where the cell size does not go with the blade, or
/// where the step size is not below the cell size.
pub fn setup_grid_size(model: &mut SimModel) -> (outcome: Result<(), ConfigError>)
    requires
        old(model).cell_size > 0,
        old(model).radius >= 0,
        0 <= old(model).grid_width <= MAX_EXTENT,
        0 <= old(model).grid_height <= MAX_EXTENT,
    ensures
        match outcome {
            Err(error) => grid_fault(
                old(model),
                old(model).grid_width as int,
                old(model).grid_height as int,
                old(model).cell_size as int,
            ) == Some(error) && *final(model) == *old(model),
            Ok(_) => grid_fault(
                old(model),
                old(model).grid_width as int,
                old(model).grid_height as int,
                old(model).cell_size as int,
            ) is None && grid_set_up(old(model), final(model)),
        },
{
    let cells_x: i32 = cells_spanned_by(model.grid_width, model.cell_size);
    let cells_y: i32 = cells_spanned_by(model.grid_height, model.cell_size);
    assert(0 <= cells_x * cells_y <= 0x8000_0000 * 0x8000_0000) by (nonlinear_arith)
        requires
            0 <= cells_x <= 0x8000_0000,
            0 <= cells_y <= 0x8000_0000,
    ;
    if cells_x as u64 * cells_y as u64 > MAX_CELLS {
        return Err(ConfigError::GridTooLarge);
    }
    assert(0 <= cells_x * model.cell_size <= 0x8000_0000 * 0x8000_0000 && 0 <= cells_y
        * model.cell_size <= 0x8000_0000 * 0x8000_0000) by (nonlinear_arith)
        requires
            0 <= cells_x <= 0x8000_0000,
            0 <= cells_y <= 0x8000_0000,
            0 <= model.cell_size <= 0x8000_0000,
    ;
    let width: i64 = cells_x as i64 * model.cell_size as i64;
    let height: i64 = cells_y as i64 * model.cell_size as i64;
    if width > MAX_EXTENT as i64 || height > MAX_EXTENT as i64 {
        return Err(ConfigError::AreaTooLarge);
    }
    if model.cutter_type == CutterType::Blade && model.cell_size as i64 * 3 > model.blade_len as i64
        * 2 {
        return Err(ConfigError::CellSizeVsBlade);
    }
    if model.step_size >= model.cell_size {
        return Err(ConfigError::StepSizeTooLarge);
    }
    model.grid_cells_x = cells_x as usize;
    model.grid_cells_y = cells_y as usize;
    model.grid_width = width as i32;
    model.grid_height = height as i32;
    model.bb = BoundingBox::init(model.grid_width, model.grid_height, model.radius);
    Ok(())
}

/// The direction that a run starts in: the configured one scaled to unit
/// length or, where that is the zero vector, a direction drawn at random
/// (candidates are drawn until one lies in the unit disc, at most
/// `MAX_DRAWS` times, after which the cutter heads along the x axis).
#[verifier::loop_isolation(false)]
pub fn set_initial_direction(dir_x: i32, dir_y: i32, rng: &mut StdRng) -> (dir: Vector)
    ensures
        dir.is_direction(),
        dir_x != 0 || dir_y != 0 ==> dir == unit_vector(dir_x as int, dir_y as int),
        dir_x == 0 && dir_y == 0 ==> dir == (Vector { x: DIR_SCALE, y: 0 }) || exists|c: Vector|
            c.in_unit_square() && #[trigger] free_choice(c) == Some(dir),
{
    if dir_x == 0 && dir_y == 0 {
        let mut draws: u32 = 0;
        while draws < MAX_DRAWS
            invariant
                draws <= MAX_DRAWS,
            decreases MAX_DRAWS - draws,
        {
            let candidate = draw_candidate(rng);
            if let Some(dir) = choose_freely(candidate) {
                assert(free_choice(candidate) == Some(dir));
                return dir;
            }
            draws += 1;
        }
        Vector { x: DIR_SCALE, y: 0 }
    } else {
        normalize(dir_x as i64, dir_y as i64)
    }
}

/// Examines the cutter and the stop conditions and settles the cell size.
pub fn examine_cutter(model: &SimModel) -> (outcome: Result<i32, ConfigError>)
    ensures
        match outcome {
            Err(error) => cutter_fault(model) == Some(error),
            Ok(cell_size) => cutter_fault(model) is None && cell_size == cell_size_to_use(model)
                && cell_size > 0,
        },
{
    if model.stop_bounces == 0 && model.stop_time == 0 && model.stop_coverage == 0
        && model.stop_simsteps == 0 && model.stop_distance == 0 {
        return Err(ConfigError::NoStopCondition);
    }
    if model.radius <= 0 {
        return Err(ConfigError::RadiusTooSmall);
    }
    let mut cell_size = model.cell_size;
    if cell_size <= 0 {
        if model.cutter_type == CutterType::Blade {
            if model.blade_len <= 0 || model.blade_len >= model.radius {
                return Err(ConfigError::BladeLength);
            }
            if model.radius as i64 <= model.blade_len as i64 * 2 {
                return Err(ConfigError::RadiusVsBlade);
            }
            cell_size = ((model.blade_len as i64 * 2) / 5) as i32;
        } else {
            cell_size = model.radius / 3;
        }
        if cell_size <= 0 {
            return Err(ConfigError::CellSizeTooSmall);
        }
    }
    Ok(cell_size)
}

/// Examines the extents of the area and settles them.
pub fn examine_area(model: &SimModel) -> (outcome: Result<(i32, i32), ConfigError>)
    requires
        model.radius > 0,
    ensures
        match outcome {
            Err(error) => area_fault(model) == Some(error),
            Ok(extents) => {
                &&& area_fault(model) is None
                &&& extents.0 == extent_to_use(
                    model,
                    model.grid_width as int,
                    model.grid_height as int,
                )
                &&& extents.1 == extent_to_use(
                    model,
                    model.grid_height as int,
                    model.grid_width as int,
                )
                &&& 4 * model.radius <= extents.0 <= MAX_EXTENT
                &&& 4 * model.radius <= extents.1 <= MAX_EXTENT
            },
        },
{
    let width: i64 = if model.grid_width != 0 {
        model.grid_width as i64
    } else if model.grid_height != 0 {
        model.grid_height as i64
    } else {
        model.radius as i64 * 50
    };
    let height: i64 = if model.grid_height != 0 {
        model.grid_height as i64
    } else if model.grid_width != 0 {
        model.grid_width as i64
    } else {
        model.radius as i64 * 50
    };
    if width > MAX_EXTENT as i64 || height > MAX_EXTENT as i64 {
        return Err(ConfigError::AreaTooLarge);
    }
    if width < model.radius as i64 * 4 || height < model.radius as i64 * 4 {
        return Err(ConfigError::GridTooSmall);
    }
    Ok((width as i32, height as i32))
}

/// Examines the motion, the battery, the wheel models and the spatial index
/// for a step of the given size.
pub fn examine_motion(model: &SimModel, step_size: i32) -> (outcome: Result<(), ConfigError>)
    ensures
        match outcome {
            Err(error) => motion_fault(model, step_size as int) == Some(error),
            Ok(_) => motion_fault(model, step_size as int) is None,
        },
{
    if step_size <= 0 {
        return Err(ConfigError::StepSizeTooSmall);
    }
    if model.velocity <= 0 || (step_size as u64 * TICKS_PER_SECOND) / (model.velocity as u64) < 1 {
        return Err(ConfigError::VelocityOutOfRange);
    }
    if model.battery_charge_time > MAX_CHARGE_TIME {
        return Err(ConfigError::ChargeTimeTooLong);
    }
    if model.wheel_slippage && !(1 <= model.slippage_radius_min && model.slippage_radius_min
        <= model.slippage_radius_max && 0 <= model.slippage_min_distance
        && model.slippage_min_distance <= model.slippage_max_distance) {
        return Err(ConfigError::SlippageRange);
    }
    if model.wheel_inbalance && !(1 <= model.wheel_inbalance_radius_min
        && model.wheel_inbalance_radius_min <= model.wheel_inbalance_radius_max) {
        return Err(ConfigError::InbalanceRange);
    }
    if model.min_qnode_size < 0 {
        return Err(ConfigError::IndexNodeSize);
    }
    Ok(())
}

/// A grid of whole cells is at least as large as the extents it was derived
/// from, and has the cells it was derived with.
pub proof fn lemma_whole_cells(extent: int, cell_size: int)
    requires
        extent > 0,
        cell_size > 0,
    ensures
        whole_cells(extent, cell_size) >= extent,
        cells_spanned(extent, cell_size) >= 1,
{
    assert(cells_spanned(extent, cell_size) * cell_size >= extent && cells_spanned(
        extent,
        cell_size,
    ) >= 1) by (nonlinear_arith)
        requires
            cell_size > 0,
            extent > 0,
            cells_spanned(extent, cell_size) == (extent + cell_size - 1) / cell_size,
    ;
}

/// Examines a configuration and completes it: cell size, area and step size
/// get their defaults where they were left at 0, the grid is derived from
/// them, and the start direction is scaled to unit length or, where it was
/// left at zero, drawn at random. Fails with the first fault that the
/// examination meets, see `config_fault`.
pub fn init_model(model: SimModel, rng: &mut StdRng) -> (outcome: Result<SimModel, ConfigError>)
    ensures
        match outcome {
            Err(error) => config_fault(&model) == Some(error),
            Ok(ready) => {
                &&& config_fault(&model) is None
                &&& ready.config_ok()
                &&& ready.cell_size == cell_size_to_use(&model)
                &&& ready.step_size == step_size_to_use(&model)
                &&& ready.grid_cells_x == cells_spanned(
                    extent_to_use(&model, model.grid_width as int, model.grid_height as int),
                    cell_size_to_use(&model),
                )
                &&& ready.grid_cells_y == cells_spanned(
                    extent_to_use(&model, model.grid_height as int, model.grid_width as int),
                    cell_size_to_use(&model),
                )
                &&& ready.grid_width == ready.grid_cells_x * ready.cell_size
                &&& ready.grid_height == ready.grid_cells_y * ready.cell_size
                &&& ready.grid_cells_x * ready.grid_cells_y <= MAX_CELLS
                &&& (Vector { x: ready.start_dir_x, y: ready.start_dir_y }).is_direction()
                &&& model.start_dir_x != 0 || model.start_dir_y != 0 ==> (Vector {
                    x: ready.start_dir_x,
                    y: ready.start_dir_y,
                }) == unit_vector(model.start_dir_x as int, model.start_dir_y as int)
                &&& ready == (SimModel {
                    cell_size: ready.cell_size,
                    step_size: ready.step_size,
                    grid_cells_x: ready.grid_cells_x,
                    grid_cells_y: ready.grid_cells_y,
                    grid_width: ready.grid_width,
                    grid_height: ready.grid_height,
                    bb: ready.bb,
                    start_dir_x: ready.start_dir_x,
                    start_dir_y: ready.start_dir_y,
                    ..model
                })
            },
        },
{
    let cell_size = match examine_cutter(&model) {
        Ok(cell_size) => cell_size,
        Err(error) => {
            return Err(error);
        },
    };
    let (width, height) = match examine_area(&model) {
        Ok(extents) => extents,
        Err(error) => {
            return Err(error);
        },
    };
    let mut sized = model;
    sized.cell_size = cell_size;
    sized.grid_width = width;
    sized.grid_height = height;
    let ghost asked = sized;
    match setup_grid_size(&mut sized) {
        Ok(_) => {},
        Err(error) => {
            return Err(error);
        },
    }
    proof {
        lemma_whole_cells(width as int, cell_size as int);
        lemma_whole_cells(height as int, cell_size as int);
    }
    let step_size = if sized.step_size <= 0 {
        ((cell_size as i64 * 3) / 5) as i32
    } else {
        sized.step_size
    };
    match examine_motion(&sized, step_size) {
        Ok(_) => {},
        Err(error) => {
            return Err(error);
        },
    }
    sized.step_size = step_size;
    let dir = set_initial_direction(sized.start_dir_x, sized.start_dir_y, rng);
    sized.start_dir_x = dir.x;
    sized.start_dir_y = dir.y;
    Ok(sized)
}

/// How often a free start position is drawn at most.
pub const MAX_START_DRAWS: u32 = 10_000;

impl SimModel {
    /// Gives the model a grid of empty cells of the configured size.
    pub fn create_grid(&mut self)
        requires
            old(self).cell_size > 0,
            old(self).grid_cells_x * old(self).cell_size <= i32::MAX,
            old(self).grid_cells_y * old(self).cell_size <= i32::MAX,
            old(self).grid_cells_x * old(self).grid_cells_y <= usize::MAX,
        ensures
            *final(self) == (SimModel { grid: final(self).grid, ..*old(self) }),
            final(self).grid matches Some(g) && {
                &&& g.wf()
                &&& g.cells_x == old(self).grid_cells_x
                &&& g.cells_y == old(self).grid_cells_y
                &&& g.cell_size == old(self).cell_size
                &&& g.use_quad_tree == old(self).use_quad_tree
                &&& g.quadtree is None
                &&& g.covered_cells == 0
                &&& forall|x: int, y: int| g.in_bounds(x, y) ==> #[trigger] g.cell(x, y) == Cell::Empty
            },
    {
        let mut grid = Grid::new(self.grid_cells_x, self.grid_cells_y, self.cell_size);
        let ghost fresh = grid;
        grid.use_quad_tree = self.use_quad_tree;
        proof {
            grid.lemma_same_cells(&fresh);
            assert forall|x: int, y: int| grid.in_bounds(x, y) implies #[trigger] grid.cell(x, y)
                == Cell::Empty by {
                assert(fresh.cell(x, y) == Cell::Empty);
            }
        }
        self.grid = Some(grid);
    }

    /// Reads the results of a run off the grid into the model: coverage, and
    /// the largest and the smallest visit count.
    pub fn collect_results(&mut self)
        requires
            old(self).grid matches Some(g) && g.wf(),
        ensures
            *final(self) == (SimModel {
                coverage_count: final(self).coverage_count,
                coverage_percent: final(self).coverage_percent,
                max_visited_number: final(self).max_visited_number,
                min_visited_number: final(self).min_visited_number,
                grid_cells_obstacles_count: final(self).grid_cells_obstacles_count,
                ..*old(self)
            }),
            final(self).coverage_count == old(self).grid->0.covered_cells,
            final(self).grid_cells_obstacles_count == old(self).grid->0.cells_obstacles_count,
            old(self).grid->0.is_max_visited(final(self).max_visited_number as int),
            old(self).grid->0.is_min_visited(final(self).min_visited_number as int),
            final(self).coverage_percent == crate::model::grid::coverage_percent_of(
                old(self).grid->0.covered_cells as int,
                old(self).grid->0.cells_x * old(self).grid->0.cells_y - old(self).grid->0.cells_obstacles_count,
            ),
    {
        let mut count: usize = 0;
        let mut percent: u32 = 0;
        let mut most: usize = 0;
        let mut least: usize = 0;
        let mut obstacles: usize = 0;
        match &self.grid {
            Some(grid) => {
                let coverage = grid.get_coverage();
                count = coverage.0;
                percent = coverage.1;
                most = grid.get_max_visited_number();
                least = grid.get_min_visited_number();
                obstacles = grid.get_obstacle_count();
            },
            None => {},
        }
        self.coverage_count = count;
        self.coverage_percent = percent;
        self.max_visited_number = most;
        self.min_visited_number = least;
        self.grid_cells_obstacles_count = obstacles;
    }
}

/// Takes a map into the model. Where the map prescribes a width or a height
/// of the area, that replaces the configured one, and the grid is derived
/// anew, see `setup_grid_size`. Where that fails, and without a map, the model
/// stays as it is.
#[verifier::rlimit(40)]
pub fn load_optional_mapfile(map: Option<MapFile>, model: &mut SimModel) -> (outcome: Result<
    (),
    ConfigError,
>)
    requires
        old(model).cell_size > 0,
        old(model).radius >= 0,
        0 <= old(model).grid_width <= MAX_EXTENT,
        0 <= old(model).grid_height <= MAX_EXTENT,
    ensures
        map is None ==> outcome is Ok && *final(model) == *old(model),
        outcome is Err ==> *final(model) == *old(model),
        map is Some ==> ({
            let asked = crate::model::with_map_extents(*old(model), map);
            if asked.grid_width < 0 || asked.grid_height < 0 {
                outcome == Err::<(), ConfigError>(ConfigError::GridTooSmall)
            } else if asked.grid_width > MAX_EXTENT || asked.grid_height > MAX_EXTENT {
                outcome == Err::<(), ConfigError>(ConfigError::AreaTooLarge)
            } else {
                match outcome {
                    Err(error) => grid_fault(
                        &asked,
                        asked.grid_width as int,
                        asked.grid_height as int,
                        asked.cell_size as int,
                    ) == Some(error),
                    Ok(_) => {
                        &&& grid_fault(
                            &asked,
                            asked.grid_width as int,
                            asked.grid_height as int,
                            asked.cell_size as int,
                        ) is None
                        &&& final(model).map_file == map
                        &&& grid_set_up(
                            &asked,
                            &(SimModel { map_file: old(model).map_file, ..*final(model) }),
                        )
                    },
                }
            }
        }),
{
    match map {
        None => Ok(()),
        Some(map) => {
            let mut width = model.grid_width;
            let mut height = model.grid_height;
            if let Some(grid_config) = &map.grid {
                if let Some(w) = grid_config.width {
                    width = w;
                }
                if let Some(h) = grid_config.height {
                    height = h;
                }
            }
            if width < 0 || height < 0 {
                return Err(ConfigError::GridTooSmall);
            }
            if width > MAX_EXTENT || height > MAX_EXTENT {
                return Err(ConfigError::AreaTooLarge);
            }
            let kept_width = model.grid_width;
            let kept_height = model.grid_height;
            model.grid_width = width;
            model.grid_height = height;
            match setup_grid_size(model) {
                Ok(_) => {
                    model.map_file = Some(map);
                    Ok(())
                },
                Err(error) => {
                    model.grid_width = kept_width;
                    model.grid_height = kept_height;
                    Err(error)
                },
            }
        },
    }
}

/// The configuration with the extents of the area the map prescribes, where
/// it prescribes any.
pub open spec fn with_map_extents(model: SimModel, map: Option<MapFile>) -> SimModel {
    SimModel {
        grid_width: match map {
            Some(MapFile { grid: Some(GridConfig { width: Some(w), .. }), .. }) => w,
            _ => model.grid_width,
        },
        grid_height: match map {
            Some(MapFile { grid: Some(GridConfig { height: Some(h), .. }), .. }) => h,
            _ => model.grid_height,
        },
        ..model
    }
}

/// `after` is `before` with the obstacles of `map` marked on it and with a
/// spatial index for a cutter of the given radius.
pub open spec fn mapped(before: &Grid, after: &Grid, map: MapFile, radius: int) -> bool {
    &&& after.wf()
    &&& after.cells_x == before.cells_x
    &&& after.cells_y == before.cells_y
    &&& after.cell_size == before.cell_size
    &&& after.use_quad_tree == before.use_quad_tree
    &&& before.keeps_obstacles(after)
    &&& forall|i: int, j: int|
        after.in_bounds(i, j) ==> #[trigger] after.cell(i, j) == (if obstacles_mark(
            map.obstacles@,
            after.cell_size as int,
            map.obstacles@.len() as int,
            i,
            j,
        ) {
            Cell::Obstacle
        } else {
            before.cell(i, j)
        })
    &&& match after.quadtree {
        Some(tree) => tree.indexes(after, radius),
        None => false,
    }
}

/// Marks the obstacles of the model's map on the grid, counts the obstacle
/// cells, and builds the spatial index for the cutter. Returns the number of
/// shapes that had too few points and were passed over. Without a map
/// nothing changes.
pub fn try_apply_mapfile_to_model(model: &mut SimModel) -> (skipped: usize)
    requires
        old(model).grid matches Some(g) && g.wf(),
        old(model).radius >= 0,
        old(model).min_qnode_size >= 0,
    ensures
        old(model).map_file is None ==> skipped == 0 && *final(model) == *old(model),
        old(model).map_file matches Some(map) ==> {
            &&& skipped == degenerate_count(map.obstacles@, map.obstacles@.len())
            &&& *final(model) == (SimModel {
                grid: final(model).grid,
                num_obstacles: map.obstacles@.len() as usize,
                ..*old(model)
            })
            &&& final(model).grid is Some
            &&& mapped(&old(model).grid->0, &final(model).grid->0, map, old(model).radius as int)
        },
{
    let map_file = model.map_file.take();
    let mut skipped: usize = 0;
    if let Some(map) = &map_file {
        let radius = model.radius;
        let min_qnode_size = model.min_qnode_size;
        match model.grid.as_mut() {
            Some(grid) => {
                skipped = apply_obstacles_to_grid(grid, map);
                let ghost applied = *grid;
                grid.update_obstacle_cells_count();
                proof {
                    grid.lemma_same_cells(&applied);
                }
                let ghost marked = *grid;
                grid.init_spatial_index(radius, min_qnode_size);
                proof {
                    grid.lemma_same_cells(&marked);
                    assert forall|x: int, y: int|
                        applied.in_bounds(x, y) && old(model).grid->0.cell(
                            x,
                            y,
                        ) is Obstacle implies #[trigger] grid.cell(x, y) is Obstacle by {
                        assert(applied.cell(x, y) is Obstacle);
                    }
                    assert forall|i: int, j: int| grid.in_bounds(i, j) implies #[trigger] grid.cell(
                        i,
                        j,
                    ) == (if obstacles_mark(
                        map.obstacles@,
                        grid.cell_size as int,
                        map.obstacles@.len() as int,
                        i,
                        j,
                    ) {
                        Cell::Obstacle
                    } else {
                        old(model).grid->0.cell(i, j)
                    }) by {
                        assert(applied.cell(i, j) == grid.cell(i, j));
                        assert(old(model).grid->0.in_bounds(i, j));
                    }
                    let tree = grid.quadtree->0;
                    let margin = cells_spanned(radius as int, grid.cell_size as int);
                    crate::model::quadtree::lemma_describes_same_cells(
                        &tree.root,
                        &marked,
                        grid,
                        margin,
                    );
                }
            },
            None => {},
        }
        model.num_obstacles = map.obstacles.len();
    }
    model.map_file = map_file;
    skipped
}


/// The collision check at `(x, y)` would answer that the cutter touches an
/// obstacle.
pub open spec fn collides_at(grid: &Grid, x: i32, y: i32, radius: i32) -> bool {
    !grid.index_rules_out(Vector { x, y }, radius as int) && grid.scan_hits(
        Vector { x, y },
        radius as int,
    )
}

/// Where the start position was left open (a negative coordinate), draws a
/// start position inside the bounding box at which the cutter touches no
/// obstacle. Positions are drawn until one is free, at most
/// `MAX_START_DRAWS + 1` times. Returns whether the model has a start
/// position to go by; it has none where no free position was found or the
/// bounding box holds no position at all.
#[verifier::loop_isolation(false)]
pub fn set_optional_random_start_position(rng: &mut StdRng, model: &mut SimModel) -> (found: bool)
    requires
        old(model).grid matches Some(g) && g.shape(),
        old(model).radius >= 0,
    ensures
        final(model).grid is Some,
        final(model).grid->0.cells == old(model).grid->0.cells,
        final(model).grid->0.cells_x == old(model).grid->0.cells_x,
        final(model).grid->0.cells_y == old(model).grid->0.cells_y,
        final(model).grid->0.cell_size == old(model).grid->0.cell_size,
        final(model).grid->0.covered_cells == old(model).grid->0.covered_cells,
        final(model).grid->0.cells_obstacles_count == old(model).grid->0.cells_obstacles_count,
        final(model).grid->0.quadtree == old(model).grid->0.quadtree,
        final(model).grid->0.use_quad_tree == old(model).grid->0.use_quad_tree,
        *final(model) == (SimModel {
            start_x: final(model).start_x,
            start_y: final(model).start_y,
            grid: final(model).grid,
            ..*old(model)
        }),
        old(model).start_x >= 0 && old(model).start_y >= 0 ==> found && *final(model) == *old(model),
        old(model).start_x < 0 || old(model).start_y < 0 ==> {
            &&& found ==> {
                &&& old(model).radius <= final(model).start_x < old(model).grid_width - old(model).radius
                &&& old(model).radius <= final(model).start_y < old(model).grid_height - old(model).radius
                &&& !collides_at(
                    &old(model).grid->0,
                    final(model).start_x,
                    final(model).start_y,
                    old(model).radius,
                )
            }
            &&& (old(model).radius >= old(model).grid_width - old(model).radius || old(model).radius
                >= old(model).grid_height - old(model).radius) ==> !found
        },
{
    if model.start_x >= 0 && model.start_y >= 0 {
        return true;
    }
    let radius = model.radius;
    let high_x: i64 = model.grid_width as i64 - radius as i64 - 1;
    let high_y: i64 = model.grid_height as i64 - radius as i64 - 1;
    if (radius as i64) > high_x || (radius as i64) > high_y {
        return false;
    }
    let mut counter: u32 = 0;
    while counter <= MAX_START_DRAWS
        invariant
            counter <= MAX_START_DRAWS + 1,
            radius == old(model).radius,
            radius <= high_x == old(model).grid_width - radius - 1,
            radius <= high_y == old(model).grid_height - radius - 1,
            model.grid is Some,
            model.grid->0.shape(),
            model.grid->0.cells == old(model).grid->0.cells,
            model.grid->0.cells_x == old(model).grid->0.cells_x,
            model.grid->0.cells_y == old(model).grid->0.cells_y,
            model.grid->0.cell_size == old(model).grid->0.cell_size,
            model.grid->0.covered_cells == old(model).grid->0.covered_cells,
            model.grid->0.cells_obstacles_count == old(model).grid->0.cells_obstacles_count,
            model.grid->0.quadtree == old(model).grid->0.quadtree,
            model.grid->0.use_quad_tree == old(model).grid->0.use_quad_tree,
            *model == (SimModel {
                start_x: model.start_x,
                start_y: model.start_y,
                grid: model.grid,
                ..*old(model)
            }),
        decreases MAX_START_DRAWS + 1 - counter,
    {
        let x = random_in_range(rng, radius as i64, high_x) as i32;
        let y = random_in_range(rng, radius as i64, high_y) as i32;
        model.start_x = x;
        model.start_y = y;
        let model_start = Vector::new(x, y);
        let ghost before = model.grid->0;
        let touched = match model.grid.as_mut() {
            Some(grid) => grid.collision_with_obstacle(&model_start, radius),
            None => true,
        };
        proof {
            assert(before.index_rules_out(model_start, radius as int) == old(model).grid->0.index_rules_out(model_start, radius as int));
            assert(before.scan_hits(model_start, radius as int) == old(model).grid->0.scan_hits(
                model_start,
                radius as int,
            )) by {
                lemma_same_scan(&before, &old(model).grid->0, model_start, radius as int);
            }
        }
        if !touched {
            return true;
        }
        counter += 1;
    }
    false
}

/// Grids with the same cells give the same exact scan.
pub proof fn lemma_same_scan(first: &Grid, second: &Grid, center: Vector, radius: int)
    requires
        first.cells == second.cells,
        first.cells_x == second.cells_x,
        first.cells_y == second.cells_y,
        first.cell_size == second.cell_size,
    ensures
        first.scan_hits(center, radius) == second.scan_hits(center, radius),
{
    if first.scan_hits(center, radius) {
        let (x, y) = choose|x: int, y: int|
            first.in_bounds(x, y) && first.in_scan(center, radius, x, y) && #[trigger] first.cell(
                x,
                y,
            ) is Obstacle;
        assert(second.cell(x, y) is Obstacle);
    }
    if second.scan_hits(center, radius) {
        let (x, y) = choose|x: int, y: int|
            second.in_bounds(x, y) && second.in_scan(center, radius, x, y) && #[trigger] second.cell(
                x,
                y,
            ) is Obstacle;
        assert(first.cell(x, y) is Obstacle);
    }
}


impl SimModel {
    /// The shortest time, in seconds, in which a cutter that met no obstacle
    /// and passed no cell twice could have reached the coverage: the number of
    /// usable cells, divided by the cells that fit across the cutter and by the
    /// cells that the cutter passes in a second, taken at the share of the
    /// coverage reached. 0 where the run was not made for coverage.
    pub open spec fn minimum_cutting_time(&self) -> int {
        if self.stop_coverage > 0 {
            (self.grid_cells_x * self.grid_cells_y - self.grid_cells_obstacles_count) / (2
                * self.radius / (self.cell_size as int)) / (self.velocity / self.cell_size)
                * self.coverage_percent / 100_000
        } else {
            0
        }
    }

    /// The shortest time as a share of the time the run took, in thousandths
    /// of a percent and no more than the largest number; 0 where the run was
    /// not made for coverage, did not reach it, or took no time.
    pub open spec fn efficiency(&self) -> int {
        if self.stop_coverage > 0 && self.coverage_percent >= self.stop_coverage
            && self.sim_time_elapsed > 0 {
            let share = self.minimum_cutting_time() * TICKS_PER_SECOND * 100_000 / (
            self.sim_time_elapsed as int);
            if share > u64::MAX {
                u64::MAX as int
            } else {
                share
            }
        } else {
            0
        }
    }

    /// The shortest possible cutting time as hours, minutes and seconds, and
    /// the efficiency of the run, see `minimum_cutting_time` and `efficiency`.
    pub fn get_theorethical_minimum_cutting_time(&self) -> (time: (usize, usize, usize, u64))
        requires
            self.stop_coverage > 0 ==> {
                &&& 0 < self.cell_size <= 2 * self.radius
                &&& self.cell_size <= self.velocity
                &&& self.grid_cells_obstacles_count <= self.grid_cells_x * self.grid_cells_y
                    <= usize::MAX
            },
            self.coverage_percent <= 100_000,
        ensures
            time.0 == self.minimum_cutting_time() / 3600,
            time.1 == self.minimum_cutting_time() % 3600 / 60,
            time.2 == self.minimum_cutting_time() % 60,
            time.3 == self.efficiency(),
    {
        let mut seconds: u128 = 0;
        if self.stop_coverage > 0 {
            let cells: u128 = self.grid_cells_x as u128 * self.grid_cells_y as u128
                - self.grid_cells_obstacles_count as u128;
            let across: u128 = ((2 * self.radius as i64) / self.cell_size as i64) as u128;
            let per_second: u128 = (self.velocity / self.cell_size) as u128;
            assert(across >= 1 && per_second >= 1) by (nonlinear_arith)
                requires
                    across == (2 * self.radius) / (self.cell_size as int),
                    per_second == self.velocity / self.cell_size,
                    0 < self.cell_size <= 2 * self.radius,
                    self.cell_size <= self.velocity,
            ;
            let lanes: u128 = cells / across;
            let whole: u128 = lanes / per_second;
            assert(whole <= lanes <= cells) by (nonlinear_arith)
                requires
                    lanes == cells / across,
                    whole == lanes / per_second,
                    across >= 1,
                    per_second >= 1,
            ;
            assert(0 <= whole * self.coverage_percent <= 0x1_0000_0000_0000_0000 * 100_000)
                by (nonlinear_arith)
                requires
                    0 <= whole <= 0x1_0000_0000_0000_0000,
                    0 <= self.coverage_percent <= 100_000,
            ;
            seconds = whole * self.coverage_percent as u128 / 100_000;
            assert(seconds <= whole) by (nonlinear_arith)
                requires
                    seconds == whole * self.coverage_percent / 100_000,
                    0 <= self.coverage_percent <= 100_000,
                    0 <= whole,
            ;
        }
        let hours: u128 = seconds / 3600;
        let minutes: u128 = (seconds % 3600) / 60;
        let rest: u128 = seconds % 60;
        let efficiency: u64 = if self.stop_coverage > 0 && self.coverage_percent
            >= self.stop_coverage && self.sim_time_elapsed > 0 {
            assert(seconds * 100_000_000_000 <= 0x1_0000_0000_0000_0000 * 100_000_000_000)
                by (nonlinear_arith)
                requires
                    0 <= seconds <= 0x1_0000_0000_0000_0000,
            ;
            assert(self.minimum_cutting_time() * TICKS_PER_SECOND * 100_000 == seconds
                * 100_000_000_000) by (nonlinear_arith)
                requires
                    self.minimum_cutting_time() == seconds,
                    TICKS_PER_SECOND == 1_000_000,
            ;
            let share: u128 = seconds * 100_000_000_000 / self.sim_time_elapsed as u128;
            if share > u64::MAX as u128 {
                u64::MAX
            } else {
                share as u64
            }
        } else {
            0
        };
        assert(hours <= seconds);
        (hours as usize, minutes as usize, rest as usize, efficiency)
    }
}

} // verus!
