use crate::collision::beyond_x;
use crate::collision::beyond_y;
use crate::collision::is_grid_edge;
use crate::geometry::clamp_to_coordinate;
use crate::mapfile::MapFile;
use crate::model::ConfigError;
use crate::model::SimModel;
use crate::model::TICKS_PER_SECOND;
use crate::model::boundingbox::limited;
use crate::model::cell_size_to_use;
use crate::model::config_fault;
use crate::model::step_size_to_use;
use crate::model::grid::Cell;
use crate::model::grid::Grid;
use crate::model::grid::cell_after_mark;
use crate::model::grid::coverage_percent_of;
use crate::model::init_model;
use crate::model::set_optional_random_start_position;
use crate::model::try_apply_mapfile_to_model;
use crate::model::with_map_extents;
use crate::random::random_in_range;
use crate::strategy::cutter_strategy;
use crate::strategy::is_lot_won;
use crate::strategy::lot_wins;
use crate::vector::DIR_SCALE;
use crate::vector::Vector;
use crate::vector::lemma_mirrored_direction;
use crate::vector::displacement;
use crate::vector::drift;
use crate::vector::drifted;
use crate::vector::travel;
use rand::rngs::StdRng;
use vstd::prelude::*;

verus! {

/// The simulated time after which a run is cut short: seven days, in ticks.
pub const FAILSAFE_TIME_LIMIT: u64 = 604_800_000_000;

/// Shortest time the cutter takes to find its way back to the charging
/// station: 3 minutes, in ticks.
pub const RETURN_TIME_MIN: u64 = 180_000_000;

/// Longest time the cutter takes to find its way back to the charging
/// station: 15 minutes, in ticks.
pub const RETURN_TIME_MAX: u64 = 900_000_000;

/// Wheel slippage: from time to time one wheel slips, and the cutter runs on
/// an arc for a while. While slipping, the direction turns by the angle
/// `slippage_adjustment_step / adjustment_radius` at every adjustment.
#[derive(Debug, Clone, Copy, PartialEq, Eq, Structural)]
pub struct SlippageModel {
    pub within_slippage: bool,
    /// Distance travelled since the slippage began.
    pub current_distance: u64,
    /// Radius of the arc; its sign tells the side.
    pub adjustment_radius: i32,
    /// Length of the arc.
    pub end_distance: u64,
    pub last_adjustment_distance: u64,
    pub last_activation_check: u64,
}

impl SlippageModel {
    /// The model before any slippage.
    pub open spec fn new_spec() -> SlippageModel {
        SlippageModel {
            within_slippage: false,
            current_distance: 0,
            adjustment_radius: 0,
            end_distance: 0,
            last_adjustment_distance: 0,
            last_activation_check: 0,
        }
    }

    /// The model before any slippage.
    pub fn new() -> (slip: Self)
        ensures
            slip == Self::new_spec(),
    {
        SlippageModel {
            within_slippage: false,
            current_distance: 0,
            adjustment_radius: 0,
            end_distance: 0,
            last_adjustment_distance: 0,
            last_activation_check: 0,
        }
    }
}

/// Wheel imbalance: the wheels differ a little, and the cutter runs on a wide
/// arc all the time. The direction turns by the angle
/// `wheel_inbalance_adjustment_step / radius` at every adjustment.
#[derive(Debug, Clone, Copy, PartialEq, Eq, Structural)]
pub struct InbalanceModel {
    pub last_adjustment_distance: u64,
    /// Radius of the arc; its sign tells the side.
    pub radius: i32,
}

impl InbalanceModel {
    /// The model before any adjustment, with no radius drawn yet.
    pub fn new() -> (inbalance: Self)
        ensures
            inbalance == (InbalanceModel { last_adjustment_distance: 0, radius: 0 }),
    {
        InbalanceModel { last_adjustment_distance: 0, radius: 0 }
    }

    /// With the imbalance switched on, draws the side and the radius of the
    /// arc, the radius from the configured range, and notes the radius in the
    /// model. Switched off, the radius is 0.
    pub fn init(&mut self, model: &mut SimModel, rng: &mut StdRng)
        requires
            old(model).wheel_inbalance ==> 1 <= old(model).wheel_inbalance_radius_min <= old(model).wheel_inbalance_radius_max,
        ensures
            final(self).last_adjustment_distance == 0,
            final(model).wheel_inbalance_radius_used == final(self).radius,
            *final(model) == (SimModel {
                wheel_inbalance_radius_used: final(self).radius,
                ..*old(model)
            }),
            !old(model).wheel_inbalance ==> final(self).radius == 0,
            old(model).wheel_inbalance ==> {
                ||| old(model).wheel_inbalance_radius_min <= final(self).radius <= old(model).wheel_inbalance_radius_max
                ||| old(model).wheel_inbalance_radius_min <= -final(self).radius <= old(model).wheel_inbalance_radius_max
            },
    {
        if model.wheel_inbalance {
            let side = random_in_range(rng, 0, 1);
            let size = random_in_range(
                rng,
                model.wheel_inbalance_radius_min as i64,
                model.wheel_inbalance_radius_max as i64,
            );
            self.radius = signed_radius(side, size as i32);
        } else {
            self.radius = 0;
        }
        model.wheel_inbalance_radius_used = self.radius;
        self.last_adjustment_distance = 0;
    }
}

/// The radius with the sign that the drawn side gives it: negative for side 1.
pub fn signed_radius(side: i64, size: i32) -> (radius: i32)
    requires
        size >= 1,
    ensures
        radius == (if side == 1 {
            -size
        } else {
            size as int
        }),
{
    if side == 1 {
        -size
    } else {
        size
    }
}

/// At least `interval` has been travelled since `last`.
pub open spec fn interval_passed(distance: u64, last: u64, interval: i32) -> bool {
    distance - last >= interval
}

/// Whether an interval has been travelled, see `interval_passed`.
pub fn has_interval_passed(distance: u64, last: u64, interval: i32) -> (passed: bool)
    ensures
        passed == interval_passed(distance, last, interval),
{
    distance as i128 - last as i128 >= interval as i128
}

/// An adjustment for the wheel imbalance is due.
pub open spec fn inbalance_due(model: &SimModel, inbalance: InbalanceModel) -> bool {
    model.wheel_inbalance && interval_passed(
        model.distance_covered,
        inbalance.last_adjustment_distance,
        model.wheel_inbalance_adjustment_step,
    )
}

/// Applies the drift of the wheel imbalance: once the cutter has travelled
/// the adjustment step since the last adjustment, the direction turns by the
/// angle `wheel_inbalance_adjustment_step / radius`.
pub fn handle_wheel_inbalance(
    model: &SimModel,
    inbalance_model: &mut InbalanceModel,
    current_dir: &mut Vector,
)
    requires
        old(current_dir).is_direction(),
        model.wheel_inbalance ==> old(inbalance_model).radius != 0,
    ensures
        final(current_dir).is_direction(),
        final(inbalance_model).radius == old(inbalance_model).radius,
        inbalance_due(model, *old(inbalance_model)) ==> {
            &&& final(inbalance_model).last_adjustment_distance == model.distance_covered
            &&& *final(current_dir) == drifted(
                *old(current_dir),
                model.wheel_inbalance_adjustment_step as int,
                old(inbalance_model).radius as int,
            )
        },
        !inbalance_due(model, *old(inbalance_model)) ==> {
            &&& *final(inbalance_model) == *old(inbalance_model)
            &&& *final(current_dir) == *old(current_dir)
        },
{
    if model.wheel_inbalance && has_interval_passed(
        model.distance_covered,
        inbalance_model.last_adjustment_distance,
        model.wheel_inbalance_adjustment_step,
    ) {
        inbalance_model.last_adjustment_distance = model.distance_covered;
        *current_dir = drift(
            *current_dir,
            model.wheel_inbalance_adjustment_step,
            inbalance_model.radius,
        );
    }
}

/// The slippage model and the direction one step further into a slippage:
/// once the adjustment step has been travelled since the last adjustment, the
/// direction turns, and the slippage ends there if the arc has reached its
/// length. The distance travelled in the slippage grows by one step.
pub open spec fn slipping_on(model: &SimModel, slip: SlippageModel, dir: Vector) -> (
    SlippageModel,
    Vector,
) {
    let adjust = interval_passed(
        model.distance_covered,
        slip.last_adjustment_distance,
        model.slippage_adjustment_step,
    );
    let ends = adjust && slip.current_distance >= slip.end_distance;
    (
        SlippageModel {
            within_slippage: slip.within_slippage && !ends,
            current_distance: (if ends {
                model.step_size as int
            } else {
                slip.current_distance + model.step_size
            }) as u64,
            last_adjustment_distance: if adjust {
                model.distance_covered
            } else {
                slip.last_adjustment_distance
            },
            last_activation_check: if ends {
                model.distance_covered
            } else {
                slip.last_activation_check
            },
            ..slip
        },
        if adjust {
            drifted(dir, model.slippage_adjustment_step as int, slip.adjustment_radius as int)
        } else {
            dir
        },
    )
}

/// The slippage model and the direction at the start of a slippage on an arc
/// of the given radius and length: the direction turns at once.
pub open spec fn slippage_begun(
    model: &SimModel,
    slip: SlippageModel,
    dir: Vector,
    radius: i32,
    end_distance: u64,
) -> (SlippageModel, Vector) {
    (
        SlippageModel {
            within_slippage: true,
            current_distance: 0,
            adjustment_radius: radius,
            end_distance,
            last_adjustment_distance: model.distance_covered,
            last_activation_check: model.distance_covered,
        },
        drifted(dir, model.slippage_adjustment_step as int, radius as int),
    )
}

/// `(after, dir_after)` is what a slippage on an arc of the given radius and
/// length begins with, the radius and the length being such as can be drawn.
pub open spec fn begins_with(
    model: &SimModel,
    slip: SlippageModel,
    dir: Vector,
    after: SlippageModel,
    dir_after: Vector,
    radius: i32,
    end_distance: u64,
) -> bool {
    &&& (model.slippage_radius_min <= radius <= model.slippage_radius_max
        || model.slippage_radius_min <= -radius <= model.slippage_radius_max)
    &&& model.slippage_min_distance <= end_distance <= model.slippage_max_distance
    &&& (after, dir_after) == slippage_begun(model, slip, dir, radius, end_distance)
}

/// `(after, dir_after)` is what a check for slippage leaves where the lot fell
/// on `lot`: where the lot falls under the configured chance, a slippage
/// begins on an arc of the given radius and length, see `begins_with`; else
/// only the check is noted and the direction stays.
pub open spec fn check_settled(
    model: &SimModel,
    slip: SlippageModel,
    dir: Vector,
    after: SlippageModel,
    dir_after: Vector,
    lot: int,
    radius: i32,
    end_distance: u64,
) -> bool {
    if lot_wins(lot, model.slippage_probability as int) {
        begins_with(model, slip, dir, after, dir_after, radius, end_distance)
    } else {
        &&& after == (SlippageModel { last_activation_check: model.distance_covered, ..slip })
        &&& dir_after == dir
    }
}

/// It is time to decide by lot whether a slippage begins.
pub open spec fn slippage_check_due(model: &SimModel, slip: SlippageModel) -> bool {
    model.wheel_slippage && !slip.within_slippage && interval_passed(
        model.distance_covered,
        slip.last_activation_check,
        model.slippage_check_activation_distance,
    )
}

/// Takes a slippage one step further, see `slipping_on`.
pub fn continue_slippage(model: &SimModel, slip: &mut SlippageModel, current_dir: &mut Vector)
    requires
        old(current_dir).is_direction(),
        old(slip).adjustment_radius != 0,
        model.step_size >= 0,
        old(slip).current_distance + model.step_size <= u64::MAX,
    ensures
        (*final(slip), *final(current_dir)) == slipping_on(model, *old(slip), *old(current_dir)),
        final(current_dir).is_direction(),
        final(slip).adjustment_radius == old(slip).adjustment_radius,
        final(slip).current_distance <= old(slip).current_distance + model.step_size,
{
    if has_interval_passed(
        model.distance_covered,
        slip.last_adjustment_distance,
        model.slippage_adjustment_step,
    ) {
        slip.last_adjustment_distance = model.distance_covered;
        *current_dir = drift(*current_dir, model.slippage_adjustment_step, slip.adjustment_radius);
        if slip.current_distance >= slip.end_distance {
            slip.within_slippage = false;
            slip.current_distance = 0;
            slip.last_activation_check = model.distance_covered;
        }
    }
    slip.current_distance = slip.current_distance + model.step_size as u64;
}

/// Begins a slippage, see `slippage_begun`.
pub fn begin_slippage(
    model: &SimModel,
    slip: &mut SlippageModel,
    current_dir: &mut Vector,
    radius: i32,
    end_distance: u64,
)
    requires
        old(current_dir).is_direction(),
        radius != 0,
    ensures
        (*final(slip), *final(current_dir)) == slippage_begun(
            model,
            *old(slip),
            *old(current_dir),
            radius,
            end_distance,
        ),
        final(current_dir).is_direction(),
{
    slip.within_slippage = true;
    slip.adjustment_radius = radius;
    slip.end_distance = end_distance;
    *current_dir = drift(*current_dir, model.slippage_adjustment_step, radius);
    slip.current_distance = 0;
    slip.last_adjustment_distance = model.distance_covered;
    slip.last_activation_check = model.distance_covered;
}

/// What a check for slippage leaves where the lot has been drawn and, if it
/// was won, the arc: with an arc of a radius and a length the slippage
/// begins, see `slippage_begun`; without one only the check is noted and the
/// direction stays.
pub open spec fn check_outcome(
    model: &SimModel,
    slip: SlippageModel,
    dir: Vector,
    arc: Option<(i32, u64)>,
) -> (SlippageModel, Vector) {
    match arc {
        Some((radius, end_distance)) => slippage_begun(model, slip, dir, radius, end_distance),
        None => (SlippageModel { last_activation_check: model.distance_covered, ..slip }, dir),
    }
}

/// Settles a check for slippage from what was drawn, see `check_outcome`.
pub fn settle_slippage_check(
    model: &SimModel,
    slip: &mut SlippageModel,
    current_dir: &mut Vector,
    arc: Option<(i32, u64)>,
)
    requires
        old(current_dir).is_direction(),
        arc matches Some(drawn) ==> drawn.0 != 0,
    ensures
        (*final(slip), *final(current_dir)) == check_outcome(
            model,
            *old(slip),
            *old(current_dir),
            arc,
        ),
        final(current_dir).is_direction(),
{
    slip.last_activation_check = model.distance_covered;
    match arc {
        Some((radius, end_distance)) => {
            begin_slippage(model, slip, current_dir, radius, end_distance);
        },
        None => {},
    }
}

/// Draws the arc of a slippage: its side, its radius and its length, each
/// evenly from its configured range.
pub fn draw_arc(model: &SimModel, rng: &mut StdRng) -> (arc: (i32, u64))
    requires
        1 <= model.slippage_radius_min <= model.slippage_radius_max,
        0 <= model.slippage_min_distance <= model.slippage_max_distance,
    ensures
        model.slippage_radius_min <= arc.0 <= model.slippage_radius_max || model.slippage_radius_min
            <= -arc.0 <= model.slippage_radius_max,
        model.slippage_min_distance <= arc.1 <= model.slippage_max_distance,
{
    let side = random_in_range(rng, 0, 1);
    let size = random_in_range(
        rng,
        model.slippage_radius_min as i64,
        model.slippage_radius_max as i64,
    );
    let end_distance = random_in_range(
        rng,
        model.slippage_min_distance as i64,
        model.slippage_max_distance as i64,
    );
    (signed_radius(side, size as i32), end_distance as u64)
}

/// Applies the drift of wheel slippage. While a slippage lasts, it is taken
/// one step further. Otherwise, once the cutter has travelled the check
/// distance since the last check, a lot decides with the configured
/// probability whether a slippage begins; if so its side, its radius and its
/// length are drawn, each from its configured range.
pub fn handle_wheel_slippage(
    model: &SimModel,
    slippage_model: &mut SlippageModel,
    current_dir: &mut Vector,
    rng: &mut StdRng,
)
    requires
        old(current_dir).is_direction(),
        model.step_size >= 0,
        old(slippage_model).current_distance + model.step_size <= u64::MAX,
        model.wheel_slippage ==> {
            &&& 1 <= model.slippage_radius_min <= model.slippage_radius_max
            &&& 0 <= model.slippage_min_distance <= model.slippage_max_distance
        },
        old(slippage_model).within_slippage ==> old(slippage_model).adjustment_radius != 0,
    ensures
        final(current_dir).is_direction(),
        final(slippage_model).within_slippage ==> final(slippage_model).adjustment_radius != 0,
        final(slippage_model).current_distance <= old(slippage_model).current_distance
            + model.step_size,
        !model.wheel_slippage ==> *final(slippage_model) == *old(slippage_model) && *final(current_dir) == *old(current_dir),
        model.wheel_slippage && old(slippage_model).within_slippage ==> (
            *final(slippage_model),
            *final(current_dir),
        ) == slipping_on(model, *old(slippage_model), *old(current_dir)),
        model.wheel_slippage && !old(slippage_model).within_slippage && !slippage_check_due(
            model,
            *old(slippage_model),
        ) ==> *final(slippage_model) == *old(slippage_model) && *final(current_dir) == *old(current_dir),
        slippage_check_due(model, *old(slippage_model)) ==> exists|
            lot: int,
            radius: i32,
            end_distance: u64,
        |
            0 <= lot < crate::model::MILLION && #[trigger] check_settled(
                model,
                *old(slippage_model),
                *old(current_dir),
                *final(slippage_model),
                *final(current_dir),
                lot,
                radius,
                end_distance,
            ),
        slippage_check_due(model, *old(slippage_model)) && model.slippage_probability == 0 ==> {
            &&& *final(slippage_model) == (SlippageModel {
                last_activation_check: model.distance_covered,
                ..*old(slippage_model)
            })
            &&& *final(current_dir) == *old(current_dir)
        },
        slippage_check_due(model, *old(slippage_model)) && model.slippage_probability
            >= crate::model::MILLION ==> final(slippage_model).within_slippage,
{
    if model.wheel_slippage {
        if slippage_model.within_slippage {
            continue_slippage(model, slippage_model, current_dir);
        } else if has_interval_passed(
            model.distance_covered,
            slippage_model.last_activation_check,
            model.slippage_check_activation_distance,
        ) {
            let lot = random_in_range(rng, 0, crate::model::MILLION as i64 - 1);
            let arc = if is_lot_won(lot, model.slippage_probability) {
                Some(draw_arc(model, rng))
            } else {
                None
            };
            settle_slippage_check(model, slippage_model, current_dir, arc);
            assert(check_settled(
                model,
                *old(slippage_model),
                *old(current_dir),
                *slippage_model,
                *current_dir,
                lot as int,
                match arc {
                    Some(drawn) => drawn.0,
                    None => 1,
                },
                match arc {
                    Some(drawn) => drawn.1,
                    None => 0,
                },
            ));
        }
    }
}


/// Why a run could not go on.
#[derive(Debug, Clone, Copy, PartialEq, Eq, Structural)]
pub enum SimError {
    /// The cutter would have covered a cell that is an obstacle.
    ObstacleInFootprint,
}

/// Battery charge left after running for `since` ticks on a battery that
/// lasts `run_time` ticks, in thousandths of a percent. It falls below 0 once
/// the battery has run longer than it lasts.
pub open spec fn charge_left(since: int, run_time: int) -> int {
    let left = 100_000 - since * 100_000 / run_time;
    if left < i64::MIN {
        i64::MIN as int
    } else {
        left
    }
}

/// Books a charge cycle: the way back to the station, which takes
/// `return_time`, and the charging.
pub fn recharge(model: &mut SimModel, return_time: u64)
    requires
        old(model).sim_time_elapsed + return_time + old(model).battery_charge_time <= u64::MAX,
        old(model).battery_charge_count < usize::MAX,
    ensures
        *final(model) == (SimModel {
            sim_time_elapsed: (old(model).sim_time_elapsed + return_time + old(model).battery_charge_time) as u64,
            battery_charge_count: (old(model).battery_charge_count + 1) as usize,
            ..*old(model)
        }),
{
    model.sim_time_elapsed = model.sim_time_elapsed + return_time;
    model.sim_time_elapsed = model.sim_time_elapsed + model.battery_charge_time;
    model.battery_charge_count = model.battery_charge_count + 1;
}

/// Battery bookkeeping after a step. With a battery configured (a run time
/// above 0), the charge left follows from the time since the last charge, and
/// once that time exceeds the run time a charge cycle is booked: the cutter
/// takes between 3 and 15 minutes, drawn at random, to find the station, and
/// charges for the configured time. Returns the time since the last charge.
pub fn handle_battery_charge(
    model: &mut SimModel,
    time_elapsed_since_last_charge: u64,
    rng: &mut StdRng,
) -> (since: u64)
    requires
        old(model).sim_time_elapsed + RETURN_TIME_MAX + old(model).battery_charge_time <= u64::MAX,
        old(model).battery_charge_count < usize::MAX,
    ensures
        old(model).battery_run_time == 0 ==> *final(model) == *old(model) && since
            == time_elapsed_since_last_charge,
        old(model).battery_run_time > 0 ==> final(model).battery_charge_left == charge_left(
            time_elapsed_since_last_charge as int,
            old(model).battery_run_time as int,
        ),
        old(model).battery_run_time > 0 && time_elapsed_since_last_charge <= old(model).battery_run_time ==> since == time_elapsed_since_last_charge && *final(model) == (SimModel {
            battery_charge_left: final(model).battery_charge_left,
            ..*old(model)
        }),
        old(model).battery_run_time > 0 && time_elapsed_since_last_charge > old(model).battery_run_time ==> {
            &&& since == 0
            &&& old(model).sim_time_elapsed + RETURN_TIME_MIN + old(model).battery_charge_time
                <= final(model).sim_time_elapsed <= old(model).sim_time_elapsed + RETURN_TIME_MAX
                + old(model).battery_charge_time
            &&& *final(model) == (SimModel {
                battery_charge_left: final(model).battery_charge_left,
                sim_time_elapsed: final(model).sim_time_elapsed,
                battery_charge_count: (old(model).battery_charge_count + 1) as usize,
                ..*old(model)
            })
        },
{
    if model.battery_run_time > 0 {
        let used: i128 = (time_elapsed_since_last_charge as i128 * 100_000) / (
        model.battery_run_time as i128);
        assert(0 <= used <= time_elapsed_since_last_charge * 100_000) by (nonlinear_arith)
            requires
                used == (time_elapsed_since_last_charge * 100_000) / (model.battery_run_time as int),
                model.battery_run_time > 0,
                time_elapsed_since_last_charge >= 0,
        ;
        let left: i128 = 100_000 - used;
        model.battery_charge_left = if left < i64::MIN as i128 {
            i64::MIN
        } else {
            left as i64
        };
        if time_elapsed_since_last_charge > model.battery_run_time {
            let return_time = random_in_range(rng, RETURN_TIME_MIN as i64, RETURN_TIME_MAX as i64);
            recharge(model, return_time as u64);
            return 0;
        }
    }
    time_elapsed_since_last_charge
}

/// What a run carries from step to step besides the model: where the cutter
/// is, where it is heading, and the state of the wheel and battery models.
#[derive(Debug, Clone, Copy, PartialEq, Eq, Structural)]
pub struct CutterState {
    pub center: Vector,
    pub dir: Vector,
    pub slippage: SlippageModel,
    pub inbalance: InbalanceModel,
    pub time_since_last_charge: u64,
    /// Coverage after the last step, in thousandths of a percent.
    pub coverage_percent: u32,
}

impl SimModel {
    /// Nothing is left to chance: the wheel models, both perturbations and
    /// the battery are switched off.
    pub open spec fn steady(&self) -> bool {
        &&& !self.wheel_inbalance
        &&& !self.wheel_slippage
        &&& !self.perturb
        &&& !self.perturb_segment
        &&& self.battery_run_time == 0
    }

    /// Every counter can still grow by one step.
    pub open spec fn headroom(&self) -> bool {
        &&& self.sim_steps < u64::MAX
        &&& self.distance_covered + self.step_size <= u64::MAX
        &&& self.segment_number < usize::MAX
        &&& self.battery_charge_count < usize::MAX
    }

    /// The run goes on: no stop condition that is switched on is met, the
    /// failsafe time limit is not reached, and every counter can still grow.
    pub open spec fn keeps_running(&self, coverage_percent: u32) -> bool {
        &&& (self.stop_bounces == 0 || self.segment_number < self.stop_bounces)
        &&& (self.stop_time == 0 || self.sim_time_elapsed < self.stop_time)
        &&& (self.stop_coverage == 0 || coverage_percent < self.stop_coverage)
        &&& (self.stop_simsteps == 0 || self.sim_steps < self.stop_simsteps)
        &&& (self.stop_distance == 0 || self.distance_covered < self.stop_distance)
        &&& self.sim_time_elapsed < FAILSAFE_TIME_LIMIT
        &&& self.headroom()
    }

    /// The state belongs to a run of this model: the cutter lies in the
    /// bounding box and heads in a direction, and the marks on the grid stem
    /// from the segments of the run so far.
    pub open spec fn state_ok(&self, state: CutterState) -> bool {
        &&& state.dir.is_direction()
        &&& self.bb.contains(state.center.x as int, state.center.y as int)
        &&& state.slippage.current_distance <= self.distance_covered
        &&& state.slippage.within_slippage ==> state.slippage.adjustment_radius != 0
        &&& self.wheel_inbalance ==> state.inbalance.radius != 0
        &&& state.time_since_last_charge <= self.sim_time_elapsed
        &&& match self.grid {
            Some(g) => g.marks_from(self.segment_number as int),
            None => true,
        }
    }

    /// Whether the run goes on, see `keeps_running`.
    pub fn should_continue(&self, coverage_percent: u32) -> (go_on: bool)
        requires
            self.step_size >= 0,
        ensures
            go_on == self.keeps_running(coverage_percent),
    {
        (self.stop_bounces == 0 || self.segment_number < self.stop_bounces) && (self.stop_time == 0
            || self.sim_time_elapsed < self.stop_time) && (self.stop_coverage == 0
            || coverage_percent < self.stop_coverage) && (self.stop_simsteps == 0 || self.sim_steps
            < self.stop_simsteps) && (self.stop_distance == 0 || self.distance_covered
            < self.stop_distance) && self.sim_time_elapsed < FAILSAFE_TIME_LIMIT && self.sim_steps
            < u64::MAX && self.distance_covered <= u64::MAX - self.step_size as u64
            && self.segment_number < usize::MAX && self.battery_charge_count < usize::MAX
    }

    /// Ticks that one step takes.
    pub fn step_duration(&self) -> (ticks: u64)
        requires
            self.step_size >= 0,
            self.velocity >= 1,
        ensures
            ticks == self.time_per_step(),
            ticks <= 0x8000_0000 * TICKS_PER_SECOND,
    {
        let scaled: u64 = self.step_size as u64 * TICKS_PER_SECOND;
        let ticks = scaled / self.velocity as u64;
        assert(ticks <= scaled) by (nonlinear_arith)
            requires
                ticks == scaled as int / self.velocity as int,
                self.velocity >= 1,
                scaled >= 0,
        ;
        ticks
    }
}

/// The cutter's centre one step of length `step_size` along `dir` from `center`.
pub open spec fn moved(center: Vector, dir: Vector, step_size: int) -> Vector {
    Vector {
        x: (center.x + travel(dir.x as int, step_size)) as i32,
        y: (center.y + travel(dir.y as int, step_size)) as i32,
    }
}

/// The position that the collision check leaves the cutter at: where nothing
/// was hit the position it came to; after a hit on the boundary that position
/// limited to the bounding box; after a hit on an obstacle the position one
/// step back along the reversed direction, limited to the bounding box.
pub open spec fn settled(model: &SimModel, center: Vector, dir: Vector, edge: bool, obstacle: bool) -> Vector {
    if edge {
        Vector {
            x: limited(center.x as int, model.bb.min_x as int, model.bb.max_x as int) as i32,
            y: limited(center.y as int, model.bb.min_y as int, model.bb.max_y as int) as i32,
        }
    } else if obstacle {
        Vector {
            x: limited(
                center.x - travel(dir.x as int, model.step_size as int),
                model.bb.min_x as int,
                model.bb.max_x as int,
            ) as i32,
            y: limited(
                center.y - travel(dir.y as int, model.step_size as int),
                model.bb.min_y as int,
                model.bb.max_y as int,
            ) as i32,
        }
    } else {
        center
    }
}

/// The direction that the collision check leaves: reflected along each axis
/// on which the boundary was passed, reversed after a hit on an obstacle.
pub open spec fn deflected(model: &SimModel, center: Vector, dir: Vector, obstacle: bool) -> Vector {
    if obstacle {
        Vector { x: (-dir.x) as i32, y: (-dir.y) as i32 }
    } else {
        Vector {
            x: if beyond_x(center, model.bb) {
                (-dir.x) as i32
            } else {
                dir.x
            },
            y: if beyond_y(center, model.bb) {
                (-dir.y) as i32
            } else {
                dir.y
            },
        }
    }
}

/// The collision check of one step, at the position the cutter has come to.
///
/// The boundary check comes first: where the centre has left the bounding
/// box, the direction is reflected. Only where the boundary was not hit the
/// obstacle check follows: on a hit the direction is reversed and the cutter
/// set back by one step. Any hit ends the travel segment and puts the centre
/// back into the bounding box. Returns whether anything was hit.
#[verifier::rlimit(40)]
pub fn resolve_collision(model: &mut SimModel, center: &mut Vector, dir: &mut Vector) -> (hit: bool)
    requires
        old(model).ready(),
        old(dir).is_direction(),
        old(model).segment_number < usize::MAX,
    ensures
        final(model).same_config(old(model)),
        final(model).ready(),
        final(model).sim_time_elapsed == old(model).sim_time_elapsed,
        final(model).sim_steps == old(model).sim_steps,
        final(model).distance_covered == old(model).distance_covered,
        final(model).battery_charge_count == old(model).battery_charge_count,
        final(model).battery_charge_left == old(model).battery_charge_left,
        final(model).grid->0.cells == old(model).grid->0.cells,
        final(model).grid->0.covered_cells == old(model).grid->0.covered_cells,
        final(model).grid->0.cells_obstacles_count == old(model).grid->0.cells_obstacles_count,
        final(model).grid->0.quadtree == old(model).grid->0.quadtree,
        final(model).grid->0.use_quad_tree == old(model).grid->0.use_quad_tree,
        ({
            let edge = beyond_x(*old(center), old(model).bb) || beyond_y(*old(center), old(model).bb);
            let obstacle = !edge && !old(model).grid->0.index_rules_out(
                *old(center),
                old(model).radius as int,
            ) && old(model).grid->0.scan_hits(*old(center), old(model).radius as int);
            &&& hit == (edge || obstacle)
            &&& *final(dir) == deflected(old(model), *old(center), *old(dir), obstacle)
            &&& *final(center) == settled(old(model), *old(center), *old(dir), edge, obstacle)
            &&& final(model).segment_number == old(model).segment_number + (if hit {
                1int
            } else {
                0int
            })
        }),
        final(dir).is_direction(),
        final(model).bb.contains(final(center).x as int, final(center).y as int),
{
    let bb = model.bb;
    let mut collision_detected = is_grid_edge(center, &bb, dir);
    proof {
        lemma_mirrored_direction(*old(dir), *dir);
    }
    let mut x: i64 = center.x as i64;
    let mut y: i64 = center.y as i64;
    if !collision_detected {
        let radius = model.radius;
        let touched = match model.grid.as_mut() {
            Some(grid) => grid.collision_with_obstacle(center, radius),
            None => false,
        };
        proof {
            model.grid->0.lemma_same_cells(&old(model).grid->0);
        }
        if touched {
            *dir = core::ops::Neg::neg(*dir);
            proof {
                lemma_mirrored_direction(*old(dir), *dir);
            }
            collision_detected = true;
            let back = displacement(*dir, model.step_size);
            assert(travel(-old(dir).x as int, model.step_size as int) == -travel(
                old(dir).x as int,
                model.step_size as int,
            ) && travel(-old(dir).y as int, model.step_size as int) == -travel(
                old(dir).y as int,
                model.step_size as int,
            )) by {
                lemma_travel_odd(old(dir).x as int, model.step_size as int);
                lemma_travel_odd(old(dir).y as int, model.step_size as int);
            }
            x = x + back.x as i64;
            y = y + back.y as i64;
        }
    }
    if collision_detected {
        model.segment_number = model.segment_number + 1;
        *center = Vector {
            x: bb.limit_x(clamp_to_coordinate(x)),
            y: bb.limit_y(clamp_to_coordinate(y)),
        };
    }
    collision_detected
}

/// Travel in the opposite direction is the opposite travel.
pub proof fn lemma_travel_odd(component: int, step_size: int)
    ensures
        travel(-component, step_size) == -travel(component, step_size),
{
    assert((-component) * step_size == -(component * step_size)) by (nonlinear_arith);
}


/// Grids with the same obstacle cells and the same index give the same
/// answer to the collision check.
pub proof fn lemma_same_obstacles_same_answer(first: &Grid, second: &Grid, center: Vector, radius: int)
    requires
        first.cells_x == second.cells_x,
        first.cells_y == second.cells_y,
        first.cell_size == second.cell_size,
        first.quadtree == second.quadtree,
        first.use_quad_tree == second.use_quad_tree,
        first.only_grows(second),
    ensures
        first.scan_hits(center, radius) == second.scan_hits(center, radius),
        first.index_rules_out(center, radius) == second.index_rules_out(center, radius),
{
    if first.scan_hits(center, radius) {
        let (x, y) = choose|x: int, y: int|
            first.in_bounds(x, y) && first.in_scan(center, radius, x, y) && #[trigger] first.cell(
                x,
                y,
            ) is Obstacle;
        assert(second.cell(x, y) is Obstacle);
    }
    if second.scan_hits(center, radius) {
        let (x, y) = choose|x: int, y: int|
            second.in_bounds(x, y) && second.in_scan(center, radius, x, y) && #[trigger] second.cell(
                x,
                y,
            ) is Obstacle;
        assert((first.cell(x, y) is Obstacle) == (second.cell(x, y) is Obstacle));
    }
}

/// One step of the simulation.
///
/// In order: the step counter and the distance grow, the cutter moves one
/// step along its direction, the wheel models turn the direction, the cells
/// under the cutter are marked, the collision check runs, the strategy picks
/// the direction for the next step, the clock advances by the duration of a
/// step, the battery is looked after, and the coverage is read off the grid.
///
/// Returns whether the cutter hit anything. Where the cutter would cover a
/// cell that is an obstacle, nothing is marked and the step fails.
#[verifier::rlimit(60)]
pub fn simulation_step(model: &mut SimModel, state: &mut CutterState, rng: &mut StdRng) -> (outcome:
    Result<bool, SimError>)
    requires
        old(model).ready(),
        old(model).state_ok(*old(state)),
        old(model).keeps_running(old(state).coverage_percent),
    ensures
        final(model).same_config(old(model)),
        final(model).ready(),
        final(model).sim_steps == old(model).sim_steps + 1,
        final(model).distance_covered == old(model).distance_covered + old(model).step_size,
        final(model).grid->0.quadtree == old(model).grid->0.quadtree,
        final(model).grid->0.use_quad_tree == old(model).grid->0.use_quad_tree,
        outcome is Err ==> {
            &&& *final(model) == (SimModel {
                sim_steps: (old(model).sim_steps + 1) as u64,
                distance_covered: (old(model).distance_covered + old(model).step_size) as u64,
                ..*old(model)
            })
            &&& final(model).grid->0.cells == old(model).grid->0.cells
            &&& !old(model).grid->0.footprint_clear(
                moved(old(state).center, old(state).dir, old(model).step_size as int),
                old(model).radius as int,
                old(model).blade_len as int,
                old(model).cutter_type,
                old(model).track_center,
            )
        },
        outcome is Err <==> blocked_at(
            old(model),
            &old(model).grid->0,
            moved(old(state).center, old(state).dir, old(model).step_size as int),
        ),
        old(model).battery_run_time == 0 ==> (outcome is Ok ==> {
            &&& final(model).sim_time_elapsed == old(model).sim_time_elapsed + old(model).time_per_step()
            &&& final(model).battery_charge_count == old(model).battery_charge_count
            &&& final(model).battery_charge_left == old(model).battery_charge_left
        }),
        outcome matches Ok(hit) ==> {
            &&& final(model).state_ok(*final(state))
            &&& old(model).grid->0.marked_as(
                &final(model).grid->0,
                moved(old(state).center, old(state).dir, old(model).step_size as int),
                old(model).radius as int,
                old(model).blade_len as int,
                old(model).cutter_type,
                old(model).track_center,
                old(model).segment_number,
            )
            &&& old(model).grid->0.only_grows(&final(model).grid->0)
            &&& final(model).grid->0.covered_cells >= old(model).grid->0.covered_cells
            &&& final(model).grid->0.cells_obstacles_count == old(model).grid->0.cells_obstacles_count
            &&& old(model).radius <= final(state).center.x <= old(model).grid_width - old(model).radius
            &&& old(model).radius <= final(state).center.y <= old(model).grid_height - old(model).radius
            &&& final(model).segment_number == old(model).segment_number + (if hit {
                1int
            } else {
                0int
            })
            &&& !hit ==> final(state).center == moved(
                old(state).center,
                old(state).dir,
                old(model).step_size as int,
            )
            &&& old(model).sim_time_elapsed + old(model).time_per_step() <= final(model).sim_time_elapsed <= old(model).sim_time_elapsed + old(model).time_per_step()
                + RETURN_TIME_MAX + old(model).battery_charge_time
            &&& final(state).coverage_percent == coverage_percent_of(
                final(model).grid->0.covered_cells as int,
                final(model).grid->0.cells_x * final(model).grid->0.cells_y - final(model).grid->0.cells_obstacles_count,
            )
        },
        old(model).steady() ==> (outcome matches Ok(hit) ==> {
            let at = moved(old(state).center, old(state).dir, old(model).step_size as int);
            let edge = beyond_x(at, old(model).bb) || beyond_y(at, old(model).bb);
            let obstacle = !edge && !old(model).grid->0.index_rules_out(at, old(model).radius as int)
                && old(model).grid->0.scan_hits(at, old(model).radius as int);
            &&& hit == (edge || obstacle)
            &&& final(state).dir == deflected(old(model), at, old(state).dir, obstacle)
            &&& final(state).center == settled(old(model), at, old(state).dir, edge, obstacle)
            &&& final(model).sim_time_elapsed == old(model).sim_time_elapsed + old(model).time_per_step()
            &&& final(state).time_since_last_charge == old(state).time_since_last_charge + old(model).time_per_step()
            &&& final(state).slippage == old(state).slippage
            &&& final(state).inbalance == old(state).inbalance
            &&& final(model).battery_charge_count == old(model).battery_charge_count
            &&& final(model).battery_charge_left == old(model).battery_charge_left
        }),
{
    model.sim_steps = model.sim_steps + 1;
    model.distance_covered = model.distance_covered + model.step_size as u64;
    proof {
        let g = model.grid->0;
        assert(g.cell_size <= g.cells_x * g.cell_size && g.cell_size <= g.cells_y * g.cell_size)
            by (nonlinear_arith)
            requires
                g.cells_x * g.cell_size >= 2,
                g.cells_y * g.cell_size >= 2,
                g.cell_size > 0,
                g.cells_x >= 0,
                g.cells_y >= 0,
        ;
    }
    let step = displacement(state.dir, model.step_size);
    state.center = Vector { x: state.center.x + step.x, y: state.center.y + step.y };
    let ghost at = state.center;
    handle_wheel_inbalance(model, &mut state.inbalance, &mut state.dir);
    handle_wheel_slippage(model, &mut state.slippage, &mut state.dir, rng);
    let radius = model.radius;
    let blade_len = model.blade_len;
    let cutter_type = model.cutter_type;
    let track_center = model.track_center;
    let segment_number = model.segment_number;
    let center = state.center;
    let clear = match model.grid.as_mut() {
        Some(grid) => {
            if grid.is_footprint_clear(&center, radius, blade_len, cutter_type, track_center) {
                proof {
                    grid.lemma_marks_can_count(segment_number);
                }
                grid.mark_covered_cells(
                    &center,
                    radius,
                    segment_number,
                    blade_len,
                    cutter_type,
                    track_center,
                );
                true
            } else {
                false
            }
        },
        None => false,
    };
    if !clear {
        return Err(SimError::ObstacleInFootprint);
    }
    proof {
        old(model).grid->0.lemma_marking_keeps_marks_from(
            &model.grid->0,
            at,
            radius as int,
            blade_len as int,
            cutter_type,
            track_center,
            segment_number,
        );
    }
    let ghost marked = model.grid->0;
    proof {
        lemma_same_obstacles_same_answer(&old(model).grid->0, &marked, at, radius as int);
    }
    let hit = resolve_collision(model, &mut state.center, &mut state.dir);
    state.dir = cutter_strategy(&state.dir, &state.center, hit, model, rng);
    let ticks = model.step_duration();
    model.sim_time_elapsed = model.sim_time_elapsed + ticks;
    state.time_since_last_charge = state.time_since_last_charge + ticks;
    state.time_since_last_charge = handle_battery_charge(model, state.time_since_last_charge, rng);
    let percent = match &model.grid {
        Some(grid) => grid.get_coverage_percent(),
        None => 0,
    };
    state.coverage_percent = percent;
    proof {
        assert(model.grid->0.cells == marked.cells);
        assert forall|x: int, y: int| marked.in_bounds(x, y) implies #[trigger] model.grid->0.cell(
            x,
            y,
        ) == marked.cell(x, y) by {}
    }
    Ok(hit)
}

/// The state that a run of the model starts from: the cutter at the start
/// position, limited to the bounding box, heading in the start direction, the
/// wheel models fresh.
pub fn start_state(model: &mut SimModel, rng: &mut StdRng) -> (state: CutterState)
    requires
        old(model).ready(),
        (Vector { x: old(model).start_dir_x, y: old(model).start_dir_y }).is_direction(),
        old(model).grid->0.marks_from(old(model).segment_number as int),
    ensures
        final(model).same_config(old(model)),
        final(model).ready(),
        final(model).state_ok(state),
        *final(model) == (SimModel {
            wheel_inbalance_radius_used: final(model).wheel_inbalance_radius_used,
            ..*old(model)
        }),
        final(model).grid == old(model).grid,
        final(model).sim_time_elapsed == old(model).sim_time_elapsed,
        final(model).segment_number == old(model).segment_number,
        final(model).sim_steps == old(model).sim_steps,
        final(model).distance_covered == old(model).distance_covered,
        state.center == (Vector {
            x: limited(
                old(model).start_x as int,
                old(model).bb.min_x as int,
                old(model).bb.max_x as int,
            ) as i32,
            y: limited(
                old(model).start_y as int,
                old(model).bb.min_y as int,
                old(model).bb.max_y as int,
            ) as i32,
        }),
        state.dir == (Vector { x: old(model).start_dir_x, y: old(model).start_dir_y }),
        state.slippage == SlippageModel::new_spec(),
        state.inbalance.last_adjustment_distance == 0,
        !old(model).wheel_inbalance ==> state.inbalance.radius == 0,
        old(model).wheel_inbalance ==> {
            ||| old(model).wheel_inbalance_radius_min <= state.inbalance.radius <= old(model).wheel_inbalance_radius_max
            ||| old(model).wheel_inbalance_radius_min <= -state.inbalance.radius <= old(model).wheel_inbalance_radius_max
        },
        final(model).wheel_inbalance_radius_used == state.inbalance.radius,
        state.time_since_last_charge == 0,
        state.coverage_percent == 0,
{
    let mut inbalance = InbalanceModel::new();
    inbalance.init(model, rng);
    CutterState {
        center: Vector::new(model.bb.limit_x(model.start_x), model.bb.limit_y(model.start_y)),
        dir: Vector::new(model.start_dir_x, model.start_dir_y),
        slippage: SlippageModel::new(),
        inbalance,
        time_since_last_charge: 0,
        coverage_percent: 0,
    }
}

/// One step along a direction moves the cutter by no more than the length of
/// the step along either axis.
pub proof fn lemma_travel_bound(component: int, step_size: int)
    requires
        -DIR_SCALE <= component <= DIR_SCALE,
        step_size >= 0,
    ensures
        -step_size <= travel(component, step_size) <= step_size,
{
    let scale = DIR_SCALE as int;
    let product = component * step_size;
    let moved = travel(component, step_size);
    assert(-step_size <= moved <= step_size) by (nonlinear_arith)
        requires
            moved == (if product >= 0 {
                product / scale
            } else {
                -((-product) / scale)
            }),
            product == component * step_size,
            scale == 0x4000_0000,
            -scale <= component <= scale,
            step_size >= 0,
    ;
}

/// The position lies no further than one step outside the bounding box of
/// the model along either axis: it is one that a step can take the cutter to.
pub open spec fn within_a_step(model: &SimModel, at: Vector) -> bool {
    &&& model.bb.min_x - model.step_size <= at.x <= model.bb.max_x + model.step_size
    &&& model.bb.min_y - model.step_size <= at.y <= model.bb.max_y + model.step_size
}

/// A marking pass of the model's cutter at `at` would touch an obstacle of
/// the grid.
pub open spec fn blocked_at(model: &SimModel, grid: &Grid, at: Vector) -> bool {
    !grid.footprint_clear(
        at,
        model.radius as int,
        model.blade_len as int,
        model.cutter_type,
        model.track_center,
    )
}

/// Where a run without chance stands after some steps: the cutter's centre
/// and direction, and the bounces so far.
pub struct Course {
    pub center: Vector,
    pub dir: Vector,
    pub bounces: nat,
}

/// Where a run of the model starts: at the start position, limited to the
/// bounding box, heading in the start direction.
pub open spec fn steady_start(model: &SimModel) -> Course {
    Course {
        center: Vector {
            x: limited(model.start_x as int, model.bb.min_x as int, model.bb.max_x as int) as i32,
            y: limited(model.start_y as int, model.bb.min_y as int, model.bb.max_y as int) as i32,
        },
        dir: Vector { x: model.start_dir_x, y: model.start_dir_y },
        bounces: 0,
    }
}

/// One step of a run without chance: the cutter moves one step along its
/// direction, and the collision check, against the obstacles and the index of
/// `grid`, settles where it stands and where it heads.
pub open spec fn steady_next(model: &SimModel, grid: &Grid, course: Course) -> Course {
    let at = moved(course.center, course.dir, model.step_size as int);
    let edge = beyond_x(at, model.bb) || beyond_y(at, model.bb);
    let obstacle = !edge && !grid.index_rules_out(at, model.radius as int) && grid.scan_hits(
        at,
        model.radius as int,
    );
    Course {
        center: settled(model, at, course.dir, edge, obstacle),
        dir: deflected(model, at, course.dir, obstacle),
        bounces: course.bounces + (if edge || obstacle {
            1nat
        } else {
            0nat
        }),
    }
}

/// Where a run without chance stands after `n` steps.
pub open spec fn steady_course(model: &SimModel, grid: &Grid, n: nat) -> Course
    decreases n,
{
    if n == 0 {
        steady_start(model)
    } else {
        steady_next(model, grid, steady_course(model, grid, (n - 1) as nat))
    }
}

/// The position that step `n + 1` of a run without chance takes the cutter
/// to, before the collision check.
pub open spec fn steady_target(model: &SimModel, grid: &Grid, n: nat) -> Vector {
    moved(
        steady_course(model, grid, n).center,
        steady_course(model, grid, n).dir,
        model.step_size as int,
    )
}

/// The cell at `(x, y)` after `n` steps of a run without chance: marked step
/// after step from where the cutter came to, with the travel segment of the
/// step.
pub open spec fn steady_cell(model: &SimModel, grid: &Grid, n: nat, x: int, y: int) -> Cell
    decreases n,
{
    if n == 0 {
        grid.cell(x, y)
    } else {
        let at = steady_target(model, grid, (n - 1) as nat);
        cell_after_mark(
            steady_cell(model, grid, (n - 1) as nat, x, y),
            grid.footprint(
                at,
                model.radius as int,
                model.blade_len as int,
                model.cutter_type,
                x,
                y,
            ),
            model.track_center && grid.is_center_cell(at, x, y),
            (model.segment_number + steady_course(model, grid, (n - 1) as nat).bounces) as usize,
        )
    }
}

/// The positions of the cells that are covered after `n` steps of a run
/// without chance.
pub open spec fn steady_covered(model: &SimModel, grid: &Grid, n: nat) -> Set<(int, int)> {
    Set::new(
        |p: (int, int)| grid.in_bounds(p.0, p.1) && steady_cell(model, grid, n, p.0, p.1).is_marked(),
    )
}

/// The coverage that the run goes by after `n` steps: 0 before the first
/// step, the coverage of the grid after every step.
pub open spec fn steady_coverage(model: &SimModel, grid: &Grid, n: nat) -> int {
    if n == 0 {
        0
    } else {
        coverage_percent_of(
            steady_covered(model, grid, n).len() as int,
            grid.cells_x * grid.cells_y - grid.cells_obstacles_count,
        )
    }
}

/// The model with its counters as they stand after `n` steps of a run
/// without chance and without battery.
pub open spec fn steady_counters(model: &SimModel, grid: &Grid, n: nat) -> SimModel {
    SimModel {
        sim_steps: (model.sim_steps + n) as u64,
        distance_covered: (model.distance_covered + n * model.step_size) as u64,
        sim_time_elapsed: (model.sim_time_elapsed + n * model.time_per_step()) as u64,
        segment_number: (model.segment_number + steady_course(model, grid, n).bounces) as usize,
        ..*model
    }
}

/// After `n` steps of a run without chance another step is due.
pub open spec fn steady_due(model: &SimModel, grid: &Grid, n: nat) -> bool {
    steady_counters(model, grid, n).keeps_running(steady_coverage(model, grid, n) as u32)
}

/// Step `n + 1` of a run without chance would make the cutter cover an
/// obstacle.
pub open spec fn steady_blocked(model: &SimModel, grid: &Grid, n: nat) -> bool {
    blocked_at(model, grid, steady_target(model, grid, n))
}

/// A run without chance takes `n` steps and then fails (`failed`) or ends: a
/// step was due before every one of its steps, none but the last was
/// blocked, and the last was blocked if the run failed; if it did not, no
/// step is due after the last.
pub open spec fn steady_run(model: &SimModel, grid: &Grid, n: nat, failed: bool) -> bool {
    &&& forall|k: nat| k < n ==> #[trigger] steady_due(model, grid, k)
    &&& forall|k: nat| k + 1 < n ==> !#[trigger] steady_blocked(model, grid, k)
    &&& if failed {
        n >= 1 && steady_blocked(model, grid, (n - 1) as nat)
    } else {
        (n >= 1 ==> !steady_blocked(model, grid, (n - 1) as nat)) && !steady_due(model, grid, n)
    }
}

/// What is known of a run without chance after `k` steps: the model and the
/// state stand where the course of the run tells.
pub open spec fn on_course(
    start: &SimModel,
    grid: &Grid,
    k: nat,
    model: &SimModel,
    state: CutterState,
) -> bool {
    let course = steady_course(start, grid, k);
    let now = model.grid->0;
    &&& state.center == course.center
    &&& state.dir == course.dir
    &&& model.sim_steps == start.sim_steps + k
    &&& model.distance_covered == start.distance_covered + k * start.step_size
    &&& model.sim_time_elapsed == start.sim_time_elapsed + k * start.time_per_step()
    &&& model.segment_number == start.segment_number + course.bounces
    &&& model.battery_charge_count == start.battery_charge_count
    &&& state.coverage_percent == steady_coverage(start, grid, k)
    &&& forall|x: int, y: int|
        grid.in_bounds(x, y) ==> #[trigger] now.cell(x, y) == steady_cell(start, grid, k, x, y)
}

/// With the model on course, a step is due for the model exactly when one
/// is due for the run without chance.
pub proof fn lemma_due_on_course(
    start: &SimModel,
    grid: &Grid,
    k: nat,
    model: &SimModel,
    state: CutterState,
)
    requires
        model.same_config(start),
        on_course(start, grid, k, model, state),
    ensures
        model.keeps_running(state.coverage_percent) == steady_due(start, grid, k),
{
    let counted = steady_counters(start, grid, k);
    assert(counted.sim_steps == model.sim_steps);
    assert(counted.distance_covered == model.distance_covered);
    assert(counted.sim_time_elapsed == model.sim_time_elapsed);
    assert(counted.segment_number == model.segment_number);
    assert(steady_coverage(start, grid, k) as u32 == state.coverage_percent);
}

/// One successful step without chance takes a model that is on course
/// after `k` steps to one that is on course after `k + 1` steps.
pub proof fn lemma_step_on_course(
    start: &SimModel,
    grid: &Grid,
    k: nat,
    before: &SimModel,
    state: CutterState,
    after: &SimModel,
    next: CutterState,
    hit: bool,
)
    requires
        start.steady(),
        start.grid == Some(*grid),
        grid.shape(),
        before.same_config(start),
        after.same_config(start),
        before.ready(),
        after.ready(),
        on_course(start, grid, k, before, state),
        grid.only_grows(&before.grid->0),
        before.grid->0.cells_x == grid.cells_x,
        before.grid->0.cells_y == grid.cells_y,
        before.grid->0.cell_size == grid.cell_size,
        before.grid->0.quadtree == grid.quadtree,
        before.grid->0.use_quad_tree == grid.use_quad_tree,
        after.grid->0.cells_obstacles_count == grid.cells_obstacles_count,
        before.grid->0.marked_as(
            &after.grid->0,
            moved(state.center, state.dir, before.step_size as int),
            before.radius as int,
            before.blade_len as int,
            before.cutter_type,
            before.track_center,
            before.segment_number,
        ),
        after.sim_steps == before.sim_steps + 1,
        after.distance_covered == before.distance_covered + before.step_size,
        after.sim_time_elapsed == before.sim_time_elapsed + before.time_per_step(),
        after.battery_charge_count == before.battery_charge_count,
        after.segment_number == before.segment_number + (if hit {
            1int
        } else {
            0int
        }),
        ({
            let at = moved(state.center, state.dir, before.step_size as int);
            let edge = beyond_x(at, before.bb) || beyond_y(at, before.bb);
            let obstacle = !edge && !before.grid->0.index_rules_out(at, before.radius as int)
                && before.grid->0.scan_hits(at, before.radius as int);
            &&& hit == (edge || obstacle)
            &&& next.dir == deflected(before, at, state.dir, obstacle)
            &&& next.center == settled(before, at, state.dir, edge, obstacle)
        }),
        next.coverage_percent == coverage_percent_of(
            after.grid->0.covered_cells as int,
            after.grid->0.cells_x * after.grid->0.cells_y - after.grid->0.cells_obstacles_count,
        ),
    ensures
        on_course(start, grid, k + 1, after, next),
{
    let at = moved(state.center, state.dir, before.step_size as int);
    let now = before.grid->0;
    let then = after.grid->0;
    assert(at == steady_target(start, grid, k));
    lemma_same_obstacles_same_answer(grid, &now, at, start.radius as int);
    let course = steady_course(start, grid, k);
    let onward = steady_course(start, grid, k + 1);
    assert(onward == steady_next(start, grid, course));
    assert(deflected(before, at, state.dir, false) == deflected(start, at, state.dir, false));
    assert(deflected(before, at, state.dir, true) == deflected(start, at, state.dir, true));
    assert forall|e: bool, o: bool| settled(before, at, state.dir, e, o) == #[trigger] settled(
        start,
        at,
        state.dir,
        e,
        o,
    ) by {}
    assert forall|x: int, y: int| grid.in_bounds(x, y) implies #[trigger] then.cell(x, y)
        == steady_cell(start, grid, k + 1, x, y) by {
        assert(now.in_bounds(x, y));
        assert(now.cell(x, y) == steady_cell(start, grid, k, x, y));
        assert(now.footprint(
            at,
            start.radius as int,
            start.blade_len as int,
            start.cutter_type,
            x,
            y,
        ) == grid.footprint(
            at,
            start.radius as int,
            start.blade_len as int,
            start.cutter_type,
            x,
            y,
        ));
        assert(now.is_center_cell(at, x, y) == grid.is_center_cell(at, x, y));
    }
    assert(then.covered_set() =~= steady_covered(start, grid, k + 1)) by {
        assert forall|p: (int, int)| then.covered_set().contains(p) == steady_covered(
            start,
            grid,
            k + 1,
        ).contains(p) by {
            if grid.in_bounds(p.0, p.1) {
                assert(then.cell(p.0, p.1) == steady_cell(start, grid, k + 1, p.0, p.1));
            }
        }
    }
    assert((k + 1) * start.step_size == k * start.step_size + start.step_size)
        by (nonlinear_arith);
    assert((k + 1) * start.time_per_step() == k * start.time_per_step() + start.time_per_step())
        by (nonlinear_arith);
}

/// Runs the simulation: step after step until a stop condition is met, the
/// failsafe time limit is reached, or a counter has reached the end of its
/// range. Returns the state that the run ended in.
///
/// The run starts from `start_state`. Where no step is due at the start, that
/// state is returned and the model is left as it is, but for the radius drawn
/// for the wheel imbalance; where a step is due, at least one is taken. A
/// step was due before every step that was taken, and none is due after the
/// last, going by the coverage of the grid: the run does not go on beyond a
/// stop condition, see `no_overshoot`. Every step takes the step counter one further and the distance one
/// step length further, whether it succeeds or not, and the clock by the
/// duration of a step, or by that and a charge cycle.
///
/// The run fails only where a step would make the cutter cover an obstacle:
/// then the grid has an obstacle cell which a marking pass touches from a
/// position that a step can take the cutter to. On a grid without obstacles
/// the run succeeds.
///
/// With nothing left to chance (`steady`) the run is the one that
/// `steady_run` and `steady_course` tell step by step.
///
/// The run ends after at most `FAILSAFE_TIME_LIMIT / time_per_step` steps, for
/// every step takes the clock `time_per_step` further at least.
#[verifier::rlimit(100)]
pub fn simulation_loop(model: &mut SimModel, rng: &mut StdRng) -> (outcome: Result<
    CutterState,
    SimError,
>)
    requires
        old(model).ready(),
        (Vector { x: old(model).start_dir_x, y: old(model).start_dir_y }).is_direction(),
        old(model).grid->0.marks_from(old(model).segment_number as int),
    ensures
        final(model).same_config(old(model)),
        final(model).ready(),
        final(model).sim_steps >= old(model).sim_steps,
        old(model).keeps_running(0) ==> final(model).sim_steps > old(model).sim_steps,
        (final(model).sim_steps - old(model).sim_steps - 1) * old(model).time_per_step()
            < FAILSAFE_TIME_LIMIT,
        final(model).distance_covered == old(model).distance_covered + (final(model).sim_steps
            - old(model).sim_steps) * old(model).step_size,
        final(model).sim_time_elapsed <= old(model).sim_time_elapsed + (final(model).sim_steps
            - old(model).sim_steps) * (old(model).time_per_step() + RETURN_TIME_MAX + old(model).battery_charge_time),
        old(model).battery_run_time == 0 ==> final(model).battery_charge_count == old(model).battery_charge_count,
        old(model).grid->0.only_grows(&final(model).grid->0),
        final(model).grid->0.covered_cells >= old(model).grid->0.covered_cells,
        final(model).grid->0.cells_obstacles_count == old(model).grid->0.cells_obstacles_count,
        final(model).segment_number >= old(model).segment_number,
        final(model).segment_number <= old(model).segment_number + (final(model).sim_steps - old(model).sim_steps),
        outcome is Ok && final(model).sim_steps > old(model).sim_steps ==> exists|
            before: SimModel,
            coverage: u32,
        | #[trigger] last_step_due(old(model), final(model), before, coverage, false),
        outcome is Err ==> exists|before: SimModel, coverage: u32| #[trigger]
            last_step_due(old(model), final(model), before, coverage, true),
        final(model).sim_steps > old(model).sim_steps ==> no_overshoot(old(model), final(model)),
        outcome is Err ==> {
            &&& outcome == Err::<CutterState, SimError>(SimError::ObstacleInFootprint)
            &&& old(model).keeps_running(0)
            &&& old(model).grid->0.cells_obstacles_count > 0
            &&& exists|at: Vector|
                within_a_step(old(model), at) && #[trigger] blocked_at(
                    old(model),
                    &old(model).grid->0,
                    at,
                )
        },
        !old(model).keeps_running(0) ==> {
            &&& outcome is Ok
            &&& final(model).sim_steps == old(model).sim_steps
            &&& final(model).sim_time_elapsed == old(model).sim_time_elapsed
            &&& final(model).segment_number == old(model).segment_number
            &&& final(model).battery_charge_count == old(model).battery_charge_count
            &&& final(model).grid == old(model).grid
            &&& outcome->Ok_0.center == steady_start(old(model)).center
            &&& outcome->Ok_0.dir == steady_start(old(model)).dir
            &&& outcome->Ok_0.slippage == SlippageModel::new_spec()
            &&& outcome->Ok_0.time_since_last_charge == 0
            &&& outcome->Ok_0.coverage_percent == 0
        },
        outcome matches Ok(state) ==> {
            &&& final(model).sim_time_elapsed >= old(model).sim_time_elapsed + (final(model).sim_steps - old(model).sim_steps) * old(model).time_per_step()
            &&& old(model).battery_run_time == 0 ==> final(model).sim_time_elapsed == old(model).sim_time_elapsed + (final(model).sim_steps - old(model).sim_steps) * old(model).time_per_step()
            &&& final(model).state_ok(state)
            &&& !final(model).keeps_running(state.coverage_percent)
            &&& !final(model).keeps_running(
                coverage_percent_of(
                    final(model).grid->0.covered_cells as int,
                    final(model).grid->0.cells_x * final(model).grid->0.cells_y - final(model).grid->0.cells_obstacles_count,
                ) as u32,
            )
            &&& final(model).sim_steps > old(model).sim_steps ==> state.coverage_percent
                == coverage_percent_of(
                final(model).grid->0.covered_cells as int,
                final(model).grid->0.cells_x * final(model).grid->0.cells_y - final(model).grid->0.cells_obstacles_count,
            )
        },
        old(model).steady() ==> {
            &&& steady_run(
                old(model),
                &old(model).grid->0,
                (final(model).sim_steps - old(model).sim_steps) as nat,
                outcome is Err,
            )
            &&& outcome matches Ok(state) ==> on_course(
                old(model),
                &old(model).grid->0,
                (final(model).sim_steps - old(model).sim_steps) as nat,
                final(model),
                state,
            )
        },
{
    let mut state = start_state(model, rng);
    let ghost start_steps = model.sim_steps;
    let ghost start_time = model.sim_time_elapsed;
    let ghost started = *model;
    let ghost first = state;
    let ghost origin = old(model).grid->0;
    let ghost last = (*model, 0u32);
    proof {
        let t = old(model).time_per_step();
        assert((start_steps - start_steps - 1) * t < FAILSAFE_TIME_LIMIT) by (nonlinear_arith)
            requires
                t >= 1,
        ;
        assert(model.keeps_running(0) == old(model).keeps_running(0));
        let l = old(model).step_size as int;
        let w = t + RETURN_TIME_MAX + old(model).battery_charge_time;
        let done = model.sim_steps - start_steps;
        assert(done * l == 0 && done * t == 0 && done * w == 0) by (nonlinear_arith)
            requires
                done == 0,
        ;
        assert(steady_covered(old(model), &origin, 0) =~= origin.covered_set());
    }
    while model.should_continue(state.coverage_percent)
        invariant
            old(model).ready(),
            origin == old(model).grid->0,
            model.same_config(old(model)),
            model.ready(),
            model.state_ok(state),
            model.sim_steps >= start_steps,
            model.sim_time_elapsed >= start_time + (model.sim_steps - start_steps) * old(model).time_per_step(),
            model.sim_time_elapsed <= start_time + (model.sim_steps - start_steps) * (old(model).time_per_step() + RETURN_TIME_MAX + old(model).battery_charge_time),
            old(model).battery_run_time == 0 ==> model.sim_time_elapsed == start_time + (
            model.sim_steps - start_steps) * old(model).time_per_step()
                && model.battery_charge_count == old(model).battery_charge_count,
            model.distance_covered == old(model).distance_covered + (model.sim_steps - start_steps)
                * old(model).step_size,
            model.grid->0.covered_cells >= old(model).grid->0.covered_cells,
            model.grid->0.cells_obstacles_count == old(model).grid->0.cells_obstacles_count,
            old(model).grid->0.only_grows(&model.grid->0),
            (model.sim_steps - start_steps - 1) * old(model).time_per_step() < FAILSAFE_TIME_LIMIT,
            model.segment_number >= old(model).segment_number,
            model.segment_number <= old(model).segment_number + (model.sim_steps - start_steps),
            start_steps == old(model).sim_steps,
            start_time == old(model).sim_time_elapsed,
            model.sim_steps == start_steps ==> *model == started && state == first,
            model.sim_steps > start_steps ==> old(model).keeps_running(0),
            model.sim_steps > start_steps ==> state.coverage_percent == coverage_percent_of(
                model.grid->0.covered_cells as int,
                model.grid->0.cells_x * model.grid->0.cells_y - model.grid->0.cells_obstacles_count,
            ),
            model.sim_steps > start_steps ==> last_step_due(
                old(model),
                model,
                last.0,
                last.1,
                false,
            ),
            started.keeps_running(0) == old(model).keeps_running(0),
            started.sim_time_elapsed == old(model).sim_time_elapsed,
            started.segment_number == old(model).segment_number,
            model.grid->0.quadtree == origin.quadtree,
            model.grid->0.use_quad_tree == origin.use_quad_tree,
            started.grid == old(model).grid,
            started.battery_charge_count == old(model).battery_charge_count,
            first.center == steady_start(old(model)).center,
            first.dir == steady_start(old(model)).dir,
            first.slippage == SlippageModel::new_spec(),
            first.time_since_last_charge == 0,
            first.coverage_percent == 0,
            old(model).steady() ==> on_course(
                old(model),
                &origin,
                (model.sim_steps - start_steps) as nat,
                model,
                state,
            ),
            old(model).steady() ==> forall|k: nat|
                k < model.sim_steps - start_steps ==> #[trigger] steady_due(old(model), &origin, k),
            old(model).steady() ==> forall|k: nat|
                k < model.sim_steps - start_steps ==> !#[trigger] steady_blocked(
                    old(model),
                    &origin,
                    k,
                ),
        decreases
                (if model.sim_time_elapsed < FAILSAFE_TIME_LIMIT {
                    FAILSAFE_TIME_LIMIT - model.sim_time_elapsed
                } else {
                    0
                }),
    {
        let ghost before_steps = model.sim_steps;
        let ghost before_time = model.sim_time_elapsed;
        let ghost before_grid = model.grid->0;
        let ghost before = *model;
        let ghost before_state = state;
        let ghost at = moved(state.center, state.dir, model.step_size as int);
        let ghost k = (model.sim_steps - start_steps) as nat;
        proof {
            let t = old(model).time_per_step();
            let l = old(model).step_size as int;
            let w = t + RETURN_TIME_MAX + old(model).battery_charge_time;
            assert((before_steps + 1 - start_steps) * t == (before_steps - start_steps) * t + t)
                by (nonlinear_arith);
            assert((before_steps + 1 - start_steps - 1) * t == (before_steps - start_steps) * t)
                by (nonlinear_arith);
            assert((before_steps + 1 - start_steps) * l == (before_steps - start_steps) * l + l)
                by (nonlinear_arith);
            assert((before_steps + 1 - start_steps) * w == (before_steps - start_steps) * w + w)
                by (nonlinear_arith);
            lemma_travel_bound(state.dir.x as int, model.step_size as int);
            lemma_travel_bound(state.dir.y as int, model.step_size as int);
            let g = model.grid->0;
            assert(g.cell_size <= g.cells_x * g.cell_size && g.cell_size <= g.cells_y * g.cell_size)
                by (nonlinear_arith)
                requires
                    g.cells_x * g.cell_size >= 2,
                    g.cells_y * g.cell_size >= 2,
                    g.cell_size > 0,
                    g.cells_x >= 0,
                    g.cells_y >= 0,
            ;
            assert(at.x == state.center.x + travel(state.dir.x as int, model.step_size as int));
            assert(at.y == state.center.y + travel(state.dir.y as int, model.step_size as int));
            assert(within_a_step(old(model), at));
            origin.lemma_same_obstacles_same_clearance(
                &before_grid,
                at,
                model.radius as int,
                model.blade_len as int,
                model.cutter_type,
                model.track_center,
            );
            if old(model).steady() {
                lemma_due_on_course(old(model), &origin, k, model, state);
                assert(at == steady_target(old(model), &origin, k));
            }
        }
        match simulation_step(model, &mut state, rng) {
            Ok(hit) => {
                proof {
                    if old(model).steady() {
                        lemma_step_on_course(
                            old(model),
                            &origin,
                            k,
                            &before,
                            before_state,
                            model,
                            state,
                            hit,
                        );
                    }
                }
            },
            Err(error) => {
                proof {
                    let end = model.grid->0;
                    assert forall|x: int, y: int| origin.in_bounds(x, y) implies {
                        &&& (origin.cell(x, y) is Obstacle) == (#[trigger] end.cell(x, y) is Obstacle)
                        &&& origin.cell(x, y).is_marked() ==> end.cell(x, y).is_marked()
                        &&& origin.cell(x, y).visits() <= end.cell(x, y).visits()
                    } by {
                        assert(before_grid.in_bounds(x, y));
                        assert(end.cell(x, y) == before_grid.cell(x, y));
                    }
                    end.lemma_same_cells(&before_grid);
                    origin.lemma_blocked_has_obstacle(
                        at,
                        model.radius as int,
                        model.blade_len as int,
                        model.cutter_type,
                        model.track_center,
                    );
                    assert(blocked_at(old(model), &origin, at));
                    assert(last_step_due(
                        old(model),
                        model,
                        before,
                        before_state.coverage_percent,
                        true,
                    ));
                    lemma_no_overshoot(
                        old(model),
                        model,
                        before,
                        before_state.coverage_percent,
                        true,
                    );
                    if old(model).steady() {
                        assert(steady_blocked(old(model), &origin, k));
                    }
                }
                return Err(error);
            },
        }
        proof {
            crate::laws::law_growth_is_transitive(&old(model).grid->0, &before_grid, &model.grid->0);
            last = (before, before_state.coverage_percent);
            assert(last_step_due(old(model), model, before, before_state.coverage_percent, false));
            if old(model).steady() {
                assert(!steady_blocked(old(model), &origin, k));
            }
        }
    }
    proof {
        if old(model).steady() {
            lemma_due_on_course(
                old(model),
                &origin,
                (model.sim_steps - start_steps) as nat,
                model,
                state,
            );
        }
        if model.sim_steps > start_steps {
            assert(last_step_due(old(model), model, last.0, last.1, false));
            lemma_no_overshoot(old(model), model, last.0, last.1, false);
        }
    }
    Ok(state)
}

/// A step was due before the last step of a run: `before` is a model of the
/// run that kept running on the coverage it went by, and the last step took
/// it to `end`. The coverage was that of the grid, or 0 before the first step
/// of the run, where `before` had the counters of the start. Where the last
/// step failed, it left the clock and the segment as they were.
pub open spec fn last_step_due(
    start: &SimModel,
    end: &SimModel,
    before: SimModel,
    coverage: u32,
    failed: bool,
) -> bool {
    &&& before.same_config(start)
    &&& before.keeps_running(coverage)
    &&& before.sim_steps + 1 == end.sim_steps
    &&& before.sim_steps >= start.sim_steps
    &&& before.distance_covered + start.step_size == end.distance_covered
    &&& before.segment_number <= end.segment_number <= before.segment_number + 1
    &&& before.segment_number >= start.segment_number
    &&& before.grid is Some
    &&& before.grid->0.only_grows(&end.grid->0)
    &&& if before.sim_steps == start.sim_steps {
        &&& coverage == 0
        &&& before.sim_time_elapsed == start.sim_time_elapsed
        &&& before.segment_number == start.segment_number
        &&& before.battery_charge_count == start.battery_charge_count
        &&& before.grid == start.grid
    } else {
        coverage == coverage_percent_of(
            before.grid->0.covered_cells as int,
            before.grid->0.cells_x * before.grid->0.cells_y - before.grid->0.cells_obstacles_count,
        )
    }
    &&& if failed {
        &&& end.sim_time_elapsed == before.sim_time_elapsed
        &&& end.segment_number == before.segment_number
        &&& end.grid == before.grid
    } else {
        &&& before.sim_time_elapsed + start.time_per_step() <= end.sim_time_elapsed
        &&& end.sim_time_elapsed <= before.sim_time_elapsed + start.time_per_step() + RETURN_TIME_MAX
            + start.battery_charge_time
    }
}

/// A run does not go on beyond a stop condition: a limit on the steps or on
/// the bounces is not passed, and a limit on the distance or on the time is
/// passed by less than what one step adds. The same holds of the failsafe
/// time limit.
pub open spec fn no_overshoot(start: &SimModel, end: &SimModel) -> bool {
    let longest = start.time_per_step() + RETURN_TIME_MAX + start.battery_charge_time;
    &&& start.stop_simsteps > 0 ==> end.sim_steps <= start.stop_simsteps
    &&& start.stop_bounces > 0 ==> end.segment_number <= start.stop_bounces
    &&& start.stop_distance > 0 ==> end.distance_covered < start.stop_distance + start.step_size
    &&& start.stop_time > 0 ==> end.sim_time_elapsed < start.stop_time + longest
    &&& end.sim_time_elapsed < FAILSAFE_TIME_LIMIT + longest
}

/// Where a step was due before the last step, the run has not gone on beyond
/// a stop condition.
pub proof fn lemma_no_overshoot(
    start: &SimModel,
    end: &SimModel,
    before: SimModel,
    coverage: u32,
    failed: bool,
)
    requires
        start.config_ok(),
        last_step_due(start, end, before, coverage, failed),
    ensures
        no_overshoot(start, end),
{
}

/// Why a simulation could not be run to its end.
#[derive(Debug, Clone, Copy, PartialEq, Eq, Structural)]
pub enum RunError {
    /// The configuration cannot be run.
    Config(ConfigError),
    /// The start position was left open and no free one was found.
    NoStartPosition,
    /// The run could not go on.
    Sim(SimError),
}

/// How a simulation ended.
#[derive(Debug)]
pub struct RunReport {
    /// The model with the results of the run.
    pub model: SimModel,
    /// The state that the run ended in.
    pub state: CutterState,
    /// Shapes of the map that had too few points and were passed over.
    pub skipped_shapes: usize,
}

/// The model is ready for a run from its very beginning: it can be run, it
/// heads in a direction, and no cell of its grid is covered.
pub open spec fn prepared(model: &SimModel) -> bool {
    &&& model.ready()
    &&& (Vector { x: model.start_dir_x, y: model.start_dir_y }).is_direction()
    &&& model.grid->0.marks_from(model.segment_number as int)
}

/// What preparing has made of a given model and map: the configuration had
/// no fault and was completed, the counters are the given ones, the start
/// position is settled, and the grid holds the obstacles of the map, with its
/// index, and nothing else.
pub open spec fn prepared_as(given: &SimModel, map: Option<MapFile>, made: &SimModel, skipped: usize) -> bool {
    &&& config_fault(&with_map_extents(*given, map)) is None
    &&& prepared(made)
    &&& made.map_file == map
    &&& made.cell_size == cell_size_to_use(&with_map_extents(*given, map))
    &&& made.step_size == step_size_to_use(&with_map_extents(*given, map))
    &&& made.radius == given.radius
    &&& made.sim_steps == given.sim_steps
    &&& made.sim_time_elapsed == given.sim_time_elapsed
    &&& made.segment_number == given.segment_number
    &&& made.distance_covered == given.distance_covered
    &&& start_settled(given, made)
    &&& match map {
        Some(m) => {
            &&& skipped == crate::mapfile::degenerate_count(m.obstacles@, m.obstacles@.len())
            &&& made.num_obstacles == m.obstacles@.len() as usize
            &&& forall|i: int, j: int|
                made.grid->0.in_bounds(i, j) ==> #[trigger] made.grid->0.cell(i, j) == (
                if crate::mapfile::obstacles_mark(
                    m.obstacles@,
                    made.cell_size as int,
                    m.obstacles@.len() as int,
                    i,
                    j,
                ) {
                    Cell::Obstacle
                } else {
                    Cell::Empty
                })
            &&& match made.grid->0.quadtree {
                Some(tree) => tree.indexes(&made.grid->0, made.radius as int),
                None => false,
            }
        },
        None => {
            &&& skipped == 0
            &&& made.grid->0.cells_obstacles_count == 0
            &&& made.grid->0.quadtree is None
            &&& forall|i: int, j: int|
                made.grid->0.in_bounds(i, j) ==> #[trigger] made.grid->0.cell(i, j)
                    == Cell::Empty
        },
    }
}

/// Prepares a simulation: the configuration, with the extents the map
/// prescribes, is examined and completed, the grid is made, the obstacles of
/// the map are marked and indexed, and a start position is drawn where it was
/// left open. Returns the model and the number of shapes of the map that had
/// too few points and were passed over.
#[verifier::rlimit(40)]
pub fn prepare_simulation(model: SimModel, map: Option<MapFile>, rng: &mut StdRng) -> (outcome:
    Result<(SimModel, usize), RunError>)
    ensures
        config_fault(&with_map_extents(model, map)) matches Some(error) ==> outcome == Err::<
            (SimModel, usize),
            RunError,
        >(RunError::Config(error)),
        outcome matches Err(RunError::Config(error)) ==> config_fault(
            &with_map_extents(model, map),
        ) == Some(error),
        !(outcome matches Err(RunError::Sim(_))),
        outcome matches Err(RunError::NoStartPosition) ==> config_fault(
            &with_map_extents(model, map),
        ) is None && (model.start_x < 0 || model.start_y < 0),
        config_fault(&with_map_extents(model, map)) is None && model.start_x >= 0 && model.start_y
            >= 0 ==> outcome is Ok,
        outcome matches Ok(made) ==> prepared_as(&model, map, &made.0, made.1),
{
    let mut model = model;
    let ghost given = model;
    if let Some(m) = &map {
        if let Some(grid_config) = &m.grid {
            if let Some(w) = grid_config.width {
                model.grid_width = w;
            }
            if let Some(h) = grid_config.height {
                model.grid_height = h;
            }
        }
    }
    assert(model == with_map_extents(model, map));
    let mut model = match init_model(model, rng) {
        Ok(model) => model,
        Err(error) => {
            return Err(RunError::Config(error));
        },
    };
    model.map_file = map;
    model.create_grid();
    let ghost empty = model.grid->0;
    let skipped_shapes = try_apply_mapfile_to_model(&mut model);
    proof {
        let g = model.grid->0;
        assert forall|x: int, y: int| g.in_bounds(x, y) implies !(#[trigger] g.cell(x, y)).is_marked() by {
            assert(empty.cell(x, y) == crate::model::grid::Cell::Empty);
        }
    }
    let ghost marked = model.grid->0;
    if !set_optional_random_start_position(rng, &mut model) {
        return Err(RunError::NoStartPosition);
    }
    proof {
        let g = model.grid->0;
        g.lemma_same_cells(&marked);
        assert forall|x: int, y: int| g.in_bounds(x, y) implies !(#[trigger] g.cell(x, y)).is_marked() && g.cell(
            x,
            y,
        ) == marked.cell(x, y) by {
            assert(marked.cell(x, y) == g.cell(x, y));
        }
        crate::model::lemma_same_scan(
            &marked,
            &g,
            Vector { x: model.start_x, y: model.start_y },
            model.radius as int,
        );
        if map is Some {
            let tree = g.quadtree->0;
            crate::model::quadtree::lemma_describes_same_cells(
                &tree.root,
                &marked,
                &g,
                crate::geometry::cells_spanned(model.radius as int, g.cell_size as int),
            );
        } else {
            assert forall|x: int, y: int| g.in_bounds(x, y) implies #[trigger] g.cell(x, y)
                == Cell::Empty by {
                assert(empty.cell(x, y) == Cell::Empty);
            }
            assert(g.obstacle_set() =~= Set::<(int, int)>::empty());
        }
    }
    Ok((model, skipped_shapes))
}

/// The start position of the prepared model is the one given or, where that
/// was left open by a negative coordinate, one in the bounding box at which
/// the collision check finds nothing.
pub open spec fn start_settled(given: &SimModel, made: &SimModel) -> bool {
    if given.start_x >= 0 && given.start_y >= 0 {
        made.start_x == given.start_x && made.start_y == given.start_y
    } else {
        &&& made.radius <= made.start_x < made.grid_width - made.radius
        &&& made.radius <= made.start_y < made.grid_height - made.radius
        &&& !crate::model::collides_at(&made.grid->0, made.start_x, made.start_y, made.radius)
    }
}

/// What a run that came to its end has made of the model `start`: the
/// counters went on by the steps made, the grid grew, the last step was due,
/// the state is one of the model, and no further step is due. With nothing
/// left to chance the model and the state stand where the course tells.
pub open spec fn ran(start: &SimModel, end: &SimModel, state: CutterState) -> bool {
    let steps = end.sim_steps - start.sim_steps;
    &&& end.same_config(start)
    &&& end.ready()
    &&& steps >= 0
    &&& start.keeps_running(0) ==> steps > 0
    &&& (steps - 1) * start.time_per_step() < FAILSAFE_TIME_LIMIT
    &&& end.distance_covered == start.distance_covered + steps * start.step_size
    &&& start.sim_time_elapsed + steps * start.time_per_step() <= end.sim_time_elapsed
    &&& end.sim_time_elapsed <= start.sim_time_elapsed + steps * (start.time_per_step()
        + RETURN_TIME_MAX + start.battery_charge_time)
    &&& start.battery_run_time == 0 ==> {
        &&& end.battery_charge_count == start.battery_charge_count
        &&& end.sim_time_elapsed == start.sim_time_elapsed + steps * start.time_per_step()
    }
    &&& start.grid->0.only_grows(&end.grid->0)
    &&& end.grid->0.cells_obstacles_count == start.grid->0.cells_obstacles_count
    &&& start.segment_number <= end.segment_number <= start.segment_number + steps
    &&& if steps > 0 {
        &&& exists|before: SimModel, coverage: u32| #[trigger]
            last_step_due(start, end, before, coverage, false)
        &&& no_overshoot(start, end)
        &&& state.coverage_percent == coverage_percent_of(
            end.grid->0.covered_cells as int,
            end.grid->0.cells_x * end.grid->0.cells_y - end.grid->0.cells_obstacles_count,
        )
    } else {
        &&& end.segment_number == start.segment_number
        &&& end.battery_charge_count == start.battery_charge_count
        &&& end.grid == start.grid
        &&& state.center == steady_start(start).center
        &&& state.dir == steady_start(start).dir
        &&& state.slippage == SlippageModel::new_spec()
        &&& state.time_since_last_charge == 0
        &&& state.coverage_percent == 0
    }
    &&& end.state_ok(state)
    &&& !end.keeps_running(state.coverage_percent)
    &&& !end.keeps_running(
        coverage_percent_of(
            end.grid->0.covered_cells as int,
            end.grid->0.cells_x * end.grid->0.cells_y - end.grid->0.cells_obstacles_count,
        ) as u32,
    )
    &&& start.steady() ==> {
        &&& steady_run(start, &start.grid->0, steps as nat, false)
        &&& on_course(start, &start.grid->0, steps as nat, end, state)
    }
}

/// A run from `start` can be stopped by an obstacle: a step is due, and
/// within a step of the start the cutter would cover an obstacle cell.
pub open spec fn can_be_blocked(start: &SimModel) -> bool {
    &&& start.keeps_running(0)
    &&& start.grid->0.cells_obstacles_count > 0
    &&& exists|at: Vector| within_a_step(start, at) && #[trigger] blocked_at(start, &start.grid->0, at)
}

/// A whole simulation: it is prepared, see `prepare_simulation`, the run is
/// made, see `simulation_loop`, and the results are read off the grid.
///
/// A faulty configuration is reported as such and nothing is run. Without a
/// map and with a start position given, the simulation succeeds. A run fails
/// only where a map gave the grid obstacles. The report holds the model that
/// the run has made of the prepared one, with the results read off its grid.
pub fn run_simulation(model: SimModel, map: Option<MapFile>, rng: &mut StdRng) -> (outcome: Result<
    RunReport,
    RunError,
>)
    ensures
        config_fault(&with_map_extents(model, map)) matches Some(error) ==> outcome == Err::<
            RunReport,
            RunError,
        >(RunError::Config(error)),
        outcome matches Err(RunError::Config(error)) ==> config_fault(
            &with_map_extents(model, map),
        ) == Some(error),
        outcome matches Err(RunError::NoStartPosition) ==> config_fault(
            &with_map_extents(model, map),
        ) is None && (model.start_x < 0 || model.start_y < 0),
        outcome matches Err(RunError::Sim(error)) ==> {
            &&& map is Some
            &&& error == SimError::ObstacleInFootprint
            &&& exists|made: SimModel, skipped: usize| #[trigger]
                prepared_as(&model, map, &made, skipped) && can_be_blocked(&made)
        },
        config_fault(&with_map_extents(model, map)) is None && model.start_x >= 0 && model.start_y
            >= 0 && map is None ==> outcome is Ok,
        outcome matches Ok(report) ==> {
            &&& exists|made: SimModel| #[trigger]
                prepared_as(&model, map, &made, report.skipped_shapes) && ran(
                    &made,
                    &report.model,
                    report.state,
                )
            &&& report.model.coverage_count == report.model.grid->0.covered_cells
            &&& report.model.coverage_percent == coverage_percent_of(
                report.model.grid->0.covered_cells as int,
                report.model.grid->0.cells_x * report.model.grid->0.cells_y
                    - report.model.grid->0.cells_obstacles_count,
            )
            &&& report.model.grid_cells_obstacles_count == report.model.grid->0.cells_obstacles_count
            &&& report.model.grid->0.is_max_visited(report.model.max_visited_number as int)
            &&& report.model.grid->0.is_min_visited(report.model.min_visited_number as int)
        },
{
    let (mut run, skipped_shapes) = match prepare_simulation(model, map, rng) {
        Ok(made) => made,
        Err(error) => {
            return Err(error);
        },
    };
    let ghost made = run;
    let state = match simulation_loop(&mut run, rng) {
        Ok(state) => state,
        Err(error) => {
            assert(prepared_as(&model, map, &made, skipped_shapes) && can_be_blocked(&made));
            return Err(RunError::Sim(error));
        },
    };
    let ghost ended = run;
    run.collect_results();
    proof {
        if ended.sim_steps > made.sim_steps {
            let (before, coverage): (SimModel, u32) = choose|before: SimModel, coverage: u32| #[trigger]
                last_step_due(&made, &ended, before, coverage, false);
            assert(last_step_due(&made, &run, before, coverage, false));
        }
        assert(ran(&made, &run, state));
    }
    let report = RunReport { model: run, state, skipped_shapes };
    assert(prepared_as(&model, map, &made, report.skipped_shapes) && ran(
        &made,
        &report.model,
        report.state,
    ));
    Ok(report)
}

} // verus!
