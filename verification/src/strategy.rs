use crate::geometry::cells_spanned;
use crate::geometry::cells_spanned_by;
use crate::model::MILLION;
use crate::model::SimModel;
use crate::random::random_in_range;
use crate::vector::DIR_SCALE;
use crate::vector::Vector;
use crate::vector::normalize;
use crate::vector::unit_vector;
use rand::rngs::StdRng;
use vstd::prelude::*;

verus! {

/// How many candidate directions are drawn at most before the direction is
/// left as it is.
pub const MAX_DRAWS: u32 = 64;

/// The candidate is not the zero vector and lies in the unit disc. Candidates
/// drawn evenly from the square around the disc and kept only inside it point
/// in every direction alike.
pub open spec fn in_disc(c: Vector) -> bool {
    0 < c.x * c.x + c.y * c.y <= DIR_SCALE * DIR_SCALE
}

/// The angle between `dir` and `c` is at most 60 degrees: the cosine of the
/// angle, their dot product over the product of their lengths, is at least
/// one half. Compared by squares.
pub open spec fn within_sixty_degrees(dir: Vector, c: Vector) -> bool {
    let dot = dir.x * c.x + dir.y * c.y;
    dot >= 0 && 4 * (dot * dot) >= (dir.x * dir.x + dir.y * dir.y) * (c.x * c.x + c.y * c.y)
}

/// The direction that a candidate stands for after a bounce in direction
/// `current_dir`, if it is acceptable: the candidate scaled to unit length,
/// where it lies in the unit disc and within 60 degrees of `current_dir`.
pub open spec fn bounce_choice(current_dir: Vector, candidate: Vector) -> Option<Vector> {
    if in_disc(candidate) && within_sixty_degrees(current_dir, candidate) {
        Some(unit_vector(candidate.x as int, candidate.y as int))
    } else {
        None
    }
}

/// The direction that a candidate stands for when any direction will do: the
/// candidate scaled to unit length, where it lies in the unit disc.
pub open spec fn free_choice(candidate: Vector) -> Option<Vector> {
    if in_disc(candidate) {
        Some(unit_vector(candidate.x as int, candidate.y as int))
    } else {
        None
    }
}

/// Whether a candidate lies in the unit disc.
pub fn is_in_disc(candidate: Vector) -> (inside: bool)
    requires
        candidate.in_unit_square(),
    ensures
        inside == in_disc(candidate),
{
    let x: i64 = candidate.x as i64;
    let y: i64 = candidate.y as i64;
    let scale: i64 = DIR_SCALE as i64;
    assert(0 <= x * x <= 0x4000_0000 * 0x4000_0000 && 0 <= y * y <= 0x4000_0000 * 0x4000_0000)
        by (nonlinear_arith)
        requires
            -0x4000_0000 <= x <= 0x4000_0000,
            -0x4000_0000 <= y <= 0x4000_0000,
    ;
    let norm: i64 = x * x + y * y;
    0 < norm && norm <= scale * scale
}

/// Decides on a candidate after a bounce, see `bounce_choice`.
pub fn choose_bounce(current_dir: Vector, candidate: Vector) -> (choice: Option<Vector>)
    requires
        current_dir.is_direction(),
        candidate.in_unit_square(),
    ensures
        choice == bounce_choice(current_dir, candidate),
        choice matches Some(v) ==> v.is_direction(),
{
    if !is_in_disc(candidate) {
        return None;
    }
    let dx: i128 = current_dir.x as i128;
    let dy: i128 = current_dir.y as i128;
    let cx: i128 = candidate.x as i128;
    let cy: i128 = candidate.y as i128;
    assert(-0x4000_0000 * 0x4000_0000 <= dx * cx <= 0x4000_0000 * 0x4000_0000 && -0x4000_0000
        * 0x4000_0000 <= dy * cy <= 0x4000_0000 * 0x4000_0000 && 0 <= dx * dx <= 0x4000_0000
        * 0x4000_0000 && 0 <= dy * dy <= 0x4000_0000 * 0x4000_0000 && 0 <= cx * cx <= 0x4000_0000
        * 0x4000_0000 && 0 <= cy * cy <= 0x4000_0000 * 0x4000_0000) by (nonlinear_arith)
        requires
            -0x4000_0000 <= dx <= 0x4000_0000,
            -0x4000_0000 <= dy <= 0x4000_0000,
            -0x4000_0000 <= cx <= 0x4000_0000,
            -0x4000_0000 <= cy <= 0x4000_0000,
    ;
    let dot: i128 = dx * cx + dy * cy;
    if dot < 0 {
        return None;
    }
    let dir_sq: i128 = dx * dx + dy * dy;
    let cand_sq: i128 = cx * cx + cy * cy;
    assert(0 <= dot * dot <= 0x2000_0000_0000_0000 * 0x2000_0000_0000_0000 && 0 <= dir_sq * cand_sq
        <= 0x2000_0000_0000_0000 * 0x2000_0000_0000_0000) by (nonlinear_arith)
        requires
            0 <= dot <= 0x2000_0000_0000_0000,
            0 <= dir_sq <= 0x2000_0000_0000_0000,
            0 <= cand_sq <= 0x2000_0000_0000_0000,
    ;
    if 4 * (dot * dot) >= dir_sq * cand_sq {
        Some(normalize(candidate.x as i64, candidate.y as i64))
    } else {
        None
    }
}

/// Decides on a candidate when any direction will do, see `free_choice`.
pub fn choose_freely(candidate: Vector) -> (choice: Option<Vector>)
    requires
        candidate.in_unit_square(),
    ensures
        choice == free_choice(candidate),
        choice matches Some(v) ==> v.is_direction(),
{
    if is_in_disc(candidate) {
        Some(normalize(candidate.x as i64, candidate.y as i64))
    } else {
        None
    }
}

/// Draws a candidate direction: both components uniformly from
/// `[-DIR_SCALE, DIR_SCALE]`.
pub fn draw_candidate(rng: &mut StdRng) -> (candidate: Vector)
    ensures
        candidate.in_unit_square(),
{
    let x = random_in_range(rng, -(DIR_SCALE as i64), DIR_SCALE as i64);
    let y = random_in_range(rng, -(DIR_SCALE as i64), DIR_SCALE as i64);
    Vector { x: x as i32, y: y as i32 }
}

/// What to do after a collision. `current_dir` is the direction of the
/// perfect bounce. Where perturbation is switched on, the cutter leaves in a
/// random direction within 60 degrees of it: candidates are drawn until one
/// is acceptable, at most `MAX_DRAWS` times, after which the perfect bounce
/// stands. Where it is switched off, the perfect bounce stands.
#[verifier::loop_isolation(false)]
pub fn collision_strategy(
    model: &SimModel,
    current_dir: &Vector,
    _current_circle: &Vector,
    rng: &mut StdRng,
) -> (dir: Vector)
    requires
        current_dir.is_direction(),
    ensures
        dir.is_direction(),
        !model.perturb ==> dir == *current_dir,
        dir == *current_dir || exists|c: Vector|
            c.in_unit_square() && #[trigger] bounce_choice(*current_dir, c) == Some(dir),
{
    if !model.perturb {
        return *current_dir;
    }
    let mut draws: u32 = 0;
    while draws < MAX_DRAWS
        invariant
            draws <= MAX_DRAWS,
            current_dir.is_direction(),
        decreases MAX_DRAWS - draws,
    {
        let candidate = draw_candidate(rng);
        if let Some(dir) = choose_bounce(*current_dir, candidate) {
            assert(bounce_choice(*current_dir, candidate) == Some(dir));
            return dir;
        }
        draws += 1;
    }
    *current_dir
}

/// Steps between two chances of a segment perturbation: the steps it takes to
/// cross one cell.
pub open spec fn steps_per_cell(model: &SimModel) -> int {
    cells_spanned(model.cell_size as int, model.step_size as int)
}

/// A segment perturbation may happen at this step.
pub open spec fn perturbation_due(model: &SimModel) -> bool {
    model.perturb_segment && model.sim_steps as int % steps_per_cell(model) == 0
}

/// A lot drawn evenly from `0` up to `MILLION - 1` falls under a chance given
/// in parts per million: it does so for `chance` of the million lots, for none
/// where the chance is 0, and for all where it is a million or more.
pub open spec fn lot_wins(lot: int, chance: int) -> bool {
    lot < chance
}

/// Whether a lot falls under a chance, see `lot_wins`.
pub fn is_lot_won(lot: i64, chance: u32) -> (won: bool)
    ensures
        won == lot_wins(lot as int, chance as int),
{
    lot < chance as i64
}

/// The direction `dir` is one that the cutter may go on in from `current_dir`
/// where a segment perturbation is due and the lot fell on `lot`: where the
/// lot falls under the configured chance, a random direction or, where none
/// was found, the current direction; else the current direction.
pub open spec fn perturbed_by(lot: int, model: &SimModel, current_dir: Vector, dir: Vector) -> bool {
    if lot_wins(lot, model.perturb_segment_percent as int) {
        dir == current_dir || exists|c: Vector|
            c.in_unit_square() && #[trigger] free_choice(c) == Some(dir)
    } else {
        dir == current_dir
    }
}

/// Called once per simulation step with the current direction, the cutter's
/// position and whether a collision was detected in this step. Returns the
/// direction for the next step.
///
/// After a collision the bounce strategy decides. Otherwise the direction
/// stays, except that, with segment perturbation switched on, once per cell
/// travelled and with the configured probability the cutter turns to a random
/// direction (drawn as in `collision_strategy`, any direction being acceptable).
#[verifier::loop_isolation(false)]
pub fn cutter_strategy(
    current_dir: &Vector,
    cutter_center_pos: &Vector,
    collision_detected: bool,
    model: &SimModel,
    rng: &mut StdRng,
) -> (dir: Vector)
    requires
        current_dir.is_direction(),
        model.step_size >= 1,
        model.cell_size >= 1,
    ensures
        dir.is_direction(),
        collision_detected && !model.perturb ==> dir == *current_dir,
        collision_detected ==> dir == *current_dir || exists|c: Vector|
            c.in_unit_square() && #[trigger] bounce_choice(*current_dir, c) == Some(dir),
        !collision_detected && !perturbation_due(model) ==> dir == *current_dir,
        !collision_detected ==> dir == *current_dir || exists|c: Vector|
            c.in_unit_square() && #[trigger] free_choice(c) == Some(dir),
        !collision_detected && perturbation_due(model) ==> exists|lot: int|
            0 <= lot < MILLION && #[trigger] perturbed_by(lot, model, *current_dir, dir),
        !collision_detected && model.perturb_segment_percent == 0 ==> dir == *current_dir,
{
    if collision_detected {
        return collision_strategy(model, current_dir, cutter_center_pos, rng);
    }
    if model.perturb_segment {
        let sim_steps_per_cell: u64 = cells_spanned_by(model.cell_size, model.step_size) as u64;
        assert(sim_steps_per_cell >= 1) by (nonlinear_arith)
            requires
                sim_steps_per_cell == cells_spanned(model.cell_size as int, model.step_size as int),
                model.cell_size >= 1,
                model.step_size >= 1,
        ;
        if model.sim_steps % sim_steps_per_cell == 0 {
            let lot = random_in_range(rng, 0, MILLION as i64 - 1);
            if is_lot_won(lot, model.perturb_segment_percent) {
                let mut draws: u32 = 0;
                while draws < MAX_DRAWS
                    invariant
                        draws <= MAX_DRAWS,
                    decreases MAX_DRAWS - draws,
                {
                    let candidate = draw_candidate(rng);
                    if let Some(dir) = choose_freely(candidate) {
                        assert(free_choice(candidate) == Some(dir));
                        assert(perturbed_by(lot as int, model, *current_dir, dir));
                        return dir;
                    }
                    draws += 1;
                }
            }
            assert(perturbed_by(lot as int, model, *current_dir, *current_dir));
        }
    }
    *current_dir
}

} // verus!
