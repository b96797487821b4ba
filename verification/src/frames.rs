use crate::geometry::cells_spanned;
use crate::model::SimModel;
use crate::model::TICKS_PER_SECOND;
use vstd::prelude::*;

verus! {

/// In the time of one frame the cutter travels further than the longest step
/// that is made by default, three fifths of the cell size: several steps fall
/// into one frame.
pub open spec fn frame_spans_steps(model: &SimModel, frame_rate: int) -> bool {
    5 * model.velocity > 3 * model.cell_size * frame_rate
}

/// The step size of a model paced for frames. Where several steps fall into
/// one frame the step size stays. Else a step becomes what the cutter travels
/// in the time of one frame, the velocity over the frame rate in whole units,
/// unless that were no unit at all or a step that takes no tick: then the step
/// size stays too. Without a frame rate there is no pacing.
pub open spec fn paced_step_size(model: &SimModel, frame_rate: int) -> int {
    if frame_rate < 1 || frame_spans_steps(model, frame_rate) {
        model.step_size as int
    } else {
        let per_frame = model.velocity as int / frame_rate;
        if per_frame >= 1 && per_frame * TICKS_PER_SECOND / (model.velocity as int) >= 1 {
            per_frame
        } else {
            model.step_size as int
        }
    }
}

/// The steps from one frame to the next of a model paced for frames: where
/// several steps fall into one frame, what the cutter travels in the time of
/// one frame over the step size, rounded up; else 1.
pub open spec fn steps_per_frame(model: &SimModel, frame_rate: int) -> int {
    if frame_rate >= 1 && frame_spans_steps(model, frame_rate) {
        cells_spanned(model.velocity as int, frame_rate * model.step_size)
    } else {
        1
    }
}

/// Paces a model that is ready to run so that a frame taken every so many
/// steps gives the frame rate, see `paced_step_size` and `steps_per_frame`.
/// Returns the number of steps from one frame to the next. Nothing but the
/// step size changes, and the model stays ready to run.
pub fn pace_for_frames(model: &mut SimModel, frame_rate: u32) -> (steps: u64)
    requires
        old(model).ready(),
    ensures
        final(model).ready(),
        *final(model) == (SimModel { step_size: final(model).step_size, ..*old(model) }),
        final(model).step_size == paced_step_size(old(model), frame_rate as int),
        steps == steps_per_frame(old(model), frame_rate as int),
        steps >= 1,
{
    if frame_rate < 1 {
        return 1;
    }
    let velocity: i128 = model.velocity as i128;
    let rate: i128 = frame_rate as i128;
    let cell_size: i128 = model.cell_size as i128;
    let step_size: i128 = model.step_size as i128;
    assert(0 <= cell_size * rate <= 0x8000_0000 * 0x1_0000_0000 && 0 < rate * step_size
        <= 0x1_0000_0000 * 0x8000_0000) by (nonlinear_arith)
        requires
            0 <= cell_size <= 0x8000_0000,
            1 <= step_size <= 0x8000_0000,
            1 <= rate <= 0x1_0000_0000,
    ;
    if 5 * velocity > 3 * (cell_size * rate) {
        assert(3 * (cell_size * rate) == 3 * cell_size * rate) by (nonlinear_arith);
        let span: i128 = rate * step_size;
        let steps: i128 = (velocity + span - 1) / span;
        assert(1 <= steps <= velocity) by (nonlinear_arith)
            requires
                steps == (velocity + span - 1) / (span as int),
                velocity >= 1,
                span >= 1,
        ;
        return steps as u64;
    }
    assert(3 * (cell_size * rate) == 3 * cell_size * rate) by (nonlinear_arith);
    let per_frame: i128 = velocity / rate;
    assert(0 <= per_frame <= velocity && 5 * per_frame <= 3 * cell_size) by (nonlinear_arith)
        requires
            per_frame == velocity as int / rate as int,
            velocity >= 1,
            rate >= 1,
            5 * velocity <= 3 * (cell_size * rate),
    ;
    assert(0 <= per_frame * 1_000_000 <= 0x8000_0000 * 1_000_000) by (nonlinear_arith)
        requires
            0 <= per_frame <= 0x8000_0000,
    ;
    if per_frame >= 1 && (per_frame * (TICKS_PER_SECOND as i128)) / velocity >= 1 {
        model.step_size = per_frame as i32;
    }
    1
}

} // verus!
