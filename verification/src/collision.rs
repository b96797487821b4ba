use crate::model::boundingbox::BoundingBox;
use crate::vector::Vector;
use vstd::prelude::*;

verus! {

/// The cutter's centre has left the box along the x axis.
pub open spec fn beyond_x(pos: Vector, bb: BoundingBox) -> bool {
    pos.x < bb.min_x || pos.x > bb.max_x
}

/// The cutter's centre has left the box along the y axis.
pub open spec fn beyond_y(pos: Vector, bb: BoundingBox) -> bool {
    pos.y < bb.min_y || pos.y > bb.max_y
}

/// Boundary check: where the cutter's centre has left the bounding box along
/// an axis, the direction is reflected along that axis. Returns whether an
/// edge was hit.
pub fn is_grid_edge(cutter_center_pos: &Vector, bb: &BoundingBox, dir: &mut Vector) -> (edge: bool)
    requires
        old(dir).x > i32::MIN,
        old(dir).y > i32::MIN,
    ensures
        edge == (beyond_x(*cutter_center_pos, *bb) || beyond_y(*cutter_center_pos, *bb)),
        final(dir).x == (if beyond_x(*cutter_center_pos, *bb) {
            -old(dir).x
        } else {
            old(dir).x as int
        }),
        final(dir).y == (if beyond_y(*cutter_center_pos, *bb) {
            -old(dir).y
        } else {
            old(dir).y as int
        }),
{
    let mut grid_edge = false;
    if cutter_center_pos.x < bb.min_x || cutter_center_pos.x > bb.max_x {
        dir.x = -dir.x;
        grid_edge = true;
    }
    if cutter_center_pos.y < bb.min_y || cutter_center_pos.y > bb.max_y {
        dir.y = -dir.y;
        grid_edge = true;
    }
    grid_edge
}

} // verus!
