use crate::geometry::all_corners_within;
use crate::geometry::any_corner_within;
use crate::geometry::cell_index;
use crate::geometry::cells_spanned;
use crate::geometry::corner_within;
use crate::geometry::in_reach;
use crate::geometry::lemma_covered_cell_in_reach;
use crate::mapfile::circle::circle_marks;
use crate::model::SimModel;
use crate::model::cuttertype::CutterType;
use crate::model::grid::Grid;
use crate::model::quadtree::QuadTree;
use crate::model::quadtree::QuadTreeNode;
use crate::model::quadtree::in_region;
use crate::model::quadtree::node_for_circle;
use crate::model::quadtree::region_has_obstacle;
use crate::sim::Course;
use crate::sim::CutterState;
use crate::sim::moved;
use crate::sim::steady_cell;
use crate::sim::steady_course;
use crate::sim::steady_due;
use crate::sim::steady_run;
use crate::sim::steady_start;
use crate::sim::steady_target;
use crate::vector::DIR_SCALE;
use crate::vector::travel;
use crate::vector::Vector;
use vstd::prelude::*;
use vstd::set_lib::*;

verus! {

/// A marking pass only grows coverage: it leaves the obstacle cells as they
/// are, keeps every covered cell covered, and takes no visit away.
pub proof fn law_marking_only_grows(
    before: &Grid,
    after: &Grid,
    center: Vector,
    radius: int,
    blade_len: int,
    cutter_type: CutterType,
    track_center: bool,
    segment: usize,
)
    requires
        before.marked_as(after, center, radius, blade_len, cutter_type, track_center, segment),
        before.can_count(segment),
    ensures
        before.only_grows(after),
{
    assert forall|x: int, y: int| before.in_bounds(x, y) implies {
        &&& (before.cell(x, y) is Obstacle) == (#[trigger] after.cell(x, y) is Obstacle)
        &&& before.cell(x, y).is_marked() ==> after.cell(x, y).is_marked()
        &&& before.cell(x, y).visits() <= after.cell(x, y).visits()
    } by {
        let c = before.cell(x, y);
        if c.is_marked() && c.segment() != segment {
            assert(c.visits() < usize::MAX);
        }
    }
}

/// Growth carries over any number of steps: what has only grown twice in a
/// row has only grown.
pub proof fn law_growth_is_transitive(first: &Grid, second: &Grid, third: &Grid)
    requires
        first.cells_x == second.cells_x,
        first.cells_y == second.cells_y,
        first.only_grows(second),
        second.only_grows(third),
    ensures
        first.only_grows(third),
{
    assert forall|x: int, y: int| first.in_bounds(x, y) implies {
        &&& (first.cell(x, y) is Obstacle) == (#[trigger] third.cell(x, y) is Obstacle)
        &&& first.cell(x, y).is_marked() ==> third.cell(x, y).is_marked()
        &&& first.cell(x, y).visits() <= third.cell(x, y).visits()
    } by {
        assert(second.in_bounds(x, y));
        assert((first.cell(x, y) is Obstacle) == (second.cell(x, y) is Obstacle));
        assert((second.cell(x, y) is Obstacle) == (third.cell(x, y) is Obstacle));
    }
}

/// Where coverage has only grown, the covered-cell count has not fallen and
/// the obstacle-cell count is the same: every covered cell is still covered,
/// and the obstacle cells are the same cells.
pub proof fn law_coverage_never_shrinks(before: &Grid, after: &Grid)
    requires
        before.wf(),
        after.wf(),
        before.cells_x == after.cells_x,
        before.cells_y == after.cells_y,
        before.only_grows(after),
    ensures
        before.covered_set().subset_of(after.covered_set()),
        before.obstacle_set() == after.obstacle_set(),
        before.covered_cells <= after.covered_cells,
        before.cells_obstacles_count == after.cells_obstacles_count,
{
    assert forall|p: (int, int)| before.covered_set().contains(p) implies after.covered_set().contains(
        p,
    ) by {
        assert(before.cell(p.0, p.1).is_marked() ==> after.cell(p.0, p.1).is_marked());
    }
    assert forall|p: (int, int)| before.obstacle_set().contains(p) == after.obstacle_set().contains(
        p,
    ) by {
        if before.in_bounds(p.0, p.1) {
            assert((before.cell(p.0, p.1) is Obstacle) == (after.cell(p.0, p.1) is Obstacle));
        }
    }
    assert(before.obstacle_set() =~= after.obstacle_set());
    after.lemma_sets_finite();
    lemma_len_subset(before.covered_set(), after.covered_set());
}

/// Boundary containment: in every state of a run the centre of the cutter
/// keeps the radius away from every edge of the area.
pub proof fn law_center_stays_inside(model: &SimModel, state: CutterState)
    requires
        model.config_ok(),
        model.state_ok(state),
    ensures
        model.radius <= state.center.x <= model.grid_width - model.radius,
        model.radius <= state.center.y <= model.grid_height - model.radius,
{
}

/// No under-marking: a cell that lies in a circle obstacle with all its four
/// corners, and so with its whole area, belongs to the obstacle.
pub proof fn law_circle_marks_enclosed_cells(
    cell_size: int,
    cx: int,
    cy: int,
    radius: int,
    i: int,
    j: int,
)
    requires
        cell_size > 0,
        radius >= 0,
        i >= 0,
        j >= 0,
        all_corners_within(cell_size, i, j, cx, cy, radius),
    ensures
        circle_marks(cell_size, cx, cy, radius, i, j),
{
    assert(corner_within(cell_size, i, j, 0, 0, cx, cy, radius));
    assert(corner_within(cell_size, i, j, 1, 1, cx, cy, radius));
    let a = i * cell_size - cx;
    let b = j * cell_size - cy;
    let c = (i + 1) * cell_size - cx;
    let d = (j + 1) * cell_size - cy;
    assert(a * a <= radius * radius && b * b <= radius * radius) by (nonlinear_arith)
        requires
            a * a + b * b <= radius * radius,
    ;
    assert(c * c <= radius * radius && d * d <= radius * radius) by (nonlinear_arith)
        requires
            c * c + d * d <= radius * radius,
    ;
    lemma_covered_cell_in_reach(cell_size, i, cx, radius);
    lemma_covered_cell_in_reach(cell_size, j, cy, radius);
}

/// Bounded over-marking: a cell that belongs to a circle obstacle has a
/// corner in the circle. So no cell without a corner in the circle is marked,
/// and least of all one that lies further from the circle than a cell is
/// wide.
pub proof fn law_circle_marks_touched_cells_only(
    cell_size: int,
    cx: int,
    cy: int,
    radius: int,
    i: int,
    j: int,
)
    requires
        circle_marks(cell_size, cx, cy, radius, i, j),
    ensures
        any_corner_within(cell_size, i, j, cx, cy, radius),
{
}

/// The node that answers for a circle encloses the circle, and its flag tells
/// whether the grid holds an obstacle in its widened bounds.
pub proof fn lemma_answering_node(
    node: &QuadTreeNode,
    grid: &Grid,
    margin: int,
    cx: int,
    cy: int,
    radius: int,
)
    requires
        node.describes(grid, margin),
    ensures
        match node_for_circle(node, cx, cy, radius) {
            Some(n) => n.bounds.encloses(cx, cy, radius) && n.has_obstacle == region_has_obstacle(
                grid,
                n.bounds,
                margin,
            ),
            None => !node.bounds.encloses(cx, cy, radius),
        },
    decreases node,
{
    if node.bounds.encloses(cx, cy, radius) && !node.is_leaf {
        match &node.children {
            None => {},
            Some(q) => {
                lemma_answering_node(&q.sw, grid, margin, cx, cy, radius);
                lemma_answering_node(&q.se, grid, margin, cx, cy, radius);
                lemma_answering_node(&q.nw, grid, margin, cx, cy, radius);
                lemma_answering_node(&q.ne, grid, margin, cx, cy, radius);
            },
        }
    }
}

/// Along one axis: a cell within the scan reach of a circle lies in the cell
/// range of every interval that encloses the circle, widened by the reach.
pub proof fn lemma_reach_in_range(
    cell_size: int,
    low: int,
    extent: int,
    margin: int,
    c: int,
    radius: int,
    i: int,
)
    requires
        cell_size > 0,
        radius >= 1,
        c - radius >= 0,
        c - radius >= low,
        c + radius <= low + extent,
        margin >= cells_spanned(radius, cell_size),
        in_reach(i, c, radius, cell_size),
    ensures
        cell_index(low, cell_size) - margin <= i < cells_spanned(low + extent, cell_size) + margin,
{
    let ci = c / cell_size;
    let reach = cells_spanned(radius, cell_size);
    assert(ci * cell_size <= c < (ci + 1) * cell_size) by (nonlinear_arith)
        requires
            ci == c / cell_size,
            cell_size > 0,
    ;
    if low >= 0 {
        let start = low / cell_size;
        assert(start <= ci) by (nonlinear_arith)
            requires
                start == low / cell_size,
                ci == c / cell_size,
                0 <= low <= c,
                cell_size > 0,
        ;
    }
    let far = low + extent;
    let end = cells_spanned(far, cell_size);
    assert(end * cell_size >= far) by (nonlinear_arith)
        requires
            end == (far + cell_size - 1) / cell_size,
            far > 0,
            cell_size > 0,
    ;
    assert(end > ci) by (nonlinear_arith)
        requires
            end * cell_size >= far,
            far > c,
            ci * cell_size <= c,
            cell_size > 0,
    ;
}

/// Spatial-index safety: for a circle that lies inside the area, with a
/// radius that the index was built for, the index never rules out a collision
/// that the exact scan finds.
pub proof fn law_index_finds_every_collision(
    grid: &Grid,
    tree: &QuadTree,
    cutter_radius: int,
    center: Vector,
    radius: int,
)
    requires
        grid.shape(),
        tree.indexes(grid, cutter_radius),
        1 <= radius <= cutter_radius,
        center.x - radius >= 0,
        center.y - radius >= 0,
        grid.scan_hits(center, radius),
    ensures
        tree.may_collide(center.x as int, center.y as int, radius),
{
    let cs = grid.cell_size as int;
    let margin = cells_spanned(cutter_radius, cs);
    let cx = center.x as int;
    let cy = center.y as int;
    lemma_answering_node(&tree.root, grid, margin, cx, cy, radius);
    assert(cells_spanned(radius, cs) <= margin) by (nonlinear_arith)
        requires
            1 <= radius <= cutter_radius,
            cs > 0,
            margin == (cutter_radius + cs - 1) / cs,
            cells_spanned(radius, cs) == (radius + cs - 1) / cs,
    ;
    match node_for_circle(&tree.root, cx, cy, radius) {
        None => {},
        Some(n) => {
            let (x, y) = choose|x: int, y: int|
                grid.in_bounds(x, y) && grid.in_scan(center, radius, x, y) && #[trigger] grid.cell(
                    x,
                    y,
                ) is Obstacle;
            lemma_reach_in_range(cs, n.bounds.x as int, n.bounds.width as int, margin, cx, radius, x);
            lemma_reach_in_range(cs, n.bounds.y as int, n.bounds.height as int, margin, cy, radius, y);
            assert(in_region(cs, n.bounds, margin, x, y));
            assert(region_has_obstacle(grid, n.bounds, margin));
        },
    }
}

/// With an index that was built for the grid and the cutter, the collision
/// check answers as the exact scan does.
pub proof fn law_index_keeps_the_answer(grid: &Grid, cutter_radius: int, center: Vector, radius: int)
    requires
        grid.shape(),
        grid.quadtree matches Some(tree) ==> tree.indexes(grid, cutter_radius),
        1 <= radius <= cutter_radius,
        center.x - radius >= 0,
        center.y - radius >= 0,
    ensures
        (!grid.index_rules_out(center, radius) && grid.scan_hits(center, radius)) == grid.scan_hits(
            center,
            radius,
        ),
{
    if grid.scan_hits(center, radius) {
        match grid.quadtree {
            Some(tree) => {
                law_index_finds_every_collision(grid, &tree, cutter_radius, center, radius);
            },
            None => {},
        }
    }
}

/// A step along an axis is as long as the step: a unit direction on an axis
/// takes the cutter the whole step along that axis and nowhere along the
/// other.
pub proof fn law_travel_along_an_axis(step_size: int)
    ensures
        travel(DIR_SCALE as int, step_size) == step_size,
        travel(-DIR_SCALE, step_size) == -step_size,
        travel(0, step_size) == 0,
{
    assert(travel(DIR_SCALE as int, step_size) == step_size && travel(-DIR_SCALE, step_size)
        == -step_size && travel(0, step_size) == 0) by (nonlinear_arith);
}

/// The position `k` steps along the first direction of a run from its
/// start, along the x axis and along the y axis.
pub open spec fn ahead(model: &SimModel, k: int) -> (int, int) {
    (
        steady_start(model).center.x + k * travel(model.start_dir_x as int, model.step_size as int),
        steady_start(model).center.y + k * travel(model.start_dir_y as int, model.step_size as int),
    )
}

/// The position `k` steps straight ahead as a vector.
pub open spec fn straight_ahead(model: &SimModel, k: int) -> Vector {
    Vector { x: ahead(model, k).0 as i32, y: ahead(model, k).1 as i32 }
}

/// A run without chance goes straight while nothing is in its way: where the
/// first `n` positions straight ahead lie in the bounding box and the
/// collision check finds nothing at any of them, the cutter stands at the
/// `n`-th of them after `n` steps, heads as it did, and has not bounced.
pub proof fn law_clear_path_is_straight(model: &SimModel, grid: &Grid, n: nat)
    requires
        forall|k: int|
            1 <= k <= n ==> {
                &&& model.bb.min_x <= (#[trigger] ahead(model, k)).0 <= model.bb.max_x
                &&& model.bb.min_y <= ahead(model, k).1 <= model.bb.max_y
                &&& !grid.scan_hits(straight_ahead(model, k), model.radius as int)
            },
    ensures
        steady_course(model, grid, n) == (Course {
            center: straight_ahead(model, n as int),
            dir: Vector { x: model.start_dir_x, y: model.start_dir_y },
            bounces: 0,
        }),
        n >= 1 ==> steady_target(model, grid, (n - 1) as nat) == straight_ahead(model, n as int),
    decreases n,
{
    let dx = travel(model.start_dir_x as int, model.step_size as int);
    let dy = travel(model.start_dir_y as int, model.step_size as int);
    assert(0 * dx == 0 && 0 * dy == 0);
    if n >= 1 {
        law_clear_path_is_straight(model, grid, (n - 1) as nat);
        let before = steady_course(model, grid, (n - 1) as nat);
        let at = moved(before.center, before.dir, model.step_size as int);
        if n >= 2 {
            assert(model.bb.min_x <= ahead(model, n - 1).0 <= model.bb.max_x);
        }
        assert((n - 1) * dx + dx == n * dx && (n - 1) * dy + dy == n * dy) by (nonlinear_arith);
        assert(model.bb.min_x <= ahead(model, n as int).0 <= model.bb.max_x);
        assert(at == straight_ahead(model, n as int));
    }
}

/// A run without chance that does not fail ends after the first number of
/// steps after which no step is due: where a step is due after each of the
/// first `m` steps and none after `m`, the run takes `m` steps.
pub proof fn law_run_ends_where_no_step_is_due(model: &SimModel, grid: &Grid, n: nat, m: nat)
    requires
        steady_run(model, grid, n, false),
        forall|k: nat| k < m ==> #[trigger] steady_due(model, grid, k),
        !steady_due(model, grid, m),
    ensures
        n == m,
{
    if n < m {
        assert(steady_due(model, grid, n));
    }
    if m < n {
        assert(steady_due(model, grid, m));
    }
}

/// A cell is touched by step `k + 1` of a run without chance: it lies in the
/// footprint of the cutter where that step takes it or, with centre tracking,
/// holds its centre there.
pub open spec fn touched_in_step(model: &SimModel, grid: &Grid, k: nat, x: int, y: int) -> bool {
    let at = steady_target(model, grid, k);
    ||| grid.footprint(at, model.radius as int, model.blade_len as int, model.cutter_type, x, y)
    ||| model.track_center && grid.is_center_cell(at, x, y)
}

/// After `n` steps of a run without chance the cells that are covered are
/// those that were covered before and those that a step touched; an obstacle
/// stays an obstacle.
pub proof fn law_covered_where_the_cutter_went(model: &SimModel, grid: &Grid, n: nat, x: int, y: int)
    ensures
        grid.cell(x, y) is Obstacle <==> steady_cell(model, grid, n, x, y) is Obstacle,
        !(grid.cell(x, y) is Obstacle) ==> (steady_cell(model, grid, n, x, y).is_marked() <==> (grid.cell(
            x,
            y,
        ).is_marked() || exists|k: nat| k < n && #[trigger] touched_in_step(model, grid, k, x, y))),
    decreases n,
{
    if n >= 1 {
        let last = (n - 1) as nat;
        law_covered_where_the_cutter_went(model, grid, last, x, y);
        if !(grid.cell(x, y) is Obstacle) {
            let before = steady_cell(model, grid, last, x, y);
            assert(!(before is Obstacle));
            if touched_in_step(model, grid, last, x, y) {
                assert(steady_cell(model, grid, n, x, y).is_marked());
            }
            if steady_cell(model, grid, n, x, y).is_marked() && !grid.cell(x, y).is_marked() {
                if before.is_marked() {
                    let k = choose|k: nat| k < last && #[trigger] touched_in_step(model, grid, k, x, y);
                    assert(k < n && touched_in_step(model, grid, k, x, y));
                } else {
                    assert(touched_in_step(model, grid, last, x, y));
                }
            }
            if exists|k: nat| k < n && #[trigger] touched_in_step(model, grid, k, x, y) {
                let k = choose|k: nat| k < n && #[trigger] touched_in_step(model, grid, k, x, y);
                if k < last {
                    assert(before.is_marked());
                }
                assert(steady_cell(model, grid, n, x, y).is_marked());
            }
        }
    }
}

/// Marking a shape twice is marking it once: where a second pass marks the
/// cells of the same shape on a grid on which they are marked already, the
/// grid stays as it is. Holds for every shape alike; `marks` tells the cells
/// of the shape.
pub proof fn law_rasterizing_is_idempotent(
    before: &Grid,
    once: &Grid,
    twice: &Grid,
    marks: spec_fn(int, int) -> bool,
)
    requires
        before.cells_x == once.cells_x == twice.cells_x,
        before.cells_y == once.cells_y == twice.cells_y,
        forall|i: int, j: int|
            before.in_bounds(i, j) ==> #[trigger] once.cell(i, j) == (if marks(i, j) {
                crate::model::grid::Cell::Obstacle
            } else {
                before.cell(i, j)
            }),
        forall|i: int, j: int|
            once.in_bounds(i, j) ==> #[trigger] twice.cell(i, j) == (if marks(i, j) {
                crate::model::grid::Cell::Obstacle
            } else {
                once.cell(i, j)
            }),
    ensures
        forall|i: int, j: int| before.in_bounds(i, j) ==> #[trigger] twice.cell(i, j) == once.cell(i, j),
{
    assert forall|i: int, j: int| before.in_bounds(i, j) implies #[trigger] twice.cell(i, j)
        == once.cell(i, j) by {
        assert(once.in_bounds(i, j));
        assert(once.cell(i, j) == (if marks(i, j) {
            crate::model::grid::Cell::Obstacle
        } else {
            before.cell(i, j)
        }));
    }
}

} // verus!
