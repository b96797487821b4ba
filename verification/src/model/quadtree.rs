use crate::geometry::cell_index;
use crate::geometry::cell_index_of;
use crate::geometry::cells_spanned;
use crate::geometry::cells_spanned_by;
use crate::geometry::clip_span;
use crate::geometry::spanned;
use crate::model::grid::Grid;
use vstd::prelude::*;

verus! {

/// An axis-aligned rectangle in world units.
#[derive(Debug, Clone, Copy, PartialEq, Eq, Structural)]
pub struct QuadTreeBounds {
    pub x: i32,
    pub y: i32,
    pub width: i32,
    pub height: i32,
}

impl QuadTreeBounds {
    /// The rectangle with corner `(x, y)` and the given width and height.
    pub fn new(x: i32, y: i32, width: i32, height: i32) -> (b: Self)
        ensures
            b == (QuadTreeBounds { x, y, width, height }),
    {
        Self { x, y, width, height }
    }

    /// The rectangle has no negative extent and its far edges are coordinates.
    pub open spec fn valid(self) -> bool {
        &&& 0 <= self.width
        &&& 0 <= self.height
        &&& self.x + self.width <= i32::MAX
        &&& self.y + self.height <= i32::MAX
    }

    /// The x coordinate of the middle, rounded down.
    pub open spec fn mid_x(self) -> int {
        self.x + self.width / 2
    }

    /// The y coordinate of the middle, rounded down.
    pub open spec fn mid_y(self) -> int {
        self.y + self.height / 2
    }

    /// The quadrant with corner `(x, y)` and half the width and height of `self`.
    pub open spec fn quadrant(self, x: int, y: int) -> QuadTreeBounds {
        QuadTreeBounds {
            x: x as i32,
            y: y as i32,
            width: (self.width / 2) as i32,
            height: (self.height / 2) as i32,
        }
    }

    /// The circle's four extremes along the axes lie within the rectangle.
    pub open spec fn encloses(self, cx: int, cy: int, radius: int) -> bool {
        &&& cx - radius >= self.x
        &&& cx + radius <= self.x + self.width
        &&& cy - radius >= self.y
        &&& cy + radius <= self.y + self.height
    }

    /// The x coordinate of the middle, rounded down.
    pub fn center_x(&self) -> (c: i32)
        requires
            self.valid(),
        ensures
            c == self.mid_x(),
    {
        self.x + self.width / 2
    }

    /// The y coordinate of the middle, rounded down.
    pub fn center_y(&self) -> (c: i32)
        requires
            self.valid(),
        ensures
            c == self.mid_y(),
    {
        self.y + self.height / 2
    }

    /// Whether the rectangle fully contains the circle.
    pub fn contains_circle(&self, cx: i32, cy: i32, radius: i32) -> (inside: bool)
        ensures
            inside == self.encloses(cx as int, cy as int, radius as int),
    {
        let left = self.x as i64;
        let right = self.x as i64 + self.width as i64;
        let bottom = self.y as i64;
        let top = self.y as i64 + self.height as i64;
        cx as i64 - radius as i64 >= left && cx as i64 + radius as i64 <= right && cy as i64
            - radius as i64 >= bottom && cy as i64 + radius as i64 <= top
    }
}

/// The four quadrants of a split node.
#[derive(Debug)]
pub struct Quadrants {
    pub sw: QuadTreeNode,
    pub se: QuadTreeNode,
    pub nw: QuadTreeNode,
    pub ne: QuadTreeNode,
}

/// A node of the spatial index.
#[derive(Debug)]
pub struct QuadTreeNode {
    pub bounds: QuadTreeBounds,
    /// An obstacle cell lies in the bounds, widened by the index's margin.
    pub has_obstacle: bool,
    pub children: Option<Box<Quadrants>>,
    pub is_leaf: bool,
}

/// Cell `(x, y)` lies in the cell range of `bounds`, widened by `margin` cells
/// on every side.
pub open spec fn in_region(cell_size: int, bounds: QuadTreeBounds, margin: int, x: int, y: int) -> bool {
    &&& cell_index(bounds.x as int, cell_size) - margin <= x < cells_spanned(
        bounds.x + bounds.width,
        cell_size,
    ) + margin
    &&& cell_index(bounds.y as int, cell_size) - margin <= y < cells_spanned(
        bounds.y + bounds.height,
        cell_size,
    ) + margin
}

/// The grid holds an obstacle cell in the widened cell range of `bounds`.
pub open spec fn region_has_obstacle(grid: &Grid, bounds: QuadTreeBounds, margin: int) -> bool {
    exists|x: int, y: int|
        grid.in_bounds(x, y) && in_region(grid.cell_size as int, bounds, margin, x, y)
            && #[trigger] grid.cell(x, y) is Obstacle
}

impl QuadTreeNode {
    /// A leaf without obstacle.
    pub fn new(bounds: QuadTreeBounds) -> (node: Self)
        ensures
            node.bounds == bounds,
            !node.has_obstacle,
            node.children is None,
            node.is_leaf,
    {
        Self { bounds, has_obstacle: false, children: None, is_leaf: true }
    }

    /// Well-formed: a node is a leaf exactly when it has no children, and the
    /// children of a split node are its four quadrants, each well-formed.
    pub open spec fn wf(&self) -> bool
        decreases self,
    {
        &&& self.bounds.valid()
        &&& self.is_leaf == (self.children is None)
        &&& match self.children {
            None => true,
            Some(q) => {
                &&& q.sw.bounds == self.bounds.quadrant(self.bounds.x as int, self.bounds.y as int)
                &&& q.se.bounds == self.bounds.quadrant(self.bounds.mid_x(), self.bounds.y as int)
                &&& q.nw.bounds == self.bounds.quadrant(self.bounds.x as int, self.bounds.mid_y())
                &&& q.ne.bounds == self.bounds.quadrant(self.bounds.mid_x(), self.bounds.mid_y())
                &&& q.sw.wf()
                &&& q.se.wf()
                &&& q.nw.wf()
                &&& q.ne.wf()
            },
        }
    }

    /// Every node's flag tells whether `grid` holds an obstacle in the node's
    /// bounds widened by `margin` cells.
    pub open spec fn describes(&self, grid: &Grid, margin: int) -> bool
        decreases self,
    {
        &&& self.has_obstacle == region_has_obstacle(grid, self.bounds, margin)
        &&& match self.children {
            None => true,
            Some(q) => {
                &&& q.sw.describes(grid, margin)
                &&& q.se.describes(grid, margin)
                &&& q.nw.describes(grid, margin)
                &&& q.ne.describes(grid, margin)
            },
        }
    }

    /// Every node is split exactly when it has an obstacle and is wider than
    /// `min_node_size`.
    pub open spec fn split_by_rule(&self, min_node_size: int) -> bool
        decreases self,
    {
        &&& (self.children is Some) == (self.has_obstacle && self.bounds.width > min_node_size)
        &&& match self.children {
            None => true,
            Some(q) => {
                &&& q.sw.split_by_rule(min_node_size)
                &&& q.se.split_by_rule(min_node_size)
                &&& q.nw.split_by_rule(min_node_size)
                &&& q.ne.split_by_rule(min_node_size)
            },
        }
    }

    /// Splits the node into its four quadrants, each a leaf without obstacle.
    pub fn split(&mut self)
        requires
            old(self).bounds.valid(),
        ensures
            final(self).bounds == old(self).bounds,
            final(self).has_obstacle == old(self).has_obstacle,
            !final(self).is_leaf,
            final(self).children matches Some(q) && {
                let b = old(self).bounds;
                &&& q.sw.bounds == b.quadrant(b.x as int, b.y as int)
                &&& q.se.bounds == b.quadrant(b.mid_x(), b.y as int)
                &&& q.nw.bounds == b.quadrant(b.x as int, b.mid_y())
                &&& q.ne.bounds == b.quadrant(b.mid_x(), b.mid_y())
                &&& q.sw.is_leaf && q.sw.children is None && !q.sw.has_obstacle
                &&& q.se.is_leaf && q.se.children is None && !q.se.has_obstacle
                &&& q.nw.is_leaf && q.nw.children is None && !q.nw.has_obstacle
                &&& q.ne.is_leaf && q.ne.children is None && !q.ne.has_obstacle
            },
    {
        let half_width = self.bounds.width / 2;
        let half_height = self.bounds.height / 2;
        let cx = self.bounds.center_x();
        let cy = self.bounds.center_y();
        let nw = QuadTreeNode::new(QuadTreeBounds::new(self.bounds.x, cy, half_width, half_height));
        let ne = QuadTreeNode::new(QuadTreeBounds::new(cx, cy, half_width, half_height));
        let sw = QuadTreeNode::new(
            QuadTreeBounds::new(self.bounds.x, self.bounds.y, half_width, half_height),
        );
        let se = QuadTreeNode::new(QuadTreeBounds::new(cx, self.bounds.y, half_width, half_height));
        self.children = Some(Box::new(Quadrants { sw, se, nw, ne }));
        self.is_leaf = false;
    }
}

/// The spatial index over the obstacles of a grid.
#[derive(Debug)]
pub struct QuadTree {
    pub root: QuadTreeNode,
    /// Nodes no wider than this are not split further.
    pub min_node_size: i32,
}

/// Smallest node size for a cutter of the given radius: the radius times a
/// factor given in thousandths, capped at the largest coordinate.
pub open spec fn min_node_size_for(cutter_radius: int, min_qnode_size: int) -> int {
    let size = cutter_radius * min_qnode_size / 1000;
    if size > i32::MAX {
        i32::MAX as int
    } else {
        size
    }
}

/// The node that answers for a circle: the deepest node whose bounds enclose
/// the circle, the quadrants tried in the order south-west, south-east,
/// north-west, north-east; none where even `node` does not enclose it.
pub open spec fn node_for_circle(node: &QuadTreeNode, cx: int, cy: int, radius: int) -> Option<
    &QuadTreeNode,
>
    decreases node,
{
    if !node.bounds.encloses(cx, cy, radius) {
        None
    } else if node.is_leaf {
        Some(node)
    } else {
        match &node.children {
            None => Some(node),
            Some(q) => {
                if node_for_circle(&q.sw, cx, cy, radius) is Some {
                    node_for_circle(&q.sw, cx, cy, radius)
                } else if node_for_circle(&q.se, cx, cy, radius) is Some {
                    node_for_circle(&q.se, cx, cy, radius)
                } else if node_for_circle(&q.nw, cx, cy, radius) is Some {
                    node_for_circle(&q.nw, cx, cy, radius)
                } else if node_for_circle(&q.ne, cx, cy, radius) is Some {
                    node_for_circle(&q.ne, cx, cy, radius)
                } else {
                    Some(node)
                }
            },
        }
    }
}

/// Whether `grid` holds an obstacle in the cell range of `bounds` widened by
/// `margin` cells.
#[verifier::loop_isolation(false)]
pub fn scan_region(grid: &Grid, bounds: &QuadTreeBounds, margin: i32) -> (found: bool)
    requires
        grid.shape(),
        bounds.valid(),
        margin >= 0,
    ensures
        found == region_has_obstacle(grid, *bounds, margin as int),
{
    let cs = grid.cell_size;
    let start_x = cell_index_of(bounds.x, cs);
    let start_y = cell_index_of(bounds.y, cs);
    let end_x = cells_spanned_by(bounds.x + bounds.width, cs);
    let end_y = cells_spanned_by(bounds.y + bounds.height, cs);
    let (x_lo, x_hi) = clip_span(
        start_x as i64 - margin as i64,
        end_x as i64 + margin as i64,
        grid.cells_x,
    );
    let (y_lo, y_hi) = clip_span(
        start_y as i64 - margin as i64,
        end_y as i64 + margin as i64,
        grid.cells_y,
    );
    let mut y = y_lo;
    while y < y_hi
        invariant
            y_lo <= y <= y_hi,
            forall|i: int, j: int|
                x_lo <= i < x_hi && y_lo <= j < y ==> !(#[trigger] grid.cell(i, j) is Obstacle),
        decreases y_hi - y,
    {
        let mut x = x_lo;
        while x < x_hi
            invariant
                x_lo <= x <= x_hi,
                y_lo <= y < y_hi,
                forall|i: int, j: int|
                    ((x_lo <= i < x_hi && y_lo <= j < y) || (j == y && x_lo <= i < x)) ==> !(
                    #[trigger] grid.cell(i, j) is Obstacle),
            decreases x_hi - x,
        {
            if grid.cells[x][y].is_obstacle() {
                proof {
                    assert(spanned(x as int, start_x - margin, end_x + margin, grid.cells_x as int));
                    assert(spanned(y as int, start_y - margin, end_y + margin, grid.cells_y as int));
                    assert(grid.cell(x as int, y as int) is Obstacle);
                    assert(in_region(cs as int, *bounds, margin as int, x as int, y as int));
                }
                return true;
            }
            x += 1;
        }
        y += 1;
    }
    proof {
        assert forall|i: int, j: int|
            grid.in_bounds(i, j) && in_region(cs as int, *bounds, margin as int, i, j) implies !(
        #[trigger] grid.cell(i, j) is Obstacle) by {
            assert(spanned(i, start_x - margin, end_x + margin, grid.cells_x as int));
            assert(spanned(j, start_y - margin, end_y + margin, grid.cells_y as int));
        }
    }
    false
}

/// Sets the obstacle flag of a fresh leaf from the grid and splits it, again
/// and again, while a node has an obstacle and is wider than `min_node_size`.
pub fn build_node(node: &mut QuadTreeNode, grid: &Grid, cutter_radius: i32, min_node_size: i32)
    requires
        old(node).bounds.valid(),
        old(node).children is None,
        old(node).is_leaf,
        grid.shape(),
        cutter_radius >= 0,
        min_node_size >= 0,
    ensures
        final(node).bounds == old(node).bounds,
        final(node).wf(),
        final(node).describes(grid, cells_spanned(cutter_radius as int, grid.cell_size as int)),
        final(node).split_by_rule(min_node_size as int),
    decreases old(node).bounds.width,
{
    let margin = cells_spanned_by(cutter_radius, grid.cell_size);
    let has_obstacle = scan_region(grid, &node.bounds, margin);
    node.has_obstacle = has_obstacle;
    if has_obstacle && node.bounds.width > min_node_size {
        node.split();
        if let Some(children) = &mut node.children {
            build_node(&mut children.sw, grid, cutter_radius, min_node_size);
            build_node(&mut children.se, grid, cutter_radius, min_node_size);
            build_node(&mut children.nw, grid, cutter_radius, min_node_size);
            build_node(&mut children.ne, grid, cutter_radius, min_node_size);
        }
    }
}

/// Whether the bounds have no negative extent and far edges that are
/// coordinates.
pub fn are_bounds_valid(bounds: &QuadTreeBounds) -> (ok: bool)
    ensures
        ok == bounds.valid(),
{
    bounds.width >= 0 && bounds.height >= 0 && bounds.x as i64 + bounds.width as i64
        <= i32::MAX as i64 && bounds.y as i64 + bounds.height as i64 <= i32::MAX as i64
}

/// Whether the node and all nodes below it are well-formed, tell the truth
/// about the obstacles of `grid` within `margin` cells of their bounds, and
/// are split exactly where they have an obstacle and are wider than
/// `min_node_size`.
pub fn check_node(node: &QuadTreeNode, grid: &Grid, margin: i32, min_node_size: i32) -> (ok: bool)
    requires
        grid.shape(),
        margin >= 0,
    ensures
        ok == (node.wf() && node.describes(grid, margin as int) && node.split_by_rule(
            min_node_size as int,
        )),
    decreases node,
{
    if !are_bounds_valid(&node.bounds) {
        return false;
    }
    if node.is_leaf != node.children.is_none() {
        return false;
    }
    if node.has_obstacle != scan_region(grid, &node.bounds, margin) {
        return false;
    }
    let wide = node.has_obstacle && node.bounds.width > min_node_size;
    match &node.children {
        None => !wide,
        Some(q) => {
            if !wide {
                return false;
            }
            let half_width = node.bounds.width / 2;
            let half_height = node.bounds.height / 2;
            let cx = node.bounds.center_x();
            let cy = node.bounds.center_y();
            let x = node.bounds.x;
            let y = node.bounds.y;
            if !(q.sw.bounds.x == x && q.sw.bounds.y == y && q.sw.bounds.width == half_width
                && q.sw.bounds.height == half_height) {
                return false;
            }
            if !(q.se.bounds.x == cx && q.se.bounds.y == y && q.se.bounds.width == half_width
                && q.se.bounds.height == half_height) {
                return false;
            }
            if !(q.nw.bounds.x == x && q.nw.bounds.y == cy && q.nw.bounds.width == half_width
                && q.nw.bounds.height == half_height) {
                return false;
            }
            if !(q.ne.bounds.x == cx && q.ne.bounds.y == cy && q.ne.bounds.width == half_width
                && q.ne.bounds.height == half_height) {
                return false;
            }
            check_node(&q.sw, grid, margin, min_node_size) && check_node(
                &q.se,
                grid,
                margin,
                min_node_size,
            ) && check_node(&q.nw, grid, margin, min_node_size) && check_node(
                &q.ne,
                grid,
                margin,
                min_node_size,
            )
        },
    }
}

impl QuadTree {
    /// A tree of one leaf.
    pub fn new(bounds: QuadTreeBounds, min_node_size: i32) -> (tree: Self)
        ensures
            tree.root.bounds == bounds,
            tree.root.is_leaf,
            tree.root.children is None,
            !tree.root.has_obstacle,
            tree.min_node_size == min_node_size,
    {
        Self { root: QuadTreeNode::new(bounds), min_node_size }
    }

    /// The tree is well-formed, tells the truth about `grid` for a cutter of
    /// radius `cutter_radius`, and is split by its own `min_node_size`.
    pub open spec fn indexes(&self, grid: &Grid, cutter_radius: int) -> bool {
        &&& self.root.wf()
        &&& self.root.describes(grid, cells_spanned(cutter_radius, grid.cell_size as int))
        &&& self.root.split_by_rule(self.min_node_size as int)
    }

    /// The answer of the index for a circle: the obstacle flag of the node that
    /// answers for the circle, and `true` where no node does.
    pub open spec fn may_collide(&self, cx: int, cy: int, radius: int) -> bool {
        match node_for_circle(&self.root, cx, cy, radius) {
            Some(node) => node.has_obstacle,
            None => true,
        }
    }

    /// Builds the index of `grid` for a cutter of radius `cutter_radius`. The
    /// root spans the whole grid; `min_qnode_size` is the smallest node size as
    /// a multiple of the radius, in thousandths.
    pub fn build_from_grid(grid: &Grid, cutter_radius: i32, min_qnode_size: i32) -> (tree: Self)
        requires
            grid.shape(),
            cutter_radius >= 0,
            min_qnode_size >= 0,
        ensures
            tree.root.bounds == (QuadTreeBounds {
                x: 0,
                y: 0,
                width: (grid.cells_x * grid.cell_size) as i32,
                height: (grid.cells_y * grid.cell_size) as i32,
            }),
            tree.min_node_size == min_node_size_for(cutter_radius as int, min_qnode_size as int),
            tree.indexes(grid, cutter_radius as int),
    {
        assert(0 <= grid.cells_x <= grid.cells_x * grid.cell_size && 0 <= grid.cells_y
            <= grid.cells_y * grid.cell_size) by (nonlinear_arith)
            requires
                grid.cell_size > 0,
        ;
        let width: i32 = (grid.cells_x as i64 * grid.cell_size as i64) as i32;
        let height: i32 = (grid.cells_y as i64 * grid.cell_size as i64) as i32;
        let bounds = QuadTreeBounds { x: 0, y: 0, width, height };
        assert(0 <= cutter_radius * min_qnode_size <= 0x8000_0000 * 0x8000_0000) by (nonlinear_arith)
            requires
                0 <= cutter_radius <= 0x8000_0000,
                0 <= min_qnode_size <= 0x8000_0000,
        ;
        let scaled: i64 = cutter_radius as i64 * min_qnode_size as i64 / 1000;
        let min_node_size: i32 = if scaled > i32::MAX as i64 {
            i32::MAX
        } else {
            scaled as i32
        };
        let mut tree = Self::new(bounds, min_node_size);
        build_node(&mut tree.root, grid, cutter_radius, min_node_size);
        tree
    }

    /// Whether the tree is an index of `grid` for a cutter of radius
    /// `cutter_radius`: well-formed, truthful about the obstacles of the grid,
    /// and split by its own `min_node_size`. An index that comes from
    /// elsewhere is to be checked before it is used.
    pub fn is_index_of(&self, grid: &Grid, cutter_radius: i32) -> (ok: bool)
        requires
            grid.shape(),
            cutter_radius >= 0,
        ensures
            ok == self.indexes(grid, cutter_radius as int),
    {
        let margin = cells_spanned_by(cutter_radius, grid.cell_size);
        check_node(&self.root, grid, margin, self.min_node_size)
    }

    /// The node that answers for the circle, see `node_for_circle`.
    pub fn find_node_containing_circle(node: &QuadTreeNode, cx: i32, cy: i32, radius: i32) -> (found:
        Option<&QuadTreeNode>)
        ensures
            found == node_for_circle(node, cx as int, cy as int, radius as int),
        decreases node,
    {
        if !node.bounds.contains_circle(cx, cy, radius) {
            return None;
        }
        if node.is_leaf {
            return Some(node);
        }
        if let Some(children) = &node.children {
            let sw = QuadTree::find_node_containing_circle(&children.sw, cx, cy, radius);
            if sw.is_some() {
                return sw;
            }
            let se = QuadTree::find_node_containing_circle(&children.se, cx, cy, radius);
            if se.is_some() {
                return se;
            }
            let nw = QuadTree::find_node_containing_circle(&children.nw, cx, cy, radius);
            if nw.is_some() {
                return nw;
            }
            let ne = QuadTree::find_node_containing_circle(&children.ne, cx, cy, radius);
            if ne.is_some() {
                return ne;
            }
        }
        Some(node)
    }

    /// Whether a cutter at `(cx, cy)` might touch an obstacle: the obstacle flag
    /// of the node that answers for the circle, and `true` where no node does.
    pub fn might_have_collision(&self, cx: i32, cy: i32, radius: i32) -> (maybe: bool)
        ensures
            maybe == self.may_collide(cx as int, cy as int, radius as int),
    {
        if let Some(node) = QuadTree::find_node_containing_circle(&self.root, cx, cy, radius) {
            return node.has_obstacle;
        }
        true
    }
}


/// What a tree tells of a grid it tells of every grid with the same cells.
pub proof fn lemma_describes_same_cells(node: &QuadTreeNode, first: &Grid, second: &Grid, margin: int)
    requires
        node.describes(first, margin),
        first.cells == second.cells,
        first.cells_x == second.cells_x,
        first.cells_y == second.cells_y,
        first.cell_size == second.cell_size,
    ensures
        node.describes(second, margin),
    decreases node,
{
    assert(region_has_obstacle(first, node.bounds, margin) == region_has_obstacle(
        second,
        node.bounds,
        margin,
    )) by {
        if region_has_obstacle(first, node.bounds, margin) {
            let (x, y) = choose|x: int, y: int|
                first.in_bounds(x, y) && in_region(first.cell_size as int, node.bounds, margin, x, y)
                    && #[trigger] first.cell(x, y) is Obstacle;
            assert(second.cell(x, y) is Obstacle);
        }
        if region_has_obstacle(second, node.bounds, margin) {
            let (x, y) = choose|x: int, y: int|
                second.in_bounds(x, y) && in_region(
                    second.cell_size as int,
                    node.bounds,
                    margin,
                    x,
                    y,
                ) && #[trigger] second.cell(x, y) is Obstacle;
            assert(first.cell(x, y) is Obstacle);
        }
    }
    match &node.children {
        None => {},
        Some(q) => {
            lemma_describes_same_cells(&q.sw, first, second, margin);
            lemma_describes_same_cells(&q.se, first, second, margin);
            lemma_describes_same_cells(&q.nw, first, second, margin);
            lemma_describes_same_cells(&q.ne, first, second, margin);
        },
    }
}

} // verus!
