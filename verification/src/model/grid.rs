use crate::geometry::all_corners_beyond;
use crate::geometry::all_corners_within;
use crate::geometry::beyond_distance;
use crate::geometry::cell_index;
use crate::geometry::cell_index_of;
use crate::geometry::cells_spanned_by;
use crate::geometry::clipped;
use crate::geometry::corner_within;
use crate::geometry::in_reach;
use crate::geometry::lemma_covered_cell_in_reach;
use crate::geometry::scan_range;
use crate::geometry::scan_reach_of;
use crate::geometry::within_distance;
use crate::model::coverageinfo::CoverageInfo;
use crate::model::cuttertype::CutterType;
use crate::model::quadtree::QuadTree;
use crate::model::quadtree::QuadTreeBounds;
use crate::model::quadtree::min_node_size_for;
use crate::vector::Vector;
use vstd::prelude::*;
use vstd::set_lib::*;

verus! {

/// State of one grid cell.
#[derive(Debug, Clone, Copy, PartialEq, Eq, Structural)]
pub enum Cell {
    /// Never covered, not an obstacle.
    Empty,
    /// Covered at least once.
    Covered(CoverageInfo),
    /// Covered, and the cell that held the cutter's centre when it was marked.
    CenterPoint(CoverageInfo),
    /// Permanently blocked.
    Obstacle,
}

impl Cell {
    /// The cell has left `Empty` by being covered.
    pub open spec fn is_marked(self) -> bool {
        self is Covered || self is CenterPoint
    }

    /// The travel segment that touched a covered cell last, 0 for the other cells.
    pub open spec fn segment(self) -> int {
        match self {
            Cell::Covered(info) => info.segment_number as int,
            Cell::CenterPoint(info) => info.segment_number as int,
            _ => 0,
        }
    }

    /// Visit count of a covered cell, 0 for the other cells.
    pub open spec fn visits(self) -> int {
        match self {
            Cell::Covered(info) => info.times_visited as int,
            Cell::CenterPoint(info) => info.times_visited as int,
            _ => 0,
        }
    }

    /// Whether the cell was never covered and is no obstacle.
    pub fn is_empty(&self) -> (b: bool)
        ensures
            b == (*self is Empty),
    {
        matches!(self, Cell::Empty)
    }

    /// Whether the cell is `Covered`; a centre point does not count.
    pub fn is_covered(&self) -> (b: bool)
        ensures
            b == (*self is Covered),
    {
        matches!(self, Cell::Covered(_))
    }

    /// Whether the cell is an obstacle.
    pub fn is_obstacle(&self) -> (b: bool)
        ensures
            b == (*self is Obstacle),
    {
        matches!(self, Cell::Obstacle)
    }

    /// Makes the cell an obstacle.
    pub fn set_as_obstacle(&mut self)
        ensures
            *final(self) == Cell::Obstacle,
    {
        *self = Cell::Obstacle;
    }

    /// Marks the cell as covered for the first time. An obstacle is never
    /// covered.
    pub fn set_as_covered(&mut self, segment_number: usize)
        requires
            !(*old(self) is Obstacle),
        ensures
            *final(self) == Cell::Covered(CoverageInfo { segment_number, times_visited: 1 }),
    {
        *self = Cell::Covered(CoverageInfo::new(segment_number, 1));
    }
}

/// A cell after the cutter has covered it during travel segment `segment`:
/// an empty cell becomes covered with one visit, a covered cell counts one more
/// visit when the segment differs from the one that touched it last.
pub open spec fn cell_after_cover(c: Cell, segment: usize) -> Cell {
    match c {
        Cell::Empty => Cell::Covered(CoverageInfo { segment_number: segment, times_visited: 1 }),
        Cell::Covered(info) => if info.segment_number != segment {
            Cell::Covered(
                CoverageInfo {
                    segment_number: segment,
                    times_visited: (info.times_visited + 1) as usize,
                },
            )
        } else {
            c
        },
        Cell::CenterPoint(info) => if info.segment_number != segment {
            Cell::CenterPoint(
                CoverageInfo {
                    segment_number: segment,
                    times_visited: (info.times_visited + 1) as usize,
                },
            )
        } else {
            c
        },
        Cell::Obstacle => c,
    }
}

/// A cell after it has been marked as the one under the cutter's centre: it
/// becomes a `CenterPoint` and keeps the visits it has accumulated.
pub open spec fn cell_after_center(c: Cell, segment: usize) -> Cell {
    match c {
        Cell::Empty => Cell::CenterPoint(CoverageInfo { segment_number: segment, times_visited: 1 }),
        Cell::Covered(info) => Cell::CenterPoint(info),
        Cell::CenterPoint(info) => if info.segment_number != segment {
            Cell::CenterPoint(
                CoverageInfo {
                    segment_number: segment,
                    times_visited: (info.times_visited + 1) as usize,
                },
            )
        } else {
            c
        },
        Cell::Obstacle => c,
    }
}

/// A cell after one marking pass: first covered, if it lies in the footprint,
/// then marked as the centre cell, if it is the one.
pub open spec fn cell_after_mark(c: Cell, covered: bool, is_center: bool, segment: usize) -> Cell {
    let c1 = if covered {
        cell_after_cover(c, segment)
    } else {
        c
    };
    if is_center {
        cell_after_center(c1, segment)
    } else {
        c1
    }
}

/// The cutter at `(cx, cy)` covers cell `(gx, gy)`: all four corners of the cell
/// lie within `radius` of the centre and, for a blade, none lies nearer than the
/// blade's inner radius `radius - blade_len`.
pub open spec fn cell_covered(
    cell_size: int,
    gx: int,
    gy: int,
    cx: int,
    cy: int,
    radius: int,
    blade_len: int,
    cutter_type: CutterType,
) -> bool {
    &&& all_corners_within(cell_size, gx, gy, cx, cy, radius)
    &&& cutter_type == CutterType::Blade ==> all_corners_beyond(
        cell_size,
        gx,
        gy,
        cx,
        cy,
        radius - blade_len,
    )
}

/// The cell positions that come before `(x, y)` when a grid of height `h` is
/// walked column by column.
pub open spec fn points_before(h: int, x: int, y: int) -> Set<(int, int)> {
    Set::new(|p: (int, int)| 0 <= p.1 < h && ((0 <= p.0 < x) || (p.0 == x && p.1 < y)))
}

/// All cell positions of a grid of `w` columns and `h` rows.
pub open spec fn grid_points(w: int, h: int) -> Set<(int, int)> {
    Set::new(|p: (int, int)| 0 <= p.0 < w && 0 <= p.1 < h)
}

/// There are `x * h + y` positions before `(x, y)`.
pub proof fn lemma_points_before(h: int, x: int, y: int)
    requires
        0 <= x,
        0 <= y <= h,
    ensures
        points_before(h, x, y).finite(),
        points_before(h, x, y).len() == x * h + y,
    decreases x, y,
{
    if y > 0 {
        lemma_points_before(h, x, y - 1);
        assert(points_before(h, x, y) =~= points_before(h, x, y - 1).insert((x, y - 1)));
    } else if x > 0 {
        lemma_points_before(h, x - 1, h);
        assert(points_before(h, x, 0) =~= points_before(h, x - 1, h));
        assert((x - 1) * h + h == x * h) by (nonlinear_arith);
    } else {
        assert(points_before(h, 0, 0) =~= Set::<(int, int)>::empty());
    }
}

/// A grid of `w` columns and `h` rows has `w * h` positions.
pub proof fn lemma_grid_points(w: int, h: int)
    requires
        0 <= w,
        0 <= h,
    ensures
        grid_points(w, h).finite(),
        grid_points(w, h).len() == w * h,
{
    lemma_points_before(h, w, 0);
    assert(grid_points(w, h) =~= points_before(h, w, 0));
}

/// The discretised area: a `cells_x` by `cells_y` array of cells, each a square
/// of `cell_size` world units, with running totals of the covered cells and of
/// the obstacle cells.
#[derive(Debug)]
pub struct Grid {
    /// The cells, indexed `cells[x][y]`.
    pub cells: Vec<Vec<Cell>>,
    pub cell_size: i32,
    pub cells_x: usize,
    pub cells_y: usize,
    pub covered_cells: usize,
    pub cells_obstacles_count: usize,
    pub quadtree: Option<QuadTree>,
    pub num_detailed_collision_checks: usize,
    pub use_quad_tree: bool,
}

impl Grid {
    /// `(x, y)` is the position of a cell of the grid.
    pub open spec fn in_bounds(&self, x: int, y: int) -> bool {
        0 <= x < self.cells_x && 0 <= y < self.cells_y
    }

    /// The cell at column `x`, row `y`.
    pub open spec fn cell(&self, x: int, y: int) -> Cell
        recommends
            self.in_bounds(x, y),
    {
        self.cells@[x]@[y]
    }

    /// Positions of the cells that are `Covered` or `CenterPoint`.
    pub open spec fn covered_set(&self) -> Set<(int, int)> {
        Set::new(|p: (int, int)| self.in_bounds(p.0, p.1) && self.cell(p.0, p.1).is_marked())
    }

    /// Positions of the cells that are `Obstacle`.
    pub open spec fn obstacle_set(&self) -> Set<(int, int)> {
        Set::new(|p: (int, int)| self.in_bounds(p.0, p.1) && self.cell(p.0, p.1) is Obstacle)
    }

    /// The cell array has the stated dimensions, and every cell corner has a
    /// world coordinate that fits the coordinate type.
    pub open spec fn shape(&self) -> bool {
        &&& self.cell_size > 0
        &&& self.cells@.len() == self.cells_x
        &&& forall|x: int| 0 <= x < self.cells_x ==> (#[trigger] self.cells@[x])@.len() == self.cells_y
        &&& self.cells_x * self.cell_size <= i32::MAX
        &&& self.cells_y * self.cell_size <= i32::MAX
        &&& self.cells_x * self.cells_y <= usize::MAX
    }

    /// Well-formed: the shape holds and both running totals are exact.
    pub open spec fn wf(&self) -> bool {
        &&& self.shape()
        &&& self.covered_cells == self.covered_set().len()
        &&& self.cells_obstacles_count == self.obstacle_set().len()
    }

    /// Every obstacle cell of `self` is an obstacle cell of `after`.
    pub open spec fn keeps_obstacles(&self, after: &Grid) -> bool {
        forall|x: int, y: int|
            self.in_bounds(x, y) && self.cell(x, y) is Obstacle ==> #[trigger] after.cell(x, y) is Obstacle
    }

    /// Coverage has only grown from `self` to `after`: the obstacle cells are
    /// the same, every covered cell is still covered, and no cell has lost a
    /// visit.
    pub open spec fn only_grows(&self, after: &Grid) -> bool {
        forall|x: int, y: int|
            self.in_bounds(x, y) ==> {
                &&& (self.cell(x, y) is Obstacle) == (#[trigger] after.cell(x, y) is Obstacle)
                &&& self.cell(x, y).is_marked() ==> after.cell(x, y).is_marked()
                &&& self.cell(x, y).visits() <= after.cell(x, y).visits()
            }
    }

    /// `self` and `other` differ in their cells at most.
    pub open spec fn same_frame(&self, other: &Grid) -> bool {
        &&& self.cell_size == other.cell_size
        &&& self.cells_x == other.cells_x
        &&& self.cells_y == other.cells_y
        &&& self.quadtree == other.quadtree
        &&& self.num_detailed_collision_checks == other.num_detailed_collision_checks
        &&& self.use_quad_tree == other.use_quad_tree
    }

    /// Grids with the same cells have the same covered and obstacle cells.
    pub proof fn lemma_same_cells(&self, other: &Grid)
        requires
            self.cells == other.cells,
            self.cells_x == other.cells_x,
            self.cells_y == other.cells_y,
        ensures
            self.covered_set() == other.covered_set(),
            self.obstacle_set() == other.obstacle_set(),
    {
        assert(self.covered_set() =~= other.covered_set());
        assert(self.obstacle_set() =~= other.obstacle_set());
    }

    /// The covered cells and the obstacle cells are no more than the cells of the grid.
    pub proof fn lemma_sets_finite(&self)
        requires
            self.shape(),
        ensures
            self.covered_set().finite(),
            self.obstacle_set().finite(),
            self.covered_set().len() + self.obstacle_set().len() <= self.cells_x * self.cells_y,
    {
        let all = grid_points(self.cells_x as int, self.cells_y as int);
        lemma_grid_points(self.cells_x as int, self.cells_y as int);
        let c = self.covered_set();
        let o = self.obstacle_set();
        assert(c.union(o).subset_of(all));
        lemma_len_subset(c.union(o), all);
        assert(c.subset_of(c.union(o)));
        assert(o.subset_of(c.union(o)));
        lemma_len_subset(c, c.union(o));
        lemma_len_subset(o, c.union(o));
        assert(c.disjoint(o));
        lemma_set_disjoint_lens(c, o);
    }

    /// A grid of empty cells.
    pub fn new(grid_cells_x: usize, grid_cells_y: usize, cell_size: i32) -> (g: Self)
        requires
            cell_size > 0,
            grid_cells_x * cell_size <= i32::MAX,
            grid_cells_y * cell_size <= i32::MAX,
            grid_cells_x * grid_cells_y <= usize::MAX,
        ensures
            g.wf(),
            g.cells_x == grid_cells_x,
            g.cells_y == grid_cells_y,
            g.cell_size == cell_size,
            forall|x: int, y: int| g.in_bounds(x, y) ==> #[trigger] g.cell(x, y) == Cell::Empty,
            g.covered_cells == 0,
            g.cells_obstacles_count == 0,
            g.quadtree is None,
            g.num_detailed_collision_checks == 0,
            !g.use_quad_tree,
    {
        let mut cells: Vec<Vec<Cell>> = Vec::new();
        let mut x: usize = 0;
        while x < grid_cells_x
            invariant
                x <= grid_cells_x,
                cells@.len() == x,
                forall|i: int| 0 <= i < x ==> (#[trigger] cells@[i])@.len() == grid_cells_y,
                forall|i: int, j: int|
                    0 <= i < x && 0 <= j < grid_cells_y ==> (#[trigger] cells@[i]@[j]) == Cell::Empty,
            decreases grid_cells_x - x,
        {
            let mut column: Vec<Cell> = Vec::new();
            let mut y: usize = 0;
            while y < grid_cells_y
                invariant
                    y <= grid_cells_y,
                    column@.len() == y,
                    forall|j: int| 0 <= j < y ==> (#[trigger] column@[j]) == Cell::Empty,
                decreases grid_cells_y - y,
            {
                column.push(Cell::Empty);
                y += 1;
            }
            cells.push(column);
            x += 1;
        }
        let g = Grid {
            cells,
            cell_size,
            cells_x: grid_cells_x,
            cells_y: grid_cells_y,
            covered_cells: 0,
            cells_obstacles_count: 0,
            quadtree: None,
            num_detailed_collision_checks: 0,
            use_quad_tree: false,
        };
        proof {
            assert(g.covered_set() =~= Set::<(int, int)>::empty());
            assert(g.obstacle_set() =~= Set::<(int, int)>::empty());
        }
        g
    }

    /// The number of columns and of rows.
    pub fn get_numcells(&self) -> (n: (usize, usize))
        ensures
            n == (self.cells_x, self.cells_y),
    {
        (self.cells_x, self.cells_y)
    }

    /// The length of the side of a cell in world units.
    pub fn get_cell_size(&self) -> (s: i32)
        ensures
            s == self.cell_size,
    {
        self.cell_size
    }

    /// The cell at `(x, y)`, or `None` outside the grid.
    pub fn get_cell(&self, x: usize, y: usize) -> (c: Option<&Cell>)
        requires
            self.shape(),
        ensures
            c == if self.in_bounds(x as int, y as int) {
                Some(&self.cell(x as int, y as int))
            } else {
                None
            },
    {
        if x < self.cells_x && y < self.cells_y {
            Some(&self.cells[x][y])
        } else {
            None
        }
    }

    /// Replaces the cell at `(x, y)` and keeps both running totals exact. An
    /// obstacle stays an obstacle.
    pub fn set_cell(&mut self, x: usize, y: usize, cell: Cell)
        requires
            old(self).wf(),
            old(self).in_bounds(x as int, y as int),
            old(self).cell(x as int, y as int) is Obstacle ==> cell is Obstacle,
        ensures
            final(self).wf(),
            old(self).keeps_obstacles(final(self)),
            final(self).same_frame(old(self)),
            final(self).cell(x as int, y as int) == cell,
            forall|i: int, j: int|
                old(self).in_bounds(i, j) && (i != x || j != y) ==> final(self).cell(i, j) == old(
                    self,
                ).cell(i, j),
            final(self).covered_cells == old(self).covered_cells + (if cell.is_marked() {
                1int
            } else {
                0int
            }) - (if old(self).cell(x as int, y as int).is_marked() {
                1int
            } else {
                0int
            }),
            final(self).cells_obstacles_count == old(self).cells_obstacles_count + (if cell is Obstacle {
                1int
            } else {
                0int
            }) - (if old(self).cell(x as int, y as int) is Obstacle {
                1int
            } else {
                0int
            }),
    {
        let previous = self.cells[x][y];
        proof {
            self.lemma_sets_finite();
        }
        let was_marked = matches!(previous, Cell::Covered(_) | Cell::CenterPoint(_));
        let now_marked = matches!(cell, Cell::Covered(_) | Cell::CenterPoint(_));
        let was_obstacle = previous.is_obstacle();
        let now_obstacle = cell.is_obstacle();
        let ghost p = (x as int, y as int);
        proof {
            if was_marked {
                assert(old(self).covered_set().contains(p));
            }
            if was_obstacle {
                assert(old(self).obstacle_set().contains(p));
            }
            let all = grid_points(self.cells_x as int, self.cells_y as int);
            lemma_grid_points(self.cells_x as int, self.cells_y as int);
            if !was_marked {
                assert(old(self).covered_set().insert(p).subset_of(all));
                lemma_len_subset(old(self).covered_set().insert(p), all);
            }
            if !was_obstacle {
                assert(old(self).obstacle_set().insert(p).subset_of(all));
                lemma_len_subset(old(self).obstacle_set().insert(p), all);
            }
        }
        let column = &mut self.cells[x];
        column[y] = cell;
        if was_marked && !now_marked {
            self.covered_cells = self.covered_cells - 1;
        } else if !was_marked && now_marked {
            self.covered_cells = self.covered_cells + 1;
        }
        if was_obstacle && !now_obstacle {
            self.cells_obstacles_count = self.cells_obstacles_count - 1;
        } else if !was_obstacle && now_obstacle {
            self.cells_obstacles_count = self.cells_obstacles_count + 1;
        }
        proof {
            assert(self.shape());
            let oc = old(self).covered_set();
            let oo = old(self).obstacle_set();
            if now_marked {
                assert(self.covered_set() =~= oc.insert(p));
            } else {
                assert(self.covered_set() =~= oc.remove(p));
            }
            if now_obstacle {
                assert(self.obstacle_set() =~= oo.insert(p));
            } else {
                assert(self.obstacle_set() =~= oo.remove(p));
            }
        }
    }
}


impl Grid {
    /// A marking pass with the cutter at `center` covers cell `(x, y)`: the
    /// cell lies within the cutter's reach of the centre cell, and the cutter
    /// covers it. For a radius that is not negative the reach holds back no
    /// cell that the cutter covers, see `lemma_covered_is_in_reach`.
    pub open spec fn footprint(
        &self,
        center: Vector,
        radius: int,
        blade_len: int,
        cutter_type: CutterType,
        x: int,
        y: int,
    ) -> bool {
        self.in_scan(center, radius, x, y) && cell_covered(
            self.cell_size as int,
            x,
            y,
            center.x as int,
            center.y as int,
            radius,
            blade_len,
            cutter_type,
        )
    }

    /// `(x, y)` is the cell that holds the point `center`.
    pub open spec fn is_center_cell(&self, center: Vector, x: int, y: int) -> bool {
        x == cell_index(center.x as int, self.cell_size as int) && y == cell_index(
            center.y as int,
            self.cell_size as int,
        )
    }

    /// No cell that a marking pass at `center` would touch is an obstacle.
    pub open spec fn footprint_clear(
        &self,
        center: Vector,
        radius: int,
        blade_len: int,
        cutter_type: CutterType,
        track_center: bool,
    ) -> bool {
        forall|x: int, y: int|
            self.in_bounds(x, y) && (self.footprint(center, radius, blade_len, cutter_type, x, y) || (
            track_center && self.is_center_cell(center, x, y))) ==> !(#[trigger] self.cell(x, y) is Obstacle)
    }

    /// Every covered cell that a pass of travel segment `segment` may count
    /// once more has a visit count that can still grow.
    pub open spec fn can_count(&self, segment: usize) -> bool {
        forall|x: int, y: int|
            self.in_bounds(x, y) && (#[trigger] self.cell(x, y)).is_marked() && self.cell(
                x,
                y,
            ).segment() != segment ==> self.cell(x, y).visits() < usize::MAX
    }

    /// The marks on the grid can stem from the travel segments up to
    /// `segment`: no covered cell was touched by a later segment, and none has
    /// more visits than segments had gone by when it was touched last.
    pub open spec fn marks_from(&self, segment: int) -> bool {
        forall|x: int, y: int|
            self.in_bounds(x, y) && (#[trigger] self.cell(x, y)).is_marked() ==> self.cell(
                x,
                y,
            ).segment() <= segment && self.cell(x, y).visits() <= self.cell(x, y).segment() + 1
    }

    /// Whether the cutter at `center` covers grid cell `(grid_cell_x, grid_cell_y)` entirely.
    pub fn is_cell_covered(
        &self,
        center: &Vector,
        radius: i32,
        blade_len: i32,
        grid_cell_x: usize,
        grid_cell_y: usize,
        cutter_type: CutterType,
    ) -> (covered: bool)
        requires
            self.cell_size > 0,
        ensures
            covered == cell_covered(
                self.cell_size as int,
                grid_cell_x as int,
                grid_cell_y as int,
                center.x as int,
                center.y as int,
                radius as int,
                blade_len as int,
                cutter_type,
            ),
    {
        let cs: i128 = self.cell_size as i128;
        assert(grid_cell_x * cs <= 0x1_0000_0000_0000_0000 * 0x8000_0000 && (grid_cell_x + 1) * cs
            <= 0x1_0000_0000_0000_0000 * 0x8000_0000 && grid_cell_x * cs >= 0) by (nonlinear_arith)
            requires
                0 <= grid_cell_x < 0x1_0000_0000_0000_0000,
                0 < cs < 0x8000_0000,
        ;
        assert(grid_cell_y * cs <= 0x1_0000_0000_0000_0000 * 0x8000_0000 && (grid_cell_y + 1) * cs
            <= 0x1_0000_0000_0000_0000 * 0x8000_0000 && grid_cell_y * cs >= 0) by (nonlinear_arith)
            requires
                0 <= grid_cell_y < 0x1_0000_0000_0000_0000,
                0 < cs < 0x8000_0000,
        ;
        let left: i128 = grid_cell_x as i128 * cs - center.x as i128;
        let right: i128 = (grid_cell_x as i128 + 1) * cs - center.x as i128;
        let bottom: i128 = grid_cell_y as i128 * cs - center.y as i128;
        let top: i128 = (grid_cell_y as i128 + 1) * cs - center.y as i128;
        let r: i64 = radius as i64;
        let outer = within_distance(left, bottom, r) && within_distance(right, bottom, r)
            && within_distance(left, top, r) && within_distance(right, top, r);
        if cutter_type == CutterType::Blade {
            let inner: i64 = radius as i64 - blade_len as i64;
            outer && beyond_distance(left, bottom, inner) && beyond_distance(right, bottom, inner)
                && beyond_distance(left, top, inner) && beyond_distance(right, top, inner)
        } else {
            outer
        }
    }

    /// A cell that a cutter of a radius that is not negative covers lies within
    /// the cutter's reach of the centre cell: the footprint of a marking pass
    /// is all that the cutter covers.
    pub proof fn lemma_covered_is_in_reach(
        &self,
        center: Vector,
        radius: int,
        blade_len: int,
        cutter_type: CutterType,
        x: int,
        y: int,
    )
        requires
            self.cell_size > 0,
            radius >= 0,
            x >= 0,
            y >= 0,
            cell_covered(
                self.cell_size as int,
                x,
                y,
                center.x as int,
                center.y as int,
                radius,
                blade_len,
                cutter_type,
            ),
        ensures
            self.footprint(center, radius, blade_len, cutter_type, x, y),
    {
        let cs = self.cell_size as int;
        let cx = center.x as int;
        let cy = center.y as int;
        assert(corner_within(cs, x, y, 0, 0, cx, cy, radius));
        assert(corner_within(cs, x, y, 1, 1, cx, cy, radius));
        let a = x * cs - cx;
        let b = y * cs - cy;
        let c = (x + 1) * cs - cx;
        let d = (y + 1) * cs - cy;
        assert(a * a <= radius * radius && b * b <= radius * radius) by (nonlinear_arith)
            requires
                a * a + b * b <= radius * radius,
        ;
        assert(c * c <= radius * radius && d * d <= radius * radius) by (nonlinear_arith)
            requires
                c * c + d * d <= radius * radius,
        ;
        lemma_covered_cell_in_reach(cs, x, cx, radius);
        lemma_covered_cell_in_reach(cs, y, cy, radius);
    }

    /// Whether a marking pass at `center` would touch no obstacle.
    #[verifier::loop_isolation(false)]
    pub fn is_footprint_clear(
        &self,
        center: &Vector,
        radius: i32,
        blade_len: i32,
        cutter_type: CutterType,
        track_center: bool,
    ) -> (clear: bool)
        requires
            self.shape(),
        ensures
            clear == self.footprint_clear(
                *center,
                radius as int,
                blade_len as int,
                cutter_type,
                track_center,
            ),
    {
        let cs = self.cell_size;
        let cx = cell_index_of(center.x, cs);
        let cy = cell_index_of(center.y, cs);
        let reach = scan_reach_of(radius, cs);
        let (x_lo, x_hi) = scan_range(cx, reach, self.cells_x);
        let (y_lo, y_hi) = scan_range(cy, reach, self.cells_y);
        let mut x = x_lo;
        while x < x_hi
            invariant
                self.shape(),
                cs == self.cell_size,
                x_lo <= x <= x_hi <= self.cells_x,
                y_lo <= y_hi <= self.cells_y,
                forall|i: int, j: int|
                    x_lo <= i < x && y_lo <= j < y_hi && self.footprint(
                        *center,
                        radius as int,
                        blade_len as int,
                        cutter_type,
                        i,
                        j,
                    ) ==> !(#[trigger] self.cell(i, j) is Obstacle),
            decreases x_hi - x,
        {
            let mut y = y_lo;
            while y < y_hi
                invariant
                    self.shape(),
                    cs == self.cell_size,
                    x_lo <= x < x_hi <= self.cells_x,
                    y_lo <= y <= y_hi <= self.cells_y,
                    forall|i: int, j: int|
                        ((x_lo <= i < x && y_lo <= j < y_hi) || (i == x && y_lo <= j < y))
                            && self.footprint(
                            *center,
                            radius as int,
                            blade_len as int,
                            cutter_type,
                            i,
                            j,
                        ) ==> !(#[trigger] self.cell(i, j) is Obstacle),
                decreases y_hi - y,
            {
                if self.cells[x][y].is_obstacle() && self.is_cell_covered(
                    center,
                    radius,
                    blade_len,
                    x,
                    y,
                    cutter_type,
                ) {
                    proof {
                        assert(clipped(x as int, cx as int, reach as int, self.cells_x as int));
                        assert(clipped(y as int, cy as int, reach as int, self.cells_y as int));
                        assert(self.cell(x as int, y as int) is Obstacle);
                    }
                    return false;
                }
                y += 1;
            }
            x += 1;
        }
        proof {
            assert forall|i: int, j: int|
                self.in_bounds(i, j) && self.footprint(
                    *center,
                    radius as int,
                    blade_len as int,
                    cutter_type,
                    i,
                    j,
                ) implies !(#[trigger] self.cell(i, j) is Obstacle) by {
                assert(clipped(i, cx as int, reach as int, self.cells_x as int));
                assert(clipped(j, cy as int, reach as int, self.cells_y as int));
            }
        }
        if track_center && (cx as usize) < self.cells_x && (cy as usize) < self.cells_y {
            if self.cells[cx as usize][cy as usize].is_obstacle() {
                proof {
                    assert(self.cell(cx as int, cy as int) is Obstacle);
                    assert(self.is_center_cell(*center, cx as int, cy as int));
                }
                return false;
            }
        }
        true
    }
}


impl Grid {
    /// Marks every cell that the cutter at `center` covers entirely, and, with
    /// `track_center`, marks the cell under the centre as the centre point.
    ///
    /// The covered-cell total grows by one for every cell that leaves `Empty`.
    /// The pass must not touch an obstacle: `is_footprint_clear` tells.
    #[verifier::loop_isolation(false)]
    pub fn mark_covered_cells(
        &mut self,
        center: &Vector,
        radius: i32,
        segment_number: usize,
        blade_len: i32,
        cutter_type: CutterType,
        track_center: bool,
    )
        requires
            old(self).wf(),
            old(self).can_count(segment_number),
            old(self).footprint_clear(
                *center,
                radius as int,
                blade_len as int,
                cutter_type,
                track_center,
            ),
        ensures
            final(self).wf(),
            final(self).same_frame(old(self)),
            forall|x: int, y: int|
                old(self).in_bounds(x, y) ==> #[trigger] final(self).cell(x, y) == cell_after_mark(
                    old(self).cell(x, y),
                    old(self).footprint(
                        *center,
                        radius as int,
                        blade_len as int,
                        cutter_type,
                        x,
                        y,
                    ),
                    track_center && old(self).is_center_cell(*center, x, y),
                    segment_number,
                ),
            old(self).only_grows(final(self)),
            final(self).cells_obstacles_count == old(self).cells_obstacles_count,
            final(self).covered_cells >= old(self).covered_cells,
    {
        let cs = self.cell_size;
        let cx = cell_index_of(center.x, cs);
        let cy = cell_index_of(center.y, cs);
        let reach = scan_reach_of(radius, cs);
        let (x_lo, x_hi) = scan_range(cx, reach, self.cells_x);
        let (y_lo, y_hi) = scan_range(cy, reach, self.cells_y);
        let mut x = x_lo;
        while x < x_hi
            invariant
                self.wf(),
                self.same_frame(old(self)),
                x_lo <= x <= x_hi <= self.cells_x,
                y_lo <= y_hi <= self.cells_y,
                self.cells_obstacles_count == old(self).cells_obstacles_count,
                self.covered_cells >= old(self).covered_cells,
                forall|i: int, j: int|
                    self.in_bounds(i, j) ==> #[trigger] self.cell(i, j) == (if x_lo <= i < x && y_lo
                        <= j < y_hi && old(self).footprint(
                        *center,
                        radius as int,
                        blade_len as int,
                        cutter_type,
                        i,
                        j,
                    ) {
                        cell_after_cover(old(self).cell(i, j), segment_number)
                    } else {
                        old(self).cell(i, j)
                    }),
            decreases x_hi - x,
        {
            let mut y = y_lo;
            while y < y_hi
                invariant
                    self.wf(),
                    self.same_frame(old(self)),
                    x_lo <= x < x_hi <= self.cells_x,
                    y_lo <= y <= y_hi <= self.cells_y,
                    self.cells_obstacles_count == old(self).cells_obstacles_count,
                    self.covered_cells >= old(self).covered_cells,
                    forall|i: int, j: int|
                        self.in_bounds(i, j) ==> #[trigger] self.cell(i, j) == (if ((x_lo <= i < x
                            && y_lo <= j < y_hi) || (i == x && y_lo <= j < y)) && old(
                            self,
                        ).footprint(*center, radius as int, blade_len as int, cutter_type, i, j) {
                            cell_after_cover(old(self).cell(i, j), segment_number)
                        } else {
                            old(self).cell(i, j)
                        }),
                decreases y_hi - y,
            {
                if self.is_cell_covered(center, radius, blade_len, x, y, cutter_type) {
                    proof {
                        assert(clipped(x as int, cx as int, reach as int, self.cells_x as int));
                        assert(clipped(y as int, cy as int, reach as int, self.cells_y as int));
                        assert(self.cell(x as int, y as int) == old(self).cell(x as int, y as int));
                        assert(!(old(self).cell(x as int, y as int) is Obstacle));
                    }
                    let current = self.cells[x][y];
                    match current {
                        Cell::Empty => {
                            self.set_cell(x, y, Cell::Covered(CoverageInfo::new(segment_number, 1)));
                        },
                        Cell::Covered(info) => {
                            if segment_number != info.segment_number {
                                self.set_cell(
                                    x,
                                    y,
                                    Cell::Covered(
                                        CoverageInfo::new(segment_number, info.times_visited + 1),
                                    ),
                                );
                            }
                        },
                        Cell::CenterPoint(info) => {
                            if segment_number != info.segment_number {
                                self.set_cell(
                                    x,
                                    y,
                                    Cell::CenterPoint(
                                        CoverageInfo::new(segment_number, info.times_visited + 1),
                                    ),
                                );
                            }
                        },
                        Cell::Obstacle => {},
                    }
                }
                y += 1;
            }
            x += 1;
        }
        proof {
            assert forall|i: int, j: int| self.in_bounds(i, j) implies #[trigger] self.cell(i, j) == (
            if old(self).footprint(*center, radius as int, blade_len as int, cutter_type, i, j) {
                cell_after_cover(old(self).cell(i, j), segment_number)
            } else {
                old(self).cell(i, j)
            }) by {
                if old(self).footprint(*center, radius as int, blade_len as int, cutter_type, i, j) {
                    assert(clipped(i, cx as int, reach as int, self.cells_x as int));
                    assert(clipped(j, cy as int, reach as int, self.cells_y as int));
                }
            }
        }
        if track_center && (cx as usize) < self.cells_x && (cy as usize) < self.cells_y {
            let ux = cx as usize;
            let uy = cy as usize;
            proof {
                assert(old(self).is_center_cell(*center, ux as int, uy as int));
                assert(!(old(self).cell(ux as int, uy as int) is Obstacle));
                assert(self.cell(ux as int, uy as int) == old(self).cell(ux as int, uy as int)
                    || self.cell(ux as int, uy as int) == cell_after_cover(
                    old(self).cell(ux as int, uy as int),
                    segment_number,
                ));
            }
            let current = self.cells[ux][uy];
            match current {
                Cell::Empty => {
                    self.set_cell(ux, uy, Cell::CenterPoint(CoverageInfo::new(segment_number, 1)));
                },
                Cell::Covered(info) => {
                    self.set_cell(
                        ux,
                        uy,
                        Cell::CenterPoint(
                            CoverageInfo::new(info.segment_number, info.times_visited),
                        ),
                    );
                },
                Cell::CenterPoint(info) => {
                    if segment_number != info.segment_number {
                        self.set_cell(
                            ux,
                            uy,
                            Cell::CenterPoint(
                                CoverageInfo::new(segment_number, info.times_visited + 1),
                            ),
                        );
                    }
                },
                Cell::Obstacle => {},
            }
        }
    }
}


/// Covered share of the usable cells in thousandths of a percent, rounded
/// down; 0 where no cell is usable.
pub open spec fn coverage_percent_of(covered: int, usable: int) -> int {
    if usable <= 0 {
        0
    } else {
        covered * 100_000 / usable
    }
}

impl Grid {
    /// Cell `(x, y)` lies in the square of cells that a collision check around
    /// `center` walks.
    pub open spec fn in_scan(&self, center: Vector, radius: int, x: int, y: int) -> bool {
        in_reach(x, center.x as int, radius, self.cell_size as int) && in_reach(
            y,
            center.y as int,
            radius,
            self.cell_size as int,
        )
    }

    /// The exact check: an obstacle cell lies within the scan reach of the cell
    /// that holds `center`.
    pub open spec fn scan_hits(&self, center: Vector, radius: int) -> bool {
        exists|x: int, y: int|
            self.in_bounds(x, y) && self.in_scan(center, radius, x, y) && #[trigger] self.cell(x, y) is Obstacle
    }

    /// The spatial index is in use and rules a collision out.
    pub open spec fn index_rules_out(&self, center: Vector, radius: int) -> bool {
        self.use_quad_tree && match self.quadtree {
            Some(tree) => !tree.may_collide(center.x as int, center.y as int, radius),
            None => false,
        }
    }

    /// Builds the spatial index for a cutter of the given radius and keeps it.
    pub fn init_spatial_index(&mut self, cutter_radius: i32, min_qnode_size: i32)
        requires
            old(self).shape(),
            cutter_radius >= 0,
            min_qnode_size >= 0,
        ensures
            final(self).cells == old(self).cells,
            final(self).cell_size == old(self).cell_size,
            final(self).cells_x == old(self).cells_x,
            final(self).cells_y == old(self).cells_y,
            final(self).covered_cells == old(self).covered_cells,
            final(self).cells_obstacles_count == old(self).cells_obstacles_count,
            final(self).num_detailed_collision_checks == old(self).num_detailed_collision_checks,
            final(self).use_quad_tree == old(self).use_quad_tree,
            final(self).quadtree matches Some(tree) && {
                &&& tree.indexes(old(self), cutter_radius as int)
                &&& tree.min_node_size == min_node_size_for(cutter_radius as int, min_qnode_size as int)
                &&& tree.root.bounds == (QuadTreeBounds {
                    x: 0,
                    y: 0,
                    width: (old(self).cells_x * old(self).cell_size) as i32,
                    height: (old(self).cells_y * old(self).cell_size) as i32,
                })
            },
    {
        let quad_tree = QuadTree::build_from_grid(self, cutter_radius, min_qnode_size);
        self.quadtree = Some(quad_tree);
    }

    /// Index of the column that holds world coordinate `x`.
    pub fn world_coordinate_to_grid_x(&self, x: i32) -> (gx: usize)
        requires
            self.cell_size > 0,
        ensures
            gx == cell_index(x as int, self.cell_size as int),
    {
        cell_index_of(x, self.cell_size) as usize
    }

    /// Index of the row that holds world coordinate `y`.
    pub fn world_coordinate_to_grid_y(&self, y: i32) -> (gy: usize)
        requires
            self.cell_size > 0,
        ensures
            gy == cell_index(y as int, self.cell_size as int),
    {
        cell_index_of(y, self.cell_size) as usize
    }

    /// Indices of the cell that holds the world point `(x, y)`.
    pub fn world_coordinate_to_grid(&self, x: i32, y: i32) -> (g: (usize, usize))
        requires
            self.cell_size > 0,
        ensures
            g.0 == cell_index(x as int, self.cell_size as int),
            g.1 == cell_index(y as int, self.cell_size as int),
    {
        let grid_x = self.world_coordinate_to_grid_x(x);
        let grid_y = self.world_coordinate_to_grid_y(y);
        (grid_x, grid_y)
    }

    /// World coordinates of the lower left corner of cell `(grid_x, grid_y)`.
    /// The indices may be one past the last cell, for the grid's far edges.
    pub fn grid_to_world_coordinate(&self, grid_x: usize, grid_y: usize) -> (w: (i32, i32))
        requires
            self.shape(),
            grid_x <= self.cells_x,
            grid_y <= self.cells_y,
        ensures
            w.0 == grid_x * self.cell_size,
            w.1 == grid_y * self.cell_size,
    {
        assert(0 <= grid_x * self.cell_size <= self.cells_x * self.cell_size && grid_x
            <= self.cells_x * self.cell_size) by (nonlinear_arith)
            requires
                0 <= grid_x <= self.cells_x,
                self.cell_size > 0,
        ;
        assert(0 <= grid_y * self.cell_size <= self.cells_y * self.cell_size && grid_y
            <= self.cells_y * self.cell_size) by (nonlinear_arith)
            requires
                0 <= grid_y <= self.cells_y,
                self.cell_size > 0,
        ;
        let x = grid_x as i32 * self.cell_size;
        let y = grid_y as i32 * self.cell_size;
        (x, y)
    }

    /// Whether the cutter at `center` touches an obstacle. Where the spatial
    /// index is in use and rules a collision out, the answer is `false` at
    /// once; otherwise every cell within the scan reach of the centre cell is
    /// looked at, and the number of detailed checks grows by one (it stops
    /// growing at the largest number).
    #[verifier::loop_isolation(false)]
    pub fn collision_with_obstacle(&mut self, center: &Vector, radius: i32) -> (hit: bool)
        requires
            old(self).shape(),
        ensures
            hit == (!old(self).index_rules_out(*center, radius as int) && old(self).scan_hits(
                *center,
                radius as int,
            )),
            final(self).cells == old(self).cells,
            final(self).cell_size == old(self).cell_size,
            final(self).cells_x == old(self).cells_x,
            final(self).cells_y == old(self).cells_y,
            final(self).covered_cells == old(self).covered_cells,
            final(self).cells_obstacles_count == old(self).cells_obstacles_count,
            final(self).quadtree == old(self).quadtree,
            final(self).use_quad_tree == old(self).use_quad_tree,
            final(self).num_detailed_collision_checks == (if old(self).index_rules_out(
                *center,
                radius as int,
            ) || old(self).num_detailed_collision_checks == usize::MAX {
                old(self).num_detailed_collision_checks as int
            } else {
                old(self).num_detailed_collision_checks + 1
            }),
    {
        if self.use_quad_tree {
            if let Some(quad_tree) = &self.quadtree {
                if !quad_tree.might_have_collision(center.x, center.y, radius) {
                    return false;
                }
            }
        }
        if self.num_detailed_collision_checks < usize::MAX {
            self.num_detailed_collision_checks += 1;
        }
        let cs = self.cell_size;
        let cx = cell_index_of(center.x, cs);
        let cy = cell_index_of(center.y, cs);
        let reach = scan_reach_of(radius, cs);
        let (x_lo, x_hi) = scan_range(cx, reach, self.cells_x);
        let (y_lo, y_hi) = scan_range(cy, reach, self.cells_y);
        let mut x = x_lo;
        while x < x_hi
            invariant
                x_lo <= x <= x_hi,
                self.cells == old(self).cells,
                forall|i: int, j: int|
                    x_lo <= i < x && y_lo <= j < y_hi ==> !(#[trigger] self.cell(i, j) is Obstacle),
            decreases x_hi - x,
        {
            let mut y = y_lo;
            while y < y_hi
                invariant
                    x_lo <= x < x_hi,
                    y_lo <= y <= y_hi,
                    self.cells == old(self).cells,
                    forall|i: int, j: int|
                        ((x_lo <= i < x && y_lo <= j < y_hi) || (i == x && y_lo <= j < y)) ==> !(
                        #[trigger] self.cell(i, j) is Obstacle),
                decreases y_hi - y,
            {
                if self.cells[x][y].is_obstacle() {
                    proof {
                        assert(clipped(x as int, cx as int, reach as int, self.cells_x as int));
                        assert(clipped(y as int, cy as int, reach as int, self.cells_y as int));
                        assert(old(self).cell(x as int, y as int) is Obstacle);
                        assert(old(self).in_scan(*center, radius as int, x as int, y as int));
                    }
                    return true;
                }
                y += 1;
            }
            x += 1;
        }
        proof {
            assert forall|i: int, j: int|
                old(self).in_bounds(i, j) && old(self).in_scan(*center, radius as int, i, j) implies !(
            #[trigger] old(self).cell(i, j) is Obstacle) by {
                assert(clipped(i, cx as int, reach as int, self.cells_x as int));
                assert(clipped(j, cy as int, reach as int, self.cells_y as int));
                assert(self.cell(i, j) == old(self).cell(i, j));
            }
        }
        false
    }

    /// The number of covered cells.
    pub fn get_coverage_count(&self) -> (n: usize)
        ensures
            n == self.covered_cells,
    {
        self.covered_cells
    }

    /// The number of obstacle cells.
    pub fn get_obstacle_count(&self) -> (n: usize)
        ensures
            n == self.cells_obstacles_count,
    {
        self.cells_obstacles_count
    }

    /// Covered share of the cells that are no obstacle, in thousandths of a
    /// percent.
    pub fn get_coverage_percent(&self) -> (percent: u32)
        requires
            self.wf(),
        ensures
            percent == coverage_percent_of(
                self.covered_cells as int,
                self.cells_x * self.cells_y - self.cells_obstacles_count,
            ),
            percent <= 100_000,
    {
        proof {
            self.lemma_sets_finite();
        }
        if self.cells_x == 0 || self.cells_y == 0 {
            assert(self.cells_x * self.cells_y == 0) by (nonlinear_arith)
                requires
                    self.cells_x == 0 || self.cells_y == 0,
            ;
            return 0;
        }
        let total: usize = self.cells_x * self.cells_y;
        let usable: usize = total - self.cells_obstacles_count;
        if usable == 0 {
            return 0;
        }
        let scaled: u128 = self.covered_cells as u128 * 100_000;
        let percent: u128 = scaled / (usable as u128);
        assert(percent <= 100_000) by (nonlinear_arith)
            requires
                percent == (self.covered_cells * 100_000) / (usable as int),
                0 <= self.covered_cells <= usable,
                usable > 0,
        ;
        percent as u32
    }

    /// The covered-cell total together with the coverage percentage.
    pub fn get_coverage(&self) -> (c: (usize, u32))
        requires
            self.wf(),
        ensures
            c.0 == self.covered_cells,
            c.1 == coverage_percent_of(
                self.covered_cells as int,
                self.cells_x * self.cells_y - self.cells_obstacles_count,
            ),
    {
        let count = self.get_coverage_count();
        let percent = self.get_coverage_percent();
        (count, percent)
    }
}


impl Grid {
    /// Counts the obstacle cells anew and stores the count.
    #[verifier::loop_isolation(false)]
    pub fn update_obstacle_cells_count(&mut self)
        requires
            old(self).shape(),
        ensures
            final(self).cells == old(self).cells,
            final(self).same_frame(old(self)),
            final(self).covered_cells == old(self).covered_cells,
            final(self).cells_obstacles_count == final(self).obstacle_set().len(),
    {
        let ghost h = self.cells_y as int;
        let ghost obstacles = self.obstacle_set();
        let mut count: usize = 0;
        let mut x: usize = 0;
        proof {
            lemma_points_before(h, 0, 0);
            assert(obstacles.intersect(points_before(h, 0, 0)) =~= Set::<(int, int)>::empty());
        }
        while x < self.cells_x
            invariant
                x <= self.cells_x,
                count == obstacles.intersect(points_before(h, x as int, 0)).len(),
            decreases self.cells_x - x,
        {
            let mut y: usize = 0;
            while y < self.cells_y
                invariant
                    x < self.cells_x,
                    y <= self.cells_y,
                    count == obstacles.intersect(points_before(h, x as int, y as int)).len(),
                decreases self.cells_y - y,
            {
                proof {
                    let before = points_before(h, x as int, y as int);
                    let after = points_before(h, x as int, y + 1);
                    lemma_points_before(h, x as int, y as int);
                    lemma_points_before(h, x as int, y + 1);
                    lemma_len_subset(obstacles.intersect(before), before);
                    assert(x * h + y < self.cells_x * h) by (nonlinear_arith)
                        requires
                            0 <= x < self.cells_x,
                            0 <= y < h,
                    ;
                    if self.cell(x as int, y as int) is Obstacle {
                        assert(obstacles.intersect(after) =~= obstacles.intersect(before).insert(
                            (x as int, y as int),
                        ));
                    } else {
                        assert(obstacles.intersect(after) =~= obstacles.intersect(before));
                    }
                }
                if self.cells[x][y].is_obstacle() {
                    count += 1;
                }
                y += 1;
            }
            proof {
                assert(points_before(h, x as int, h) =~= points_before(h, x + 1, 0));
            }
            x += 1;
        }
        proof {
            assert(obstacles.intersect(points_before(h, self.cells_x as int, 0)) =~= obstacles);
        }
        self.cells_obstacles_count = count;
        proof {
            assert(self.obstacle_set() =~= obstacles);
        }
    }

    /// `most` is the largest visit count among the `Covered` cells, or 0
    /// where there is none.
    pub open spec fn is_max_visited(&self, most: int) -> bool {
        &&& forall|x: int, y: int|
            self.in_bounds(x, y) && #[trigger] self.cell(x, y) is Covered ==> self.cell(
                x,
                y,
            ).visits() <= most
        &&& most == 0 || exists|x: int, y: int|
            self.in_bounds(x, y) && #[trigger] self.cell(x, y) is Covered && self.cell(
                x,
                y,
            ).visits() == most
    }

    /// `least` is the smallest visit count among the `Covered` cells, or 0
    /// where there is none.
    pub open spec fn is_min_visited(&self, least: int) -> bool {
        &&& forall|x: int, y: int|
            self.in_bounds(x, y) && #[trigger] self.cell(x, y) is Covered ==> least <= self.cell(
                x,
                y,
            ).visits()
        &&& (exists|x: int, y: int|
            self.in_bounds(x, y) && #[trigger] self.cell(x, y) is Covered && self.cell(
                x,
                y,
            ).visits() == least) || (least == 0 && forall|x: int, y: int|
            self.in_bounds(x, y) ==> !(#[trigger] self.cell(x, y) is Covered))
    }

    /// The largest visit count among the `Covered` cells, 0 where there is none.
    #[verifier::loop_isolation(false)]
    pub fn get_max_visited_number(&self) -> (most: usize)
        requires
            self.shape(),
        ensures
            self.is_max_visited(most as int),
    {
        let mut most: usize = 0;
        let mut x: usize = 0;
        while x < self.cells_x
            invariant
                x <= self.cells_x,
                forall|i: int, j: int|
                    0 <= i < x && 0 <= j < self.cells_y && #[trigger] self.cell(i, j) is Covered
                        ==> self.cell(i, j).visits() <= most,
                most == 0 || exists|i: int, j: int|
                    self.in_bounds(i, j) && #[trigger] self.cell(i, j) is Covered && self.cell(
                        i,
                        j,
                    ).visits() == most,
            decreases self.cells_x - x,
        {
            let mut y: usize = 0;
            while y < self.cells_y
                invariant
                    x < self.cells_x,
                    y <= self.cells_y,
                    forall|i: int, j: int|
                        ((0 <= i < x && 0 <= j < self.cells_y) || (i == x && 0 <= j < y))
                            && #[trigger] self.cell(i, j) is Covered ==> self.cell(i, j).visits()
                            <= most,
                    most == 0 || exists|i: int, j: int|
                        self.in_bounds(i, j) && #[trigger] self.cell(i, j) is Covered && self.cell(
                            i,
                            j,
                        ).visits() == most,
                decreases self.cells_y - y,
            {
                if let Cell::Covered(info) = self.cells[x][y] {
                    if info.times_visited > most {
                        most = info.times_visited;
                        assert(self.cell(x as int, y as int) is Covered && self.cell(
                            x as int,
                            y as int,
                        ).visits() == most);
                    }
                }
                y += 1;
            }
            x += 1;
        }
        most
    }

    /// The smallest visit count among the `Covered` cells, 0 where there is none.
    #[verifier::loop_isolation(false)]
    pub fn get_min_visited_number(&self) -> (least: usize)
        requires
            self.shape(),
        ensures
            self.is_min_visited(least as int),
    {
        let mut least: usize = 0;
        let mut seen = false;
        let mut x: usize = 0;
        while x < self.cells_x
            invariant
                x <= self.cells_x,
                !seen ==> least == 0,
                forall|i: int, j: int|
                    0 <= i < x && 0 <= j < self.cells_y && #[trigger] self.cell(i, j) is Covered
                        ==> seen && least <= self.cell(i, j).visits(),
                seen ==> exists|i: int, j: int|
                    self.in_bounds(i, j) && #[trigger] self.cell(i, j) is Covered && self.cell(
                        i,
                        j,
                    ).visits() == least,
            decreases self.cells_x - x,
        {
            let mut y: usize = 0;
            while y < self.cells_y
                invariant
                    x < self.cells_x,
                    y <= self.cells_y,
                    !seen ==> least == 0,
                    forall|i: int, j: int|
                        ((0 <= i < x && 0 <= j < self.cells_y) || (i == x && 0 <= j < y))
                            && #[trigger] self.cell(i, j) is Covered ==> seen && least <= self.cell(
                            i,
                            j,
                        ).visits(),
                    seen ==> exists|i: int, j: int|
                        self.in_bounds(i, j) && #[trigger] self.cell(i, j) is Covered && self.cell(
                            i,
                            j,
                        ).visits() == least,
                decreases self.cells_y - y,
            {
                if let Cell::Covered(info) = self.cells[x][y] {
                    if !seen || info.times_visited < least {
                        least = info.times_visited;
                        seen = true;
                        assert(self.cell(x as int, y as int) is Covered && self.cell(
                            x as int,
                            y as int,
                        ).visits() == least);
                    }
                }
                y += 1;
            }
            x += 1;
        }
        least
    }
}


impl Grid {
    /// `after` is `self` after one marking pass of travel segment `segment`
    /// with the cutter at `center`.
    pub open spec fn marked_as(
        &self,
        after: &Grid,
        center: Vector,
        radius: int,
        blade_len: int,
        cutter_type: CutterType,
        track_center: bool,
        segment: usize,
    ) -> bool {
        &&& after.cells_x == self.cells_x
        &&& after.cells_y == self.cells_y
        &&& after.cell_size == self.cell_size
        &&& forall|x: int, y: int|
            self.in_bounds(x, y) ==> #[trigger] after.cell(x, y) == cell_after_mark(
                self.cell(x, y),
                self.footprint(center, radius, blade_len, cutter_type, x, y),
                track_center && self.is_center_cell(center, x, y),
                segment,
            )
    }

    /// Marks that stem from the segments up to `segment` leave room to count a
    /// visit of a segment that is not the last one there is.
    pub proof fn lemma_marks_can_count(&self, segment: usize)
        requires
            self.marks_from(segment as int),
            segment < usize::MAX,
        ensures
            self.can_count(segment),
    {
        assert forall|x: int, y: int|
            self.in_bounds(x, y) && (#[trigger] self.cell(x, y)).is_marked() && self.cell(
                x,
                y,
            ).segment() != segment implies self.cell(x, y).visits() < usize::MAX by {
            assert(self.cell(x, y).segment() <= segment);
        }
    }

    /// A marking pass that touches no obstacle keeps the marks in step with
    /// the segments.
    pub proof fn lemma_marking_keeps_marks_from(
        &self,
        after: &Grid,
        center: Vector,
        radius: int,
        blade_len: int,
        cutter_type: CutterType,
        track_center: bool,
        segment: usize,
    )
        requires
            self.marked_as(after, center, radius, blade_len, cutter_type, track_center, segment),
            self.marks_from(segment as int),
            segment < usize::MAX,
        ensures
            after.marks_from(segment as int),
    {
        assert forall|x: int, y: int|
            after.in_bounds(x, y) && (#[trigger] after.cell(x, y)).is_marked() implies after.cell(
            x,
            y,
        ).segment() <= segment && after.cell(x, y).visits() <= after.cell(x, y).segment() + 1 by {
            let before = self.cell(x, y);
            if before.is_marked() {
                assert(before.segment() <= segment);
                assert(before.visits() <= before.segment() + 1);
            }
        }
    }
}


impl Grid {
    /// All cells, column by column: the cell at `(x, y)` comes at place
    /// `x * cells_y + y`.
    #[verifier::loop_isolation(false)]
    pub fn get_cell_iter(&self) -> (cells: Vec<Cell>)
        requires
            self.shape(),
        ensures
            cells@.len() == self.cells_x * self.cells_y,
            forall|x: int, y: int|
                self.in_bounds(x, y) ==> cells@[x * self.cells_y + y] == #[trigger] self.cell(x, y),
    {
        let mut cells: Vec<Cell> = Vec::new();
        let mut x: usize = 0;
        while x < self.cells_x
            invariant
                x <= self.cells_x,
                cells@.len() == x * self.cells_y,
                forall|i: int, j: int|
                    0 <= i < x && 0 <= j < self.cells_y ==> cells@[i * self.cells_y + j]
                        == #[trigger] self.cell(i, j),
            decreases self.cells_x - x,
        {
            let mut y: usize = 0;
            while y < self.cells_y
                invariant
                    x < self.cells_x,
                    y <= self.cells_y,
                    cells@.len() == x * self.cells_y + y,
                    forall|i: int, j: int|
                        ((0 <= i < x && 0 <= j < self.cells_y) || (i == x && 0 <= j < y)) ==> cells@[i
                            * self.cells_y + j] == #[trigger] self.cell(i, j),
                decreases self.cells_y - y,
            {
                let ghost before = cells@;
                cells.push(self.cells[x][y]);
                proof {
                    assert forall|i: int, j: int|
                        ((0 <= i < x && 0 <= j < self.cells_y) || (i == x && 0 <= j < y + 1)) implies cells@[i
                        * self.cells_y + j] == #[trigger] self.cell(i, j) by {
                        if i < x {
                            assert(i * self.cells_y + j < x * self.cells_y) by (nonlinear_arith)
                                requires
                                    0 <= i < x,
                                    0 <= j < self.cells_y,
                            ;
                            assert(before[i * self.cells_y + j] == self.cell(i, j));
                        } else if j < y {
                            assert(before[i * self.cells_y + j] == self.cell(i, j));
                        }
                    }
                }
                y += 1;
            }
            proof {
                assert((x + 1) * self.cells_y == x * self.cells_y + self.cells_y) by (nonlinear_arith);
            }
            x += 1;
        }
        cells
    }
}


impl Grid {
    /// Where a marking pass would touch an obstacle, the grid has an obstacle
    /// cell.
    pub proof fn lemma_blocked_has_obstacle(
        &self,
        center: Vector,
        radius: int,
        blade_len: int,
        cutter_type: CutterType,
        track_center: bool,
    )
        requires
            self.wf(),
            !self.footprint_clear(center, radius, blade_len, cutter_type, track_center),
        ensures
            self.cells_obstacles_count > 0,
    {
        let (x, y) = choose|x: int, y: int|
            self.in_bounds(x, y) && (self.footprint(center, radius, blade_len, cutter_type, x, y) || (
            track_center && self.is_center_cell(center, x, y))) && #[trigger] self.cell(x, y) is Obstacle;
        assert(self.obstacle_set().contains((x, y)));
        self.lemma_sets_finite();
        if self.obstacle_set().len() == 0 {
            self.obstacle_set().lemma_len0_is_empty();
            assert(Set::<(int, int)>::empty().contains((x, y)));
        }
    }

    /// Grids of the same size with the same obstacle cells stand in the way of
    /// the same marking passes.
    pub proof fn lemma_same_obstacles_same_clearance(
        &self,
        other: &Grid,
        center: Vector,
        radius: int,
        blade_len: int,
        cutter_type: CutterType,
        track_center: bool,
    )
        requires
            self.cells_x == other.cells_x,
            self.cells_y == other.cells_y,
            self.cell_size == other.cell_size,
            self.only_grows(other),
        ensures
            self.footprint_clear(center, radius, blade_len, cutter_type, track_center)
                == other.footprint_clear(center, radius, blade_len, cutter_type, track_center),
    {
        if !self.footprint_clear(center, radius, blade_len, cutter_type, track_center) {
            let (x, y) = choose|x: int, y: int|
                self.in_bounds(x, y) && (self.footprint(center, radius, blade_len, cutter_type, x, y)
                    || (track_center && self.is_center_cell(center, x, y))) && #[trigger] self.cell(
                    x,
                    y,
                ) is Obstacle;
            assert(other.cell(x, y) is Obstacle);
            assert(other.footprint(center, radius, blade_len, cutter_type, x, y) == self.footprint(
                center,
                radius,
                blade_len,
                cutter_type,
                x,
                y,
            ));
        }
        if !other.footprint_clear(center, radius, blade_len, cutter_type, track_center) {
            let (x, y) = choose|x: int, y: int|
                other.in_bounds(x, y) && (other.footprint(
                    center,
                    radius,
                    blade_len,
                    cutter_type,
                    x,
                    y,
                ) || (track_center && other.is_center_cell(center, x, y))) && #[trigger] other.cell(
                    x,
                    y,
                ) is Obstacle;
            assert((self.cell(x, y) is Obstacle) == (other.cell(x, y) is Obstacle));
            assert(other.footprint(center, radius, blade_len, cutter_type, x, y) == self.footprint(
                center,
                radius,
                blade_len,
                cutter_type,
                x,
                y,
            ));
        }
    }
}

} // verus!
