use crate::color_theme::ColorTheme;
use crate::color_theme::ColorThemeManager;
use crate::geometry::cell_index;
use crate::geometry::cell_index_of;
use crate::geometry::clamp_coordinate;
use crate::geometry::clamp_to_coordinate;
use crate::model::SimModel;
use crate::model::TICKS_PER_SECOND;
use crate::model::grid::Cell;
use crate::model::grid::Grid;
use crate::model::grid::coverage_percent_of;
use crate::model::quadtree::QuadTreeBounds;
use crate::model::quadtree::QuadTreeNode;
use vstd::prelude::*;

verus! {

/// A raster picture: `height` rows of `width` pixels, the first row on top.
/// A pixel is a colour of red, green and blue.
#[derive(Debug)]
pub struct Canvas {
    pub width: u32,
    pub height: u32,
    /// The pixels, indexed `rows[y][x]`.
    pub rows: Vec<Vec<[u8; 3]>>,
}

impl Canvas {
    /// The rows have the stated dimensions.
    pub open spec fn wf(&self) -> bool {
        &&& self.rows@.len() == self.height
        &&& forall|y: int| 0 <= y < self.height ==> (#[trigger] self.rows@[y])@.len() == self.width
    }

    /// The picture has a pixel in column `x` of row `y`.
    pub open spec fn holds(&self, x: int, y: int) -> bool {
        0 <= x < self.width && 0 <= y < self.height
    }

    /// The pixel in column `x` of row `y`.
    pub open spec fn pixel(&self, x: int, y: int) -> [u8; 3]
        recommends
            self.holds(x, y),
    {
        self.rows@[y]@[x]
    }

    /// `self` and `other` have the same dimensions.
    pub open spec fn same_size(&self, other: &Canvas) -> bool {
        self.width == other.width && self.height == other.height
    }

    /// A picture of one colour.
    pub fn new(width: u32, height: u32, color: [u8; 3]) -> (img: Self)
        ensures
            img.wf(),
            img.width == width,
            img.height == height,
            forall|x: int, y: int| img.holds(x, y) ==> #[trigger] img.pixel(x, y) == color,
    {
        let mut rows: Vec<Vec<[u8; 3]>> = Vec::new();
        let mut y: u32 = 0;
        while y < height
            invariant
                y <= height,
                rows@.len() == y,
                forall|j: int| 0 <= j < y ==> (#[trigger] rows@[j])@.len() == width,
                forall|i: int, j: int|
                    0 <= j < y && 0 <= i < width ==> (#[trigger] rows@[j]@[i]) == color,
            decreases height - y,
        {
            let mut row: Vec<[u8; 3]> = Vec::new();
            let mut x: u32 = 0;
            while x < width
                invariant
                    x <= width,
                    row@.len() == x,
                    forall|i: int| 0 <= i < x ==> (#[trigger] row@[i]) == color,
                decreases width - x,
            {
                row.push(color);
                x += 1;
            }
            rows.push(row);
            y += 1;
        }
        Canvas { width, height, rows }
    }

    /// The colour of a pixel.
    pub fn get_pixel(&self, x: u32, y: u32) -> (color: [u8; 3])
        requires
            self.wf(),
            self.holds(x as int, y as int),
        ensures
            color == self.pixel(x as int, y as int),
    {
        self.rows[y as usize][x as usize]
    }

    /// Gives a pixel a colour.
    pub fn put_pixel(&mut self, x: u32, y: u32, color: [u8; 3])
        requires
            old(self).wf(),
            old(self).holds(x as int, y as int),
        ensures
            final(self).wf(),
            final(self).same_size(old(self)),
            forall|i: int, j: int|
                old(self).holds(i, j) ==> #[trigger] final(self).pixel(i, j) == (if i == x && j == y {
                    color
                } else {
                    old(self).pixel(i, j)
                }),
    {
        let row = &mut self.rows[y as usize];
        row[x as usize] = color;
    }
}

/// Draws a vertical line in column `x` from row `start_y` to row `end_y`,
/// both included.
pub fn vert_line_to_image(img: &mut Canvas, x: u32, start_y: u32, end_y: u32, color: [u8; 3])
    requires
        old(img).wf(),
        start_y <= end_y ==> x < old(img).width && end_y < old(img).height,
    ensures
        final(img).wf(),
        final(img).same_size(old(img)),
        forall|i: int, j: int|
            old(img).holds(i, j) ==> #[trigger] final(img).pixel(i, j) == (if i == x && start_y <= j
                <= end_y {
                color
            } else {
                old(img).pixel(i, j)
            }),
{
    if start_y > end_y {
        return ;
    }
    let mut y = start_y;
    while y <= end_y
        invariant
            start_y <= y <= end_y + 1,
            x < img.width,
            end_y < img.height,
            img.wf(),
            img.same_size(old(img)),
            forall|i: int, j: int|
                img.holds(i, j) ==> #[trigger] img.pixel(i, j) == (if i == x && start_y <= j < y {
                    color
                } else {
                    old(img).pixel(i, j)
                }),
        decreases end_y + 1 - y,
    {
        img.put_pixel(x, y, color);
        y += 1;
    }
}

/// Draws a horizontal line in row `y` from column `start_x` to column
/// `end_x`, both included.
pub fn horiz_line_to_image(img: &mut Canvas, y: u32, start_x: u32, end_x: u32, color: [u8; 3])
    requires
        old(img).wf(),
        start_x <= end_x ==> y < old(img).height && end_x < old(img).width,
    ensures
        final(img).wf(),
        final(img).same_size(old(img)),
        forall|i: int, j: int|
            old(img).holds(i, j) ==> #[trigger] final(img).pixel(i, j) == (if j == y && start_x <= i
                <= end_x {
                color
            } else {
                old(img).pixel(i, j)
            }),
{
    if start_x > end_x {
        return ;
    }
    let mut x = start_x;
    while x <= end_x
        invariant
            start_x <= x <= end_x + 1,
            y < img.height,
            end_x < img.width,
            img.wf(),
            img.same_size(old(img)),
            forall|i: int, j: int|
                img.holds(i, j) ==> #[trigger] img.pixel(i, j) == (if j == y && start_x <= i < x {
                    color
                } else {
                    old(img).pixel(i, j)
                }),
        decreases end_x + 1 - x,
    {
        img.put_pixel(x, y, color);
        x += 1;
    }
}

/// One part of a colour at the given brightness in percent, rounded down and
/// no brighter than full.
pub open spec fn adjusted(part: u8, percent: int) -> u8 {
    if part * percent / 100 > 255 {
        255
    } else {
        (part * percent / 100) as u8
    }
}

/// A colour at the given brightness in percent.
pub open spec fn adjusted_color(color: [u8; 3], percent: int) -> [u8; 3] {
    [adjusted(color[0], percent), adjusted(color[1], percent), adjusted(color[2], percent)]
}

/// A colour at the given brightness in percent, see `adjusted_color`.
pub fn adjust_color(color: [u8; 3], percent: u32) -> (c: [u8; 3])
    ensures
        c == adjusted_color(color, percent as int),
{
    let r = adjust_part(color[0], percent);
    let g = adjust_part(color[1], percent);
    let b = adjust_part(color[2], percent);
    let c = [r, g, b];
    assert(c =~= adjusted_color(color, percent as int));
    c
}

/// One part of a colour at the given brightness in percent, see `adjusted`.
pub fn adjust_part(part: u8, percent: u32) -> (p: u8)
    ensures
        p == adjusted(part, percent as int),
{
    assert(0 <= part * percent <= 0x100 * 0x1_0000_0000) by (nonlinear_arith)
        requires
            0 <= part <= 0x100,
            0 <= percent <= 0x1_0000_0000,
    ;
    let scaled: u64 = part as u64 * percent as u64 / 100;
    if scaled > 255 {
        255
    } else {
        scaled as u8
    }
}

/// Dims or brightens the pixels of a rectangle to the given brightness in
/// percent: 100 leaves them as they are.
#[verifier::loop_isolation(false)]
pub fn draw_filled_rect(img: &mut Canvas, x: u32, y: u32, width: u32, height: u32, color_factor: u32)
    requires
        old(img).wf(),
        width > 0 && height > 0 ==> x + width <= old(img).width && y + height <= old(img).height,
    ensures
        final(img).wf(),
        final(img).same_size(old(img)),
        forall|i: int, j: int|
            old(img).holds(i, j) ==> #[trigger] final(img).pixel(i, j) == (if x <= i < x + width && y
                <= j < y + height {
                adjusted_color(old(img).pixel(i, j), color_factor as int)
            } else {
                old(img).pixel(i, j)
            }),
{
    if width == 0 || height == 0 {
        return ;
    }
    let mut row: u32 = 0;
    while row < height
        invariant
            row <= height,
            img.wf(),
            img.same_size(old(img)),
            forall|i: int, j: int|
                img.holds(i, j) ==> #[trigger] img.pixel(i, j) == (if x <= i < x + width && y <= j < y
                    + row {
                    adjusted_color(old(img).pixel(i, j), color_factor as int)
                } else {
                    old(img).pixel(i, j)
                }),
        decreases height - row,
    {
        let mut column: u32 = 0;
        while column < width
            invariant
                row < height,
                column <= width,
                img.wf(),
                img.same_size(old(img)),
                forall|i: int, j: int|
                    img.holds(i, j) ==> #[trigger] img.pixel(i, j) == (if (x <= i < x + width && y <= j
                        < y + row) || (j == y + row && x <= i < x + column) {
                        adjusted_color(old(img).pixel(i, j), color_factor as int)
                    } else {
                        old(img).pixel(i, j)
                    }),
            decreases width - column,
        {
            let pixel = img.get_pixel(x + column, y + row);
            img.put_pixel(x + column, y + row, adjust_color(pixel, color_factor));
            column += 1;
        }
        row += 1;
    }
}


/// The colour of the quad tree in a picture.
pub open spec fn tree_color() -> [u8; 3] {
    [200u8, 0u8, 0u8]
}

/// What is to be shown in a picture of the grid, and at what size.
#[derive(Debug, Clone, Copy, PartialEq, Eq, Structural)]
pub struct ImageOptions {
    pub image_width_mm: u32,
    pub image_height_mm: u32,
    /// Pixels per inch.
    pub dpi: u32,
    pub show_gridlines: bool,
    pub show_quad_tree: bool,
    pub show_image_label: bool,
    /// The centre point is shown in its own colour.
    pub track_center: bool,
    /// Distance between two grid lines in world units; there are no grid
    /// lines where it is not above 0.
    pub units_per_line: i32,
}

/// Why no picture could be made.
#[derive(Debug, Clone, Copy, PartialEq, Eq, Structural)]
pub enum ImageError {
    /// The grid has no cells.
    EmptyGrid,
    /// The theme has no shade for covered cells.
    NoShades,
}

/// A length in millimetres as pixels at the given resolution, rounded, and
/// no more than the largest number: there are 25.4 millimetres to the inch.
pub open spec fn millimetres_as_pixels(mm: int, dpi: int) -> int {
    let pixels = (mm * dpi * 10 + 127) / 254;
    if pixels > u32::MAX {
        u32::MAX as int
    } else {
        pixels
    }
}

/// The extent of the picture asked for, widened to one pixel more than the
/// cells where it is less than one pixel per cell.
pub open spec fn extent_asked(mm: int, dpi: int, cells: int) -> int {
    if millimetres_as_pixels(mm, dpi) < cells {
        cells + 1
    } else {
        millimetres_as_pixels(mm, dpi)
    }
}

/// Pixels along the side of a cell: as many as fit into the picture asked
/// for along both axes.
pub open spec fn pixels_per_cell(options: ImageOptions, cells_x: int, cells_y: int) -> int {
    let across = extent_asked(options.image_width_mm as int, options.dpi as int, cells_x) / cells_x;
    let down = extent_asked(options.image_height_mm as int, options.dpi as int, cells_y) / cells_y;
    if across < down {
        across
    } else {
        down
    }
}

/// The colour in which a cell is shown, if it is shown at all: obstacles and
/// covered cells are, the latter by their visits, and the centre point where
/// it is tracked.
pub open spec fn cell_color(cell: Cell, theme: &ColorTheme, track_center: bool) -> Option<[u8; 3]> {
    match cell {
        Cell::Obstacle => Some(theme.obstacle_color),
        Cell::Empty => None,
        Cell::Covered(info) => Some(
            theme.coverage_shades@[if info.times_visited < theme.coverage_shades@.len() {
                info.times_visited as int
            } else {
                theme.coverage_shades@.len() - 1
            }],
        ),
        Cell::CenterPoint(_) => if track_center {
            Some(theme.center_color)
        } else {
            None
        },
    }
}

/// The pixel `(x, y)` of the picture of the cells: the colour of the cell it
/// belongs to, or the background. The grid's rows run upwards, the picture's
/// downwards.
pub open spec fn cell_pixel(
    grid: &Grid,
    theme: &ColorTheme,
    track_center: bool,
    cell_pixels: int,
    x: int,
    y: int,
) -> [u8; 3] {
    match cell_color(
        grid.cell(x / cell_pixels, grid.cells_y - 1 - y / cell_pixels),
        theme,
        track_center,
    ) {
        Some(color) => color,
        None => theme.grid_background_color,
    }
}

/// A length in millimetres as pixels, see `millimetres_as_pixels`.
pub fn millimetres_to_pixels(mm: u32, dpi: u32) -> (pixels: u32)
    ensures
        pixels == millimetres_as_pixels(mm as int, dpi as int),
{
    assert(0 <= mm * dpi <= 0x1_0000_0000 * 0x1_0000_0000) by (nonlinear_arith)
        requires
            0 <= mm <= 0x1_0000_0000,
            0 <= dpi <= 0x1_0000_0000,
    ;
    let pixels: u128 = (mm as u128 * dpi as u128 * 10 + 127) / 254;
    if pixels > u32::MAX as u128 {
        u32::MAX
    } else {
        pixels as u32
    }
}

/// The colour in which a cell is shown, see `cell_color`.
pub fn color_of_cell(cell: &Cell, theme: &ColorTheme, track_center: bool) -> (color: Option<[u8; 3]>)
    requires
        theme.coverage_shades@.len() > 0,
    ensures
        color == cell_color(*cell, theme, track_center),
{
    match cell {
        Cell::Obstacle => Some(theme.obstacle_color),
        Cell::Empty => None,
        Cell::Covered(info) => Some(theme.get_coverage_color(info.times_visited)),
        Cell::CenterPoint(_) => if track_center {
            Some(theme.center_color)
        } else {
            None
        },
    }
}

/// The picture of the cells of a grid, `cell_pixels` pixels to the side of a
/// cell, see `cell_pixel`.
#[verifier::loop_isolation(false)]
pub fn paint_cells(grid: &Grid, theme: &ColorTheme, track_center: bool, cell_pixels: u32) -> (img:
    Canvas)
    requires
        grid.shape(),
        theme.coverage_shades@.len() > 0,
        cell_pixels >= 1,
        cell_pixels * grid.cells_x <= u32::MAX,
        cell_pixels * grid.cells_y <= u32::MAX,
    ensures
        img.wf(),
        img.width == cell_pixels * grid.cells_x,
        img.height == cell_pixels * grid.cells_y,
        forall|x: int, y: int|
            img.holds(x, y) ==> #[trigger] img.pixel(x, y) == cell_pixel(
                grid,
                theme,
                track_center,
                cell_pixels as int,
                x,
                y,
            ),
{
    assert(grid.cells_x <= cell_pixels * grid.cells_x && grid.cells_y <= cell_pixels * grid.cells_y)
        by (nonlinear_arith)
        requires
            cell_pixels >= 1,
            grid.cells_x >= 0,
            grid.cells_y >= 0,
    ;
    let width: u32 = cell_pixels * (grid.cells_x as u32);
    let height: u32 = cell_pixels * (grid.cells_y as u32);
    let mut rows: Vec<Vec<[u8; 3]>> = Vec::new();
    let mut y: u32 = 0;
    while y < height
        invariant
            y <= height,
            rows@.len() == y,
            forall|j: int| 0 <= j < y ==> (#[trigger] rows@[j])@.len() == width,
            forall|i: int, j: int|
                0 <= j < y && 0 <= i < width ==> (#[trigger] rows@[j]@[i]) == cell_pixel(
                    grid,
                    theme,
                    track_center,
                    cell_pixels as int,
                    i,
                    j,
                ),
        decreases height - y,
    {
        let down: u32 = y / cell_pixels;
        assert(down < grid.cells_y) by (nonlinear_arith)
            requires
                down == y as int / cell_pixels as int,
                y < cell_pixels * grid.cells_y,
                cell_pixels >= 1,
        ;
        let cell_y: usize = grid.cells_y - 1 - down as usize;
        let mut row: Vec<[u8; 3]> = Vec::new();
        let mut x: u32 = 0;
        while x < width
            invariant
                x <= width,
                row@.len() == x,
                forall|i: int|
                    0 <= i < x ==> (#[trigger] row@[i]) == cell_pixel(
                        grid,
                        theme,
                        track_center,
                        cell_pixels as int,
                        i,
                        y as int,
                    ),
            decreases width - x,
        {
            let cell_x: u32 = x / cell_pixels;
            assert(cell_x < grid.cells_x) by (nonlinear_arith)
                requires
                    cell_x == x as int / cell_pixels as int,
                    x < cell_pixels * grid.cells_x,
                    cell_pixels >= 1,
            ;
            let color = match color_of_cell(
                &grid.cells[cell_x as usize][cell_y],
                theme,
                track_center,
            ) {
                Some(color) => color,
                None => theme.grid_background_color,
            };
            row.push(color);
            x += 1;
        }
        rows.push(row);
        y += 1;
    }
    Canvas { width, height, rows }
}

/// Position, in pixels, of the grid line at the world coordinate `k` lines
/// from the origin: the first pixel of the cell that holds the coordinate.
pub open spec fn line_position(k: int, units_per_line: int, cell_size: int, cell_pixels: int) -> int {
    cell_index(clamp_coordinate(k * units_per_line), cell_size) * cell_pixels
}

/// Number of grid lines across an extent: the extent in lines, rounded.
pub open spec fn line_count(extent: int, units_per_line: int) -> int {
    if units_per_line <= 0 || extent <= 0 {
        0
    } else {
        (extent + units_per_line / 2) / units_per_line
    }
}

/// One of the first `lines` grid lines lies at pixel position `at`.
pub open spec fn on_line(
    at: int,
    lines: int,
    units_per_line: int,
    cell_size: int,
    cell_pixels: int,
) -> bool {
    exists|k: int| 0 <= k < lines && #[trigger] line_position(k, units_per_line, cell_size, cell_pixels) == at
}

/// The number of grid lines across an extent, see `line_count`.
pub fn count_lines(extent: i64, units_per_line: i32) -> (lines: u32)
    requires
        extent <= 0x8000_0000,
    ensures
        lines == line_count(extent as int, units_per_line as int),
{
    if units_per_line <= 0 || extent <= 0 {
        return 0;
    }
    let lines: i64 = (extent + units_per_line as i64 / 2) / units_per_line as i64;
    assert(0 <= lines <= extent + units_per_line / 2) by (nonlinear_arith)
        requires
            lines == (extent + units_per_line / 2) / (units_per_line as int),
            units_per_line >= 1,
            extent >= 0,
    ;
    lines as u32
}

/// Draws the grid lines: a vertical and a horizontal line through the cell
/// of every whole multiple of `units_per_line` below the extents of the grid.
#[verifier::loop_isolation(false)]
pub fn draw_grid_lines(
    img: &mut Canvas,
    grid: &Grid,
    units_per_line: i32,
    pixels_cell_size: u32,
    grid_color: [u8; 3],
)
    requires
        old(img).wf(),
        grid.shape(),
    ensures
        final(img).wf(),
        final(img).same_size(old(img)),
        forall|x: int, y: int|
            old(img).holds(x, y) ==> #[trigger] final(img).pixel(x, y) == (if on_line(
                x,
                line_count(grid.cells_x * grid.cell_size, units_per_line as int),
                units_per_line as int,
                grid.cell_size as int,
                pixels_cell_size as int,
            ) || on_line(
                y,
                line_count(grid.cells_y * grid.cell_size, units_per_line as int),
                units_per_line as int,
                grid.cell_size as int,
                pixels_cell_size as int,
            ) {
                grid_color
            } else {
                old(img).pixel(x, y)
            }),
{
    if img.width == 0 || img.height == 0 {
        return ;
    }
    assert(0 <= grid.cells_x <= grid.cells_x * grid.cell_size && 0 <= grid.cells_y <= grid.cells_y
        * grid.cell_size) by (nonlinear_arith)
        requires
            grid.cell_size > 0,
    ;
    let ghost upl = units_per_line as int;
    let ghost cs = grid.cell_size as int;
    let ghost pcs = pixels_cell_size as int;
    let lines_x = count_lines(grid.cells_x as i64 * grid.cell_size as i64, units_per_line);
    let lines_y = count_lines(grid.cells_y as i64 * grid.cell_size as i64, units_per_line);
    let mut k: u32 = 0;
    while k < lines_x
        invariant
            k <= lines_x,
            img.wf(),
            img.same_size(old(img)),
            forall|x: int, y: int|
                img.holds(x, y) ==> #[trigger] img.pixel(x, y) == (if on_line(x, k as int, upl, cs, pcs) {
                    grid_color
                } else {
                    old(img).pixel(x, y)
                }),
        decreases lines_x - k,
    {
        assert(-0x1_0000_0000 * 0x8000_0000 < k * units_per_line < 0x1_0000_0000 * 0x8000_0000)
            by (nonlinear_arith)
            requires
                0 <= k < 0x1_0000_0000,
                -0x8000_0000 <= units_per_line < 0x8000_0000,
        ;
        let at = clamp_to_coordinate(k as i64 * units_per_line as i64);
        let column = cell_index_of(at, grid.cell_size);
        assert(0 <= column * pixels_cell_size <= 0x8000_0000 * 0x1_0000_0000) by (nonlinear_arith)
            requires
                0 <= column <= 0x8000_0000,
                0 <= pixels_cell_size <= 0x1_0000_0000,
        ;
        let position: u64 = column as u64 * pixels_cell_size as u64;
        let ghost before = *img;
        if position < img.width as u64 {
            vert_line_to_image(img, position as u32, 0, img.height - 1, grid_color);
        }
        proof {
            assert(position == line_position(k as int, upl, cs, pcs));
            assert forall|x: int, y: int| img.holds(x, y) implies #[trigger] img.pixel(x, y) == (
            if on_line(x, k + 1, upl, cs, pcs) {
                grid_color
            } else {
                old(img).pixel(x, y)
            }) by {
                assert(before.holds(x, y));
                if on_line(x, k + 1, upl, cs, pcs) {
                    let w = choose|w: int|
                        0 <= w < k + 1 && #[trigger] line_position(w, upl, cs, pcs) == x;
                    if w < k {
                        assert(on_line(x, k as int, upl, cs, pcs));
                    }
                } else {
                    if on_line(x, k as int, upl, cs, pcs) {
                        let w = choose|w: int|
                            0 <= w < k && #[trigger] line_position(w, upl, cs, pcs) == x;
                        assert(line_position(w, upl, cs, pcs) == x);
                    }
                    assert(position != x);
                }
            }
        }
        k += 1;
    }
    let ghost columns = *img;
    let mut k: u32 = 0;
    while k < lines_y
        invariant
            k <= lines_y,
            img.wf(),
            img.same_size(old(img)),
            forall|x: int, y: int|
                img.holds(x, y) ==> #[trigger] img.pixel(x, y) == (if on_line(y, k as int, upl, cs, pcs) {
                    grid_color
                } else {
                    columns.pixel(x, y)
                }),
        decreases lines_y - k,
    {
        assert(-0x1_0000_0000 * 0x8000_0000 < k * units_per_line < 0x1_0000_0000 * 0x8000_0000)
            by (nonlinear_arith)
            requires
                0 <= k < 0x1_0000_0000,
                -0x8000_0000 <= units_per_line < 0x8000_0000,
        ;
        let at = clamp_to_coordinate(k as i64 * units_per_line as i64);
        let column = cell_index_of(at, grid.cell_size);
        assert(0 <= column * pixels_cell_size <= 0x8000_0000 * 0x1_0000_0000) by (nonlinear_arith)
            requires
                0 <= column <= 0x8000_0000,
                0 <= pixels_cell_size <= 0x1_0000_0000,
        ;
        let position: u64 = column as u64 * pixels_cell_size as u64;
        let ghost before = *img;
        if position < img.height as u64 {
            horiz_line_to_image(img, position as u32, 0, img.width - 1, grid_color);
        }
        proof {
            assert(position == line_position(k as int, upl, cs, pcs));
            assert forall|x: int, y: int| img.holds(x, y) implies #[trigger] img.pixel(x, y) == (
            if on_line(y, k + 1, upl, cs, pcs) {
                grid_color
            } else {
                columns.pixel(x, y)
            }) by {
                assert(before.holds(x, y));
                if on_line(y, k + 1, upl, cs, pcs) {
                    let w = choose|w: int|
                        0 <= w < k + 1 && #[trigger] line_position(w, upl, cs, pcs) == y;
                    if w < k {
                        assert(on_line(y, k as int, upl, cs, pcs));
                    }
                } else {
                    if on_line(y, k as int, upl, cs, pcs) {
                        let w = choose|w: int|
                            0 <= w < k && #[trigger] line_position(w, upl, cs, pcs) == y;
                        assert(line_position(w, upl, cs, pcs) == y);
                    }
                    assert(position != y);
                }
            }
        }
        k += 1;
    }
    proof {
        assert forall|x: int, y: int| old(img).holds(x, y) implies #[trigger] img.pixel(x, y) == (
        if on_line(x, lines_x as int, upl, cs, pcs) || on_line(y, lines_y as int, upl, cs, pcs) {
            grid_color
        } else {
            old(img).pixel(x, y)
        }) by {
            assert(columns.holds(x, y));
            assert(img.holds(x, y));
        }
    }
}


/// The outline of a node of the quad tree in a picture, in pixels: the
/// columns of its left and right edge and the rows of its lower and upper
/// edge. The lower edge of the area has the larger row.
#[derive(Debug, Clone, Copy, PartialEq, Eq, Structural)]
pub struct Frame {
    pub x_start: u32,
    pub x_end: u32,
    /// The row of the upper edge of the node, the smaller one.
    pub y_start: u32,
    /// The row of the lower edge of the node, the larger one.
    pub y_end: u32,
}

/// A count of cells as a pixel position within a picture: the cells times the
/// pixels per cell, and no more than the last pixel.
pub open spec fn pixel_position(cells: int, cell_pixels: int, extent: int) -> int {
    let at = if cells < 0 {
        0
    } else {
        cells * cell_pixels
    };
    if at > extent - 1 {
        extent - 1
    } else {
        at
    }
}

/// The outline of the given bounds in a picture of the given size.
pub open spec fn frame_of(
    bounds: QuadTreeBounds,
    cell_size: int,
    cell_pixels: int,
    cells_y: int,
    width: int,
    height: int,
) -> Frame {
    Frame {
        x_start: pixel_position(cell_index(bounds.x as int, cell_size), cell_pixels, width) as u32,
        x_end: pixel_position(
            cell_index(clamp_coordinate(bounds.x + bounds.width), cell_size),
            cell_pixels,
            width,
        ) as u32,
        y_start: pixel_position(
            cells_y - cell_index(clamp_coordinate(bounds.y + bounds.height), cell_size),
            cell_pixels,
            height,
        ) as u32,
        y_end: pixel_position(
            cells_y - cell_index(bounds.y as int, cell_size),
            cell_pixels,
            height,
        ) as u32,
    }
}

/// The pixel lies on the outline: on one of its four edges, each drawn two
/// pixels thick, the upper and the left edge towards the inside of the
/// picture, the lower and the right edge towards its origin.
pub open spec fn on_frame(f: Frame, x: int, y: int, width: int, height: int) -> bool {
    ||| f.x_start <= x <= f.x_end && (y == f.y_end || y == (if f.y_end + 1 < height {
        f.y_end + 1
    } else {
        height - 1
    }))
    ||| f.x_start <= x <= f.x_end && (y == f.y_start || (f.y_start > 0 && y == f.y_start - 1))
    ||| f.y_start <= y <= f.y_end && (x == f.x_start || x == (if f.x_start + 1 < width {
        f.x_start + 1
    } else {
        width - 1
    }))
    ||| f.y_start <= y <= f.y_end && (x == f.x_end || (f.x_end > 0 && x == f.x_end - 1))
}

/// The pixel lies within the outline.
pub open spec fn in_frame(f: Frame, x: int, y: int) -> bool {
    f.x_start <= x <= f.x_end && f.y_start <= y <= f.y_end
}

/// A pixel after an outline has been drawn over it: on the outline it takes
/// the colour of the tree; within an outline that is to be dimmed it is left
/// at 70 percent of its brightness.
pub open spec fn framed_pixel(p: [u8; 3], f: Frame, dim: bool, x: int, y: int, width: int, height: int) -> [u8; 3] {
    if on_frame(f, x, y, width, height) {
        tree_color()
    } else if dim && in_frame(f, x, y) {
        adjusted_color(p, 70)
    } else {
        p
    }
}

/// A pixel after a node and all nodes below it have been drawn over it: the
/// node first, then its quadrants in their order. Leaves without obstacle are
/// dimmed.
pub open spec fn node_pixel(
    node: &QuadTreeNode,
    p: [u8; 3],
    x: int,
    y: int,
    cell_size: int,
    cell_pixels: int,
    cells_y: int,
    width: int,
    height: int,
) -> [u8; 3]
    decreases node,
{
    let drawn = framed_pixel(
        p,
        frame_of(node.bounds, cell_size, cell_pixels, cells_y, width, height),
        !node.has_obstacle && node.is_leaf,
        x,
        y,
        width,
        height,
    );
    match node.children {
        None => drawn,
        Some(q) => node_pixel(
            &q.ne,
            node_pixel(
                &q.nw,
                node_pixel(
                    &q.se,
                    node_pixel(&q.sw, drawn, x, y, cell_size, cell_pixels, cells_y, width, height),
                    x,
                    y,
                    cell_size,
                    cell_pixels,
                    cells_y,
                    width,
                    height,
                ),
                x,
                y,
                cell_size,
                cell_pixels,
                cells_y,
                width,
                height,
            ),
            x,
            y,
            cell_size,
            cell_pixels,
            cells_y,
            width,
            height,
        ),
    }
}

/// A pixel after the quad tree has been drawn over it: the nodes below the
/// root, the root itself being the whole area.
pub open spec fn tree_pixel(
    root: &QuadTreeNode,
    p: [u8; 3],
    x: int,
    y: int,
    cell_size: int,
    cell_pixels: int,
    cells_y: int,
    width: int,
    height: int,
) -> [u8; 3] {
    match root.children {
        None => p,
        Some(q) => node_pixel(
            &q.ne,
            node_pixel(
                &q.nw,
                node_pixel(
                    &q.se,
                    node_pixel(&q.sw, p, x, y, cell_size, cell_pixels, cells_y, width, height),
                    x,
                    y,
                    cell_size,
                    cell_pixels,
                    cells_y,
                    width,
                    height,
                ),
                x,
                y,
                cell_size,
                cell_pixels,
                cells_y,
                width,
                height,
            ),
            x,
            y,
            cell_size,
            cell_pixels,
            cells_y,
            width,
            height,
        ),
    }
}

/// A count of cells as a pixel position, see `pixel_position`.
pub fn position_of(cells: i64, cell_pixels: u32, extent: u32) -> (at: u32)
    requires
        extent >= 1,
        -0x1_0000_0000_0000 <= cells <= 0x1_0000_0000_0000,
    ensures
        at == pixel_position(cells as int, cell_pixels as int, extent as int),
        at < extent,
{
    if cells < 0 {
        return 0;
    }
    assert(0 <= cells * cell_pixels <= 0x1_0000_0000_0000 * 0x1_0000_0000) by (nonlinear_arith)
        requires
            0 <= cells <= 0x1_0000_0000_0000,
            0 <= cell_pixels <= 0x1_0000_0000,
    ;
    let at: i128 = cells as i128 * cell_pixels as i128;
    if at > extent as i128 - 1 {
        extent - 1
    } else {
        at as u32
    }
}

/// The outline of the given bounds in the picture, see `frame_of`.
pub fn frame_for(
    bounds: &QuadTreeBounds,
    grid: &Grid,
    pixels_cell_size: u32,
    grid_cells_y: usize,
    width: u32,
    height: u32,
) -> (frame: Frame)
    requires
        grid.cell_size > 0,
        width >= 1,
        height >= 1,
        grid_cells_y <= 0x8000_0000,
    ensures
        frame == frame_of(
            *bounds,
            grid.cell_size as int,
            pixels_cell_size as int,
            grid_cells_y as int,
            width as int,
            height as int,
        ),
        frame.x_start < width && frame.x_end < width,
        frame.y_start < height && frame.y_end < height,
{
    let cs = grid.cell_size;
    let start_x = cell_index_of(bounds.x, cs);
    let start_y = cell_index_of(bounds.y, cs);
    let end_x = cell_index_of(clamp_to_coordinate(bounds.x as i64 + bounds.width as i64), cs);
    let end_y = cell_index_of(clamp_to_coordinate(bounds.y as i64 + bounds.height as i64), cs);
    Frame {
        x_start: position_of(start_x as i64, pixels_cell_size, width),
        x_end: position_of(end_x as i64, pixels_cell_size, width),
        y_start: position_of(grid_cells_y as i64 - end_y as i64, pixels_cell_size, height),
        y_end: position_of(grid_cells_y as i64 - start_y as i64, pixels_cell_size, height),
    }
}

/// Draws an outline, and dims what lies within it where asked, see
/// `framed_pixel`.
pub fn draw_frame(img: &mut Canvas, frame: Frame, dim: bool)
    requires
        old(img).wf(),
        frame.x_start < old(img).width && frame.x_end < old(img).width,
        frame.y_start < old(img).height && frame.y_end < old(img).height,
    ensures
        final(img).wf(),
        final(img).same_size(old(img)),
        forall|x: int, y: int|
            old(img).holds(x, y) ==> #[trigger] final(img).pixel(x, y) == framed_pixel(
                old(img).pixel(x, y),
                frame,
                dim,
                x,
                y,
                old(img).width as int,
                old(img).height as int,
            ),
{
    let red: [u8; 3] = [200, 0, 0];
    assert(red =~= tree_color());
    let width = img.width;
    let height = img.height;
    if dim && frame.x_start <= frame.x_end && frame.y_start <= frame.y_end {
        draw_filled_rect(
            img,
            frame.x_start,
            frame.y_start,
            frame.x_end - frame.x_start + 1,
            frame.y_end - frame.y_start + 1,
            70,
        );
    }
    let ghost dimmed = *img;
    let below = if frame.y_end + 1 < height {
        frame.y_end + 1
    } else {
        height - 1
    };
    horiz_line_to_image(img, frame.y_end, frame.x_start, frame.x_end, red);
    horiz_line_to_image(img, below, frame.x_start, frame.x_end, red);
    horiz_line_to_image(img, frame.y_start, frame.x_start, frame.x_end, red);
    if frame.y_start > 0 {
        horiz_line_to_image(img, frame.y_start - 1, frame.x_start, frame.x_end, red);
    }
    let ghost rows = *img;
    let beside = if frame.x_start + 1 < width {
        frame.x_start + 1
    } else {
        width - 1
    };
    vert_line_to_image(img, frame.x_start, frame.y_start, frame.y_end, red);
    vert_line_to_image(img, beside, frame.y_start, frame.y_end, red);
    vert_line_to_image(img, frame.x_end, frame.y_start, frame.y_end, red);
    if frame.x_end > 0 {
        vert_line_to_image(img, frame.x_end - 1, frame.y_start, frame.y_end, red);
    }
    proof {
        assert forall|x: int, y: int| old(img).holds(x, y) implies #[trigger] img.pixel(x, y)
            == framed_pixel(
            old(img).pixel(x, y),
            frame,
            dim,
            x,
            y,
            old(img).width as int,
            old(img).height as int,
        ) by {
            assert(dimmed.holds(x, y));
            assert(rows.holds(x, y));
            assert(dimmed.pixel(x, y) == (if dim && in_frame(frame, x, y) {
                adjusted_color(old(img).pixel(x, y), 70)
            } else {
                old(img).pixel(x, y)
            }));
        }
    }
}

/// Draws a node of the quad tree and all nodes below it, see `node_pixel`.
pub fn draw_quad_tree_nodes(
    img: &mut Canvas,
    node: &QuadTreeNode,
    grid: &Grid,
    pixels_cell_size: u32,
    grid_cells_y: usize,
)
    requires
        old(img).wf(),
        old(img).width >= 1,
        old(img).height >= 1,
        grid.cell_size > 0,
        grid_cells_y <= 0x8000_0000,
    ensures
        final(img).wf(),
        final(img).same_size(old(img)),
        forall|x: int, y: int|
            old(img).holds(x, y) ==> #[trigger] final(img).pixel(x, y) == node_pixel(
                node,
                old(img).pixel(x, y),
                x,
                y,
                grid.cell_size as int,
                pixels_cell_size as int,
                grid_cells_y as int,
                old(img).width as int,
                old(img).height as int,
            ),
    decreases node,
{
    let frame = frame_for(&node.bounds, grid, pixels_cell_size, grid_cells_y, img.width, img.height);
    draw_frame(img, frame, !node.has_obstacle && node.is_leaf);
    if let Some(children) = &node.children {
        let ghost drawn = *img;
        draw_quad_tree_nodes(img, &children.sw, grid, pixels_cell_size, grid_cells_y);
        let ghost first = *img;
        draw_quad_tree_nodes(img, &children.se, grid, pixels_cell_size, grid_cells_y);
        let ghost second = *img;
        draw_quad_tree_nodes(img, &children.nw, grid, pixels_cell_size, grid_cells_y);
        let ghost third = *img;
        draw_quad_tree_nodes(img, &children.ne, grid, pixels_cell_size, grid_cells_y);
        proof {
            assert forall|x: int, y: int| old(img).holds(x, y) implies #[trigger] img.pixel(x, y)
                == node_pixel(
                node,
                old(img).pixel(x, y),
                x,
                y,
                grid.cell_size as int,
                pixels_cell_size as int,
                grid_cells_y as int,
                old(img).width as int,
                old(img).height as int,
            ) by {
                assert(drawn.holds(x, y) && first.holds(x, y) && second.holds(x, y) && third.holds(
                    x,
                    y,
                ));
            }
        }
    }
}

/// Draws the quad tree below its root, see `tree_pixel`.
pub fn draw_quad_tree(img: &mut Canvas, root: &QuadTreeNode, grid: &Grid, pixels_cell_size: u32)
    requires
        old(img).wf(),
        old(img).width >= 1,
        old(img).height >= 1,
        grid.shape(),
    ensures
        final(img).wf(),
        final(img).same_size(old(img)),
        forall|x: int, y: int|
            old(img).holds(x, y) ==> #[trigger] final(img).pixel(x, y) == tree_pixel(
                root,
                old(img).pixel(x, y),
                x,
                y,
                grid.cell_size as int,
                pixels_cell_size as int,
                grid.cells_y as int,
                old(img).width as int,
                old(img).height as int,
            ),
{
    assert(0 <= grid.cells_y <= grid.cells_y * grid.cell_size) by (nonlinear_arith)
        requires
            grid.cell_size > 0,
            grid.cells_y >= 0,
    ;
    let grid_cells_y = grid.cells_y;
    if let Some(children) = &root.children {
        draw_quad_tree_nodes(img, &children.sw, grid, pixels_cell_size, grid_cells_y);
        let ghost first = *img;
        draw_quad_tree_nodes(img, &children.se, grid, pixels_cell_size, grid_cells_y);
        let ghost second = *img;
        draw_quad_tree_nodes(img, &children.nw, grid, pixels_cell_size, grid_cells_y);
        let ghost third = *img;
        draw_quad_tree_nodes(img, &children.ne, grid, pixels_cell_size, grid_cells_y);
        proof {
            assert forall|x: int, y: int| old(img).holds(x, y) implies #[trigger] img.pixel(x, y)
                == tree_pixel(
                root,
                old(img).pixel(x, y),
                x,
                y,
                grid.cell_size as int,
                pixels_cell_size as int,
                grid.cells_y as int,
                old(img).width as int,
                old(img).height as int,
            ) by {
                assert(first.holds(x, y) && second.holds(x, y) && third.holds(x, y));
            }
        }
    }
}

/// What the label of a picture tells: the simulated time and the coverage in
/// thousandths of a percent.
#[derive(Debug, Clone, Copy, PartialEq, Eq, Structural)]
pub struct Label {
    pub hours: u64,
    pub minutes: u64,
    pub seconds: u64,
    pub coverage_percent: u32,
}

/// Width of the background of the label, in pixels.
pub const LABEL_WIDTH: u32 = 230;

/// Height of the background of the label, in pixels.
pub const LABEL_HEIGHT: u32 = 100;

/// The pixel lies in the background of the label, the upper left corner of
/// the picture.
pub open spec fn in_label(x: int, y: int) -> bool {
    0 <= x < LABEL_WIDTH && 0 <= y < LABEL_HEIGHT
}

/// Prepares the label of a picture: the background of the label is set to the
/// brightness that the theme asks for, and what the label is to tell is
/// returned; the writing is left to the caller.
pub fn add_time_and_coverage_to_image(img: &mut Canvas, model: &SimModel, theme: &ColorTheme) -> (label:
    Label)
    requires
        old(img).wf(),
        model.grid matches Some(g) && g.wf(),
    ensures
        final(img).wf(),
        final(img).same_size(old(img)),
        forall|x: int, y: int|
            old(img).holds(x, y) ==> #[trigger] final(img).pixel(x, y) == (if in_label(x, y) {
                adjusted_color(old(img).pixel(x, y), theme.text_background_adjustment as int)
            } else {
                old(img).pixel(x, y)
            }),
        label.hours == model.sim_time_elapsed / TICKS_PER_SECOND / 3600,
        label.minutes == model.sim_time_elapsed / TICKS_PER_SECOND % 3600 / 60,
        label.seconds == model.sim_time_elapsed / TICKS_PER_SECOND % 60,
        label.coverage_percent == coverage_percent_of(
            model.grid->0.covered_cells as int,
            model.grid->0.cells_x * model.grid->0.cells_y - model.grid->0.cells_obstacles_count,
        ),
{
    let width = if img.width < LABEL_WIDTH {
        img.width
    } else {
        LABEL_WIDTH
    };
    let height = if img.height < LABEL_HEIGHT {
        img.height
    } else {
        LABEL_HEIGHT
    };
    draw_filled_rect(img, 0, 0, width, height, theme.text_background_adjustment);
    let total_seconds = model.sim_time_elapsed / TICKS_PER_SECOND;
    let coverage_percent = match &model.grid {
        Some(grid) => grid.get_coverage_percent(),
        None => 0,
    };
    Label {
        hours: total_seconds / 3600,
        minutes: (total_seconds % 3600) / 60,
        seconds: total_seconds % 60,
        coverage_percent,
    }
}


/// The pixel `(x, y)` of the picture of a model: the picture of the cells,
/// with the grid lines, the quad tree and the background of the label drawn
/// over it in that order, each where the options ask for it.
pub open spec fn picture_pixel(
    grid: &Grid,
    options: ImageOptions,
    theme: &ColorTheme,
    x: int,
    y: int,
) -> [u8; 3] {
    let cell_pixels = pixels_per_cell(options, grid.cells_x as int, grid.cells_y as int);
    let width = cell_pixels * grid.cells_x;
    let height = cell_pixels * grid.cells_y;
    let cells = cell_pixel(grid, theme, options.track_center, cell_pixels, x, y);
    let lined = if options.show_gridlines && (on_line(
        x,
        line_count(grid.cells_x * grid.cell_size, options.units_per_line as int),
        options.units_per_line as int,
        grid.cell_size as int,
        cell_pixels,
    ) || on_line(
        y,
        line_count(grid.cells_y * grid.cell_size, options.units_per_line as int),
        options.units_per_line as int,
        grid.cell_size as int,
        cell_pixels,
    )) {
        theme.grid_line_color
    } else {
        cells
    };
    let indexed = match grid.quadtree {
        Some(tree) => if options.show_quad_tree {
            tree_pixel(
                &tree.root,
                lined,
                x,
                y,
                grid.cell_size as int,
                cell_pixels,
                grid.cells_y as int,
                width,
                height,
            )
        } else {
            lined
        },
        None => lined,
    };
    if options.show_image_label && in_label(x, y) {
        adjusted_color(indexed, theme.text_background_adjustment as int)
    } else {
        indexed
    }
}

/// Pixels along the side of a cell, see `pixels_per_cell`.
pub fn cell_pixels_for(options: &ImageOptions, cells_x: u32, cells_y: u32) -> (cell_pixels: u32)
    requires
        1 <= cells_x <= 0x8000_0000,
        1 <= cells_y <= 0x8000_0000,
    ensures
        cell_pixels == pixels_per_cell(*options, cells_x as int, cells_y as int),
        cell_pixels >= 1,
        cell_pixels * cells_x <= u32::MAX,
        cell_pixels * cells_y <= u32::MAX,
{
    let mut base_width = millimetres_to_pixels(options.image_width_mm, options.dpi);
    let mut base_height = millimetres_to_pixels(options.image_height_mm, options.dpi);
    if base_height < cells_y {
        base_height = cells_y + 1;
    }
    if base_width < cells_x {
        base_width = cells_x + 1;
    }
    let across = base_width / cells_x;
    let down = base_height / cells_y;
    assert(1 <= across && across * cells_x <= base_width) by (nonlinear_arith)
        requires
            across == base_width as int / cells_x as int,
            base_width >= cells_x >= 1,
    ;
    assert(1 <= down && down * cells_y <= base_height) by (nonlinear_arith)
        requires
            down == base_height as int / cells_y as int,
            base_height >= cells_y >= 1,
    ;
    let cell_pixels = if across < down {
        across
    } else {
        down
    };
    assert(cell_pixels * cells_x <= across * cells_x && cell_pixels * cells_y <= down * cells_y)
        by (nonlinear_arith)
        requires
            0 <= cell_pixels <= across,
            0 <= cell_pixels <= down,
            cells_x >= 0,
            cells_y >= 0,
    ;
    cell_pixels
}

/// `outcome` is the picture of the grid of the model in the colours of the
/// theme, see `picture_pixel`, together with what its label is to tell, where
/// a label is asked for; or it is the failure that is due: there is no
/// picture of a grid without cells, nor with a theme without shades.
pub open spec fn pictured(
    model: &SimModel,
    options: ImageOptions,
    theme: &ColorTheme,
    outcome: Result<(Canvas, Option<Label>), ImageError>,
) -> bool {
    let grid = model.grid->0;
    let cell_pixels = pixels_per_cell(options, grid.cells_x as int, grid.cells_y as int);
    match outcome {
        Err(error) => if grid.cells_x == 0 || grid.cells_y == 0 {
            error == ImageError::EmptyGrid
        } else {
            error == ImageError::NoShades && theme.coverage_shades@.len() == 0
        },
        Ok(made) => {
            &&& grid.cells_x > 0 && grid.cells_y > 0 && theme.coverage_shades@.len() > 0
            &&& made.0.wf()
            &&& made.0.width == cell_pixels * grid.cells_x
            &&& made.0.height == cell_pixels * grid.cells_y
            &&& forall|x: int, y: int|
                made.0.holds(x, y) ==> #[trigger] made.0.pixel(x, y) == picture_pixel(
                    &grid,
                    options,
                    theme,
                    x,
                    y,
                )
            &&& made.1 == (if options.show_image_label {
                Some(
                    Label {
                        hours: (model.sim_time_elapsed / TICKS_PER_SECOND / 3600) as u64,
                        minutes: (model.sim_time_elapsed / TICKS_PER_SECOND % 3600 / 60) as u64,
                        seconds: (model.sim_time_elapsed / TICKS_PER_SECOND % 60) as u64,
                        coverage_percent: coverage_percent_of(
                            grid.covered_cells as int,
                            grid.cells_x * grid.cells_y - grid.cells_obstacles_count,
                        ) as u32,
                    },
                )
            } else {
                None
            })
        },
    }
}

/// The picture of the grid of a model in the colours of a theme, see
/// `pictured`.
pub fn create_grid_image_in_memory_with_theme(
    model: &SimModel,
    options: &ImageOptions,
    theme: &ColorTheme,
) -> (outcome: Result<(Canvas, Option<Label>), ImageError>)
    requires
        model.grid matches Some(g) && g.wf(),
    ensures
        pictured(model, *options, theme, outcome),
{
    let grid = match &model.grid {
        Some(grid) => grid,
        None => {
            return Err(ImageError::EmptyGrid);
        },
    };
    if grid.cells_x == 0 || grid.cells_y == 0 {
        return Err(ImageError::EmptyGrid);
    }
    if theme.coverage_shades.len() == 0 {
        return Err(ImageError::NoShades);
    }
    assert(0 <= grid.cells_x <= grid.cells_x * grid.cell_size && 0 <= grid.cells_y <= grid.cells_y
        * grid.cell_size) by (nonlinear_arith)
        requires
            grid.cell_size > 0,
            grid.cells_x >= 0,
            grid.cells_y >= 0,
    ;
    let pixels_cell_size = cell_pixels_for(options, grid.cells_x as u32, grid.cells_y as u32);
    let mut img = paint_cells(grid, theme, options.track_center, pixels_cell_size);
    assert(img.width >= 1 && img.height >= 1) by (nonlinear_arith)
        requires
            img.width == pixels_cell_size * grid.cells_x,
            img.height == pixels_cell_size * grid.cells_y,
            pixels_cell_size >= 1,
            grid.cells_x >= 1,
            grid.cells_y >= 1,
    ;
    let ghost cells = img;
    if options.show_gridlines {
        draw_grid_lines(&mut img, grid, options.units_per_line, pixels_cell_size, theme.grid_line_color);
    }
    let ghost lined = img;
    if options.show_quad_tree {
        if let Some(tree) = &grid.quadtree {
            draw_quad_tree(&mut img, &tree.root, grid, pixels_cell_size);
        }
    }
    let ghost indexed = img;
    let label = if options.show_image_label {
        Some(add_time_and_coverage_to_image(&mut img, model, theme))
    } else {
        None
    };
    proof {
        assert forall|x: int, y: int| img.holds(x, y) implies #[trigger] img.pixel(x, y)
            == picture_pixel(grid, *options, theme, x, y) by {
            assert(cells.holds(x, y) && lined.holds(x, y) && indexed.holds(x, y));
            assert(cells.pixel(x, y) == cell_pixel(
                grid,
                theme,
                options.track_center,
                pixels_cell_size as int,
                x,
                y,
            ));
        }
    }
    Ok((img, label))
}

/// The picture of the grid of a model in the colours of the theme of the
/// given name, or of the default theme where no name is given or there is no
/// theme of that name.
pub fn create_grid_image_in_memory(
    model: &SimModel,
    options: &ImageOptions,
    theme_manager: &ColorThemeManager,
    color_theme: Option<&str>,
) -> (outcome: Result<(Canvas, Option<Label>), ImageError>)
    requires
        model.grid matches Some(g) && g.wf(),
        theme_manager.wf(),
    ensures
        pictured(
            model,
            *options,
            &theme_manager.theme_for(
                match color_theme {
                    Some(name) => name@,
                    None => "default"@,
                },
            ),
            outcome,
        ),
{
    let theme = match color_theme {
        Some(name) => theme_manager.get_theme(name),
        None => theme_manager.get_theme("default"),
    };
    create_grid_image_in_memory_with_theme(model, options, theme)
}

} // verus!
