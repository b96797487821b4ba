use vstd::prelude::*;

verus! {

/// Index of the grid cell that holds world coordinate `coord`: the coordinate
/// floor-divided by the cell size, and 0 for every negative coordinate.
pub open spec fn cell_index(coord: int, cell_size: int) -> int {
    if coord < 0 {
        0
    } else {
        coord / cell_size
    }
}

/// Number of cells needed to span a length: the length divided by the cell
/// size, rounded up, and 0 for a length that is not positive.
pub open spec fn cells_spanned(len: int, cell_size: int) -> int {
    if len <= 0 {
        0
    } else {
        (len + cell_size - 1) / cell_size
    }
}

/// Squared Euclidean length of `(dx, dy)`.
pub open spec fn norm_sq(dx: int, dy: int) -> int {
    dx * dx + dy * dy
}

/// The cell that holds a coordinate, see `cell_index`.
pub fn cell_index_of(coord: i32, cell_size: i32) -> (i: i32)
    requires
        cell_size > 0,
    ensures
        i == cell_index(coord as int, cell_size as int),
        0 <= i,
        coord >= 0 ==> i <= coord,
{
    if coord < 0 {
        0
    } else {
        let q: i32 = coord / cell_size;
        assert(0 <= q <= coord) by (nonlinear_arith)
            requires
                q == coord as int / cell_size as int,
                coord >= 0,
                cell_size > 0,
        ;
        q
    }
}

/// The cells needed to span a length, see `cells_spanned`.
pub fn cells_spanned_by(len: i32, cell_size: i32) -> (n: i32)
    requires
        cell_size > 0,
    ensures
        n == cells_spanned(len as int, cell_size as int),
        0 <= n,
        len >= 0 ==> n <= len,
{
    if len <= 0 {
        0
    } else {
        let q: i32 = len / cell_size;
        let r: i32 = len % cell_size;
        assert(0 <= q <= len && (len + cell_size - 1) / (cell_size as int) == q + if r == 0 {
            0int
        } else {
            1int
        } && (r != 0 ==> q < len)) by (nonlinear_arith)
            requires
                q == len as int / cell_size as int,
                r == len as int % cell_size as int,
                len > 0,
                cell_size > 0,
        ;
        if r == 0 {
            q
        } else {
            q + 1
        }
    }
}


/// Corner `(kx, ky)` (each 0 or 1) of cell `(gx, gy)` lies within `radius` of
/// `(cx, cy)`. Distances are compared by their squares.
pub open spec fn corner_within(
    cell_size: int,
    gx: int,
    gy: int,
    kx: int,
    ky: int,
    cx: int,
    cy: int,
    radius: int,
) -> bool {
    norm_sq((gx + kx) * cell_size - cx, (gy + ky) * cell_size - cy) <= radius * radius
}

/// Corner `(kx, ky)` of cell `(gx, gy)` lies at least `radius` away from `(cx, cy)`.
pub open spec fn corner_beyond(
    cell_size: int,
    gx: int,
    gy: int,
    kx: int,
    ky: int,
    cx: int,
    cy: int,
    radius: int,
) -> bool {
    norm_sq((gx + kx) * cell_size - cx, (gy + ky) * cell_size - cy) >= radius * radius
}

/// All four corners of cell `(gx, gy)` lie within `radius` of `(cx, cy)`.
pub open spec fn all_corners_within(cell_size: int, gx: int, gy: int, cx: int, cy: int, radius: int) -> bool {
    &&& corner_within(cell_size, gx, gy, 0, 0, cx, cy, radius)
    &&& corner_within(cell_size, gx, gy, 1, 0, cx, cy, radius)
    &&& corner_within(cell_size, gx, gy, 0, 1, cx, cy, radius)
    &&& corner_within(cell_size, gx, gy, 1, 1, cx, cy, radius)
}

/// One of the four corners of cell `(gx, gy)` lies within `radius` of `(cx, cy)`.
pub open spec fn any_corner_within(cell_size: int, gx: int, gy: int, cx: int, cy: int, radius: int) -> bool {
    ||| corner_within(cell_size, gx, gy, 0, 0, cx, cy, radius)
    ||| corner_within(cell_size, gx, gy, 1, 0, cx, cy, radius)
    ||| corner_within(cell_size, gx, gy, 0, 1, cx, cy, radius)
    ||| corner_within(cell_size, gx, gy, 1, 1, cx, cy, radius)
}

/// All four corners of cell `(gx, gy)` lie at least `radius` away from `(cx, cy)`.
pub open spec fn all_corners_beyond(cell_size: int, gx: int, gy: int, cx: int, cy: int, radius: int) -> bool {
    &&& corner_beyond(cell_size, gx, gy, 0, 0, cx, cy, radius)
    &&& corner_beyond(cell_size, gx, gy, 1, 0, cx, cy, radius)
    &&& corner_beyond(cell_size, gx, gy, 0, 1, cx, cy, radius)
    &&& corner_beyond(cell_size, gx, gy, 1, 1, cx, cy, radius)
}

/// How many cells around the centre cell a circle of the given radius can
/// reach: the radius in cells, rounded up. For a negative radius that is 0
/// down to one cell size below 0, and negative from there on: nothing lies
/// within a negative reach.
pub open spec fn scan_reach(radius: int, cell_size: int) -> int {
    if radius >= 0 {
        cells_spanned(radius, cell_size)
    } else {
        -((-radius) / cell_size)
    }
}

/// The reach of a circle in cells, see `scan_reach`.
pub fn scan_reach_of(radius: i32, cell_size: i32) -> (reach: i32)
    requires
        cell_size > 0,
    ensures
        reach == scan_reach(radius as int, cell_size as int),
{
    if radius >= 0 {
        cells_spanned_by(radius, cell_size)
    } else {
        let size: i64 = -(radius as i64);
        let cells: i64 = size / cell_size as i64;
        assert(0 <= cells <= size) by (nonlinear_arith)
            requires
                cells == size as int / cell_size as int,
                size > 0,
                cell_size > 0,
        ;
        (-cells) as i32
    }
}

/// Index `i` is at most `scan_reach(radius)` cells from the cell that holds `c`.
pub open spec fn in_reach(i: int, c: int, radius: int, cell_size: int) -> bool {
    cell_index(c, cell_size) - scan_reach(radius, cell_size) <= i <= cell_index(c, cell_size) + scan_reach(
        radius,
        cell_size,
    )
}

/// `norm_sq(dx, dy) <= r * r`, computed without overflow.
pub fn within_distance(dx: i128, dy: i128, r: i64) -> (b: bool)
    requires
        -0x1_0000_0000_0000_0000_0000_0000 <= dx <= 0x1_0000_0000_0000_0000_0000_0000,
        -0x1_0000_0000_0000_0000_0000_0000 <= dy <= 0x1_0000_0000_0000_0000_0000_0000,
        -0x1_0000_0000_0000 <= r <= 0x1_0000_0000_0000,
    ensures
        b == (norm_sq(dx as int, dy as int) <= r * r),
{
    let ar: i128 = if r < 0 {
        -(r as i128)
    } else {
        r as i128
    };
    let adx: i128 = if dx < 0 {
        -dx
    } else {
        dx
    };
    let ady: i128 = if dy < 0 {
        -dy
    } else {
        dy
    };
    assert(ar * ar == r * r && adx * adx == dx * dx && ady * ady == dy * dy) by (nonlinear_arith)
        requires
            ar == r || ar == -r,
            adx == dx || adx == -dx,
            ady == dy || ady == -dy,
    ;
    if adx > ar || ady > ar {
        assert(adx * adx + ady * ady > ar * ar) by (nonlinear_arith)
            requires
                adx > ar || ady > ar,
                0 <= ar,
                0 <= adx,
                0 <= ady,
        ;
        false
    } else {
        assert(adx * adx <= ar * ar && ady * ady <= ar * ar && ar * ar <= 0x1_0000_0000_0000
            * 0x1_0000_0000_0000) by (nonlinear_arith)
            requires
                0 <= adx <= ar,
                0 <= ady <= ar,
                ar <= 0x1_0000_0000_0000,
        ;
        adx * adx + ady * ady <= ar * ar
    }
}

/// `norm_sq(dx, dy) >= r * r`, computed without overflow.
pub fn beyond_distance(dx: i128, dy: i128, r: i64) -> (b: bool)
    requires
        -0x1_0000_0000_0000_0000_0000_0000 <= dx <= 0x1_0000_0000_0000_0000_0000_0000,
        -0x1_0000_0000_0000_0000_0000_0000 <= dy <= 0x1_0000_0000_0000_0000_0000_0000,
        -0x1_0000_0000_0000 <= r <= 0x1_0000_0000_0000,
    ensures
        b == (norm_sq(dx as int, dy as int) >= r * r),
{
    let ar: i128 = if r < 0 {
        -(r as i128)
    } else {
        r as i128
    };
    let adx: i128 = if dx < 0 {
        -dx
    } else {
        dx
    };
    let ady: i128 = if dy < 0 {
        -dy
    } else {
        dy
    };
    assert(ar * ar == r * r && adx * adx == dx * dx && ady * ady == dy * dy) by (nonlinear_arith)
        requires
            ar == r || ar == -r,
            adx == dx || adx == -dx,
            ady == dy || ady == -dy,
    ;
    if adx >= ar || ady >= ar {
        assert(adx * adx + ady * ady >= ar * ar) by (nonlinear_arith)
            requires
                adx >= ar || ady >= ar,
                0 <= ar,
                0 <= adx,
                0 <= ady,
        ;
        true
    } else {
        assert(adx * adx <= ar * ar && ady * ady <= ar * ar && ar * ar <= 0x1_0000_0000_0000
            * 0x1_0000_0000_0000) by (nonlinear_arith)
            requires
                0 <= adx <= ar,
                0 <= ady <= ar,
                ar <= 0x1_0000_0000_0000,
        ;
        adx * adx + ady * ady >= ar * ar
    }
}

/// Index `i` is one of `count` indices and lies within `reach` of `centre`.
pub open spec fn clipped(i: int, centre: int, reach: int, count: int) -> bool {
    0 <= i < count && centre - reach <= i <= centre + reach
}

/// The indices within `reach` cells of `centre`, clipped to `[0, count)`, as a
/// half-open range.
pub fn scan_range(centre: i32, reach: i32, count: usize) -> (r: (usize, usize))
    requires
        0 <= centre,
    ensures
        r.0 <= r.1 <= count,
        forall|i: int| (r.0 <= i < r.1) == #[trigger] clipped(i, centre as int, reach as int, count as int),
{
    let low: i64 = centre as i64 - reach as i64;
    let high: i64 = centre as i64 + reach as i64 + 1;
    if high <= 0 || high <= low {
        return (0, 0);
    }
    let lo: usize = if low <= 0 {
        0
    } else if low as u64 >= count as u64 {
        count
    } else {
        low as usize
    };
    let hi: usize = if high as u64 >= count as u64 {
        count
    } else {
        high as usize
    };
    (lo, hi)
}

/// Index `i` is one of `count` indices and lies in `[low, high)`.
pub open spec fn spanned(i: int, low: int, high: int, count: int) -> bool {
    0 <= i < count && low <= i < high
}

/// The indices of `[low, high)`, clipped to `[0, count)`, as a half-open range.
pub fn clip_span(low: i64, high: i64, count: usize) -> (r: (usize, usize))
    ensures
        r.0 <= r.1 <= count,
        forall|i: int| (r.0 <= i < r.1) == #[trigger] spanned(i, low as int, high as int, count as int),
{
    if high <= 0 || high <= low {
        return (0, 0);
    }
    let lo: usize = if low <= 0 {
        0
    } else if low as u64 >= count as u64 {
        count
    } else {
        low as usize
    };
    let hi: usize = if high as u64 >= count as u64 {
        count
    } else {
        high as usize
    };
    (lo, hi)
}

/// A cell that a circle covers entirely lies within the circle's scan reach
/// of the centre cell, along each axis.
pub proof fn lemma_covered_cell_in_reach(cell_size: int, g: int, c: int, radius: int)
    requires
        cell_size > 0,
        radius >= 0,
        g >= 0,
        (g * cell_size - c) * (g * cell_size - c) <= radius * radius,
        ((g + 1) * cell_size - c) * ((g + 1) * cell_size - c) <= radius * radius,
    ensures
        in_reach(g, c, radius, cell_size),
{
    let a = g * cell_size - c;
    let b = (g + 1) * cell_size - c;
    assert(-radius <= a <= radius) by (nonlinear_arith)
        requires
            a * a <= radius * radius,
            radius >= 0,
    ;
    assert(-radius <= b <= radius) by (nonlinear_arith)
        requires
            b * b <= radius * radius,
            radius >= 0,
    ;
    let ci = cell_index(c, cell_size);
    let reach = cells_spanned(radius, cell_size);
    assert(reach * cell_size >= radius && reach >= 0) by (nonlinear_arith)
        requires
            reach == cells_spanned(radius, cell_size),
            cell_size > 0,
            radius >= 0,
    {
        if radius > 0 {
            assert(reach == (radius + cell_size - 1) / cell_size);
        }
    }
    if c >= 0 {
        assert(ci * cell_size <= c < (ci + 1) * cell_size) by (nonlinear_arith)
            requires
                ci == c / cell_size,
                cell_size > 0,
        ;
        assert(g >= ci - reach) by (nonlinear_arith)
            requires
                g * cell_size - c >= -radius,
                ci * cell_size <= c,
                reach * cell_size >= radius,
                cell_size > 0,
        ;
        assert(g <= ci + reach) by (nonlinear_arith)
            requires
                (g + 1) * cell_size - c <= radius,
                c < (ci + 1) * cell_size,
                reach * cell_size >= radius,
                cell_size > 0,
        ;
    } else {
        assert(g <= reach) by (nonlinear_arith)
            requires
                (g + 1) * cell_size - c <= radius,
                c < 0,
                reach * cell_size >= radius,
                cell_size > 0,
        ;
    }
}


/// `r` is the integer square root of `v`: the largest integer whose square
/// does not exceed `v`.
pub open spec fn is_isqrt(v: int, r: int) -> bool {
    0 <= r && r * r <= v && v < (r + 1) * (r + 1)
}

/// The integer square root of `v`, for `v >= 0`.
pub open spec fn isqrt(v: int) -> int {
    choose|r: int| is_isqrt(v, r)
}

/// The integer square root is unique.
pub proof fn lemma_isqrt_unique(v: int, r: int)
    requires
        is_isqrt(v, r),
    ensures
        isqrt(v) == r,
{
    let s = isqrt(v);
    assert(is_isqrt(v, s));
    assert(s < r + 1) by (nonlinear_arith)
        requires
            s * s <= v,
            v < (r + 1) * (r + 1),
            0 <= s,
            0 <= r,
    ;
    assert(r < s + 1) by (nonlinear_arith)
        requires
            r * r <= v,
            v < (s + 1) * (s + 1),
            0 <= s,
            0 <= r,
    ;
}

/// Computes the integer square root by bisection.
pub fn isqrt_of(v: u128) -> (r: u64)
    requires
        v < 0x8000_0000_0000_0000 * 0x8000_0000_0000_0000,
    ensures
        r == isqrt(v as int),
        is_isqrt(v as int, r as int),
        r < 0x8000_0000_0000_0000,
{
    let mut lo: u128 = 0;
    let mut hi: u128 = 0x8000_0000_0000_0000;
    while hi - lo > 1
        invariant
            lo < hi <= 0x8000_0000_0000_0000,
            lo * lo <= v,
            v < hi * hi,
        decreases hi - lo,
    {
        let mid: u128 = lo + (hi - lo) / 2;
        assert(mid * mid < 0x8000_0000_0000_0000 * 0x8000_0000_0000_0000) by (nonlinear_arith)
            requires
                0 <= mid < 0x8000_0000_0000_0000,
        ;
        if mid * mid <= v {
            lo = mid;
        } else {
            hi = mid;
        }
    }
    proof {
        lemma_isqrt_unique(v as int, lo as int);
    }
    lo as u64
}

/// `v` limited to the range of a coordinate.
pub open spec fn clamp_coordinate(v: int) -> int {
    if v < i32::MIN {
        i32::MIN as int
    } else if v > i32::MAX {
        i32::MAX as int
    } else {
        v
    }
}

/// Limits a number to the range of a coordinate, see `clamp_coordinate`.
pub fn clamp_to_coordinate(v: i64) -> (c: i32)
    ensures
        c == clamp_coordinate(v as int),
{
    if v < i32::MIN as i64 {
        i32::MIN
    } else if v > i32::MAX as i64 {
        i32::MAX
    } else {
        v as i32
    }
}

/// `a / b` rounded towards zero, for a positive `b`.
pub open spec fn div_toward_zero(a: int, b: int) -> int {
    if a >= 0 {
        a / b
    } else {
        -((-a) / b)
    }
}

/// Whether the circle lies in the rectangle from `(min_x, min_y)` to
/// `(max_x, max_y)` at least in part, going by its extremes along the axes.
pub fn is_circle_in_grid(
    circle_x: i32,
    circle_y: i32,
    radius: i32,
    min_x: i32,
    min_y: i32,
    max_x: i32,
    max_y: i32,
) -> (inside: bool)
    ensures
        inside == !(circle_x + radius < min_x || circle_x - radius > max_x || circle_y + radius
            < min_y || circle_y - radius > max_y),
{
    !(circle_x as i64 + (radius as i64) < min_x as i64 || circle_x as i64 - radius as i64
        > max_x as i64 || circle_y as i64 + (radius as i64) < min_y as i64 || circle_y as i64
        - radius as i64 > max_y as i64)
}

} // verus!
