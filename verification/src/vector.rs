use crate::geometry::div_toward_zero;
use crate::geometry::isqrt;
use crate::geometry::isqrt_of;
use vstd::prelude::*;

verus! {

/// Fixed-point length of a unit direction vector.
pub const DIR_SCALE: i32 = 1_073_741_824;

/// A 2D integer vector. Positions are in world units; directions are scaled so
/// that a unit vector has length `DIR_SCALE`.
#[derive(Debug, Clone, Copy, PartialEq, Eq, Structural)]
pub struct Vector {
    pub x: i32,
    pub y: i32,
}

impl Vector {
    /// The vector with the given components.
    pub fn new(x: i32, y: i32) -> (v: Self)
        ensures
            v.x == x,
            v.y == y,
    {
        Vector { x, y }
    }

    /// Both components lie within `[-DIR_SCALE, DIR_SCALE]`, as those of every
    /// vector of at most unit length do.
    pub open spec fn in_unit_square(self) -> bool {
        &&& -DIR_SCALE <= self.x <= DIR_SCALE
        &&& -DIR_SCALE <= self.y <= DIR_SCALE
    }

    /// The squared length of the vector.
    pub open spec fn length_sq(self) -> int {
        self.x * self.x + self.y * self.y
    }

    /// A direction: a vector of unit length, up to the rounding of its
    /// components to whole numbers. The square of its length is
    /// `DIR_SCALE * DIR_SCALE - 4 * DIR_SCALE` at least and less than the
    /// square of `DIR_SCALE + 1`, so that its length is off `DIR_SCALE` by
    /// less than 3. The zero vector is no direction.
    pub open spec fn is_direction(self) -> bool {
        &&& self.in_unit_square()
        &&& DIR_SCALE * DIR_SCALE - 4 * DIR_SCALE <= self.length_sq() < (DIR_SCALE + 1) * (DIR_SCALE
            + 1)
    }
}

/// A component of a vector made ready for scaling to unit length: for the
/// sake of precision the components of a vector that is shorter than
/// `2 * DIR_SCALE` along both axes are multiplied by `DIR_SCALE` first.
pub open spec fn widened(component: int, x: int, y: int) -> int {
    if -2 * DIR_SCALE < x < 2 * DIR_SCALE && -2 * DIR_SCALE < y < 2 * DIR_SCALE {
        component * DIR_SCALE
    } else {
        component
    }
}

/// The vector `(x, y)` scaled to unit length: each component, widened, is
/// multiplied by `DIR_SCALE` and divided by the length of the widened vector,
/// rounding towards zero, the length being the integer square root of the sum
/// of the squares. The zero vector stays the zero vector.
pub open spec fn unit_vector(x: int, y: int) -> Vector {
    let wx = widened(x, x, y);
    let wy = widened(y, x, y);
    let length = isqrt(wx * wx + wy * wy);
    if length == 0 {
        Vector { x: 0, y: 0 }
    } else {
        Vector {
            x: div_toward_zero(wx * DIR_SCALE, length) as i32,
            y: div_toward_zero(wy * DIR_SCALE, length) as i32,
        }
    }
}

/// `a / b` rounded towards zero, for a divisor of either sign.
pub open spec fn quotient(a: int, b: int) -> int {
    if b > 0 {
        div_toward_zero(a, b)
    } else {
        -div_toward_zero(a, -b)
    }
}

/// The direction `dir` turned by the small angle `step / radius` (in radians,
/// counter-clockwise for a positive radius) with the first-order rotation
/// `(x - y * angle, y + x * angle)`, then scaled back to unit length.
pub open spec fn drifted(dir: Vector, step: int, radius: int) -> Vector {
    unit_vector(dir.x - quotient(dir.y * step, radius), dir.y + quotient(dir.x * step, radius))
}

/// How far one step of length `step_size` along `dir` moves the cutter, along
/// one axis: the component times the step length, divided by `DIR_SCALE`,
/// rounded towards zero.
pub open spec fn travel(component: int, step_size: int) -> int {
    div_toward_zero(component * step_size, DIR_SCALE as int)
}

/// For `p` the quotient of `a >= 0` by `n >= 1`, rounded down, the square of
/// `n * p` falls short of the square of `a` by `2 * a * n` at most.
pub proof fn lemma_floor_square(a: int, n: int, p: int)
    requires
        n >= 1,
        a >= 0,
        p == a / n,
    ensures
        p >= 0,
        a * a - 2 * (a * n) <= (n * p) * (n * p) <= a * a,
{
    let m = n * p;
    assert(0 <= p && m <= a && a < m + n) by (nonlinear_arith)
        requires
            n >= 1,
            a >= 0,
            p == a / n,
            m == n * p,
    ;
    assert(m >= 0) by (nonlinear_arith)
        requires
            m == n * p,
            n >= 1,
            p >= 0,
    ;
    assert(m * m <= a * a) by (nonlinear_arith)
        requires
            0 <= m <= a,
    ;
    if a >= n {
        let d = a - n;
        assert(m * m >= d * d) by (nonlinear_arith)
            requires
                0 <= d <= m,
        ;
        assert(d * d == a * a - 2 * (a * n) + n * n) by (nonlinear_arith)
            requires
                d == a - n,
        ;
        assert(n * n >= 0) by (nonlinear_arith);
    } else {
        assert(a * a <= a * n) by (nonlinear_arith)
            requires
                0 <= a < n,
        ;
        assert(a * n >= 0) by (nonlinear_arith)
            requires
                0 <= a,
                n >= 1,
        ;
        assert(m * m >= 0) by (nonlinear_arith);
    }
}

/// A vector of length `n` at least, rounded down, whose components are
/// multiplied by `s <= n` and divided by `n`, has the length `s` up to
/// rounding: the square of its length lies between `s * s - 4 * s` and the
/// square of `s + 1`.
pub proof fn lemma_scaled_length(wx: int, wy: int, n: int, s: int, p: int, q: int)
    requires
        1 <= s <= n,
        n * n <= wx * wx + wy * wy < (n + 1) * (n + 1),
        p == div_toward_zero(wx * s, n),
        q == div_toward_zero(wy * s, n),
    ensures
        s * s - 4 * s <= p * p + q * q < (s + 1) * (s + 1),
{
    let ax = if wx >= 0 { wx } else { -wx };
    let ay = if wy >= 0 { wy } else { -wy };
    let a = ax * s;
    let b = ay * s;
    let pp = a / n;
    let qq = b / n;
    assert(a >= 0 && b >= 0 && (wx >= 0 ==> wx * s == a && wx * s >= 0) && (wx < 0 ==> -(wx * s) == a
        && wx * s < 0) && (wy >= 0 ==> wy * s == b && wy * s >= 0) && (wy < 0 ==> -(wy * s) == b && wy
        * s < 0)) by (nonlinear_arith)
        requires
            a == ax * s,
            b == ay * s,
            ax == if wx >= 0 { wx } else { -wx },
            ay == if wy >= 0 { wy } else { -wy },
            s >= 1,
    ;
    assert(p == pp || p == -pp);
    assert(q == qq || q == -qq);
    assert(p * p == pp * pp && q * q == qq * qq) by (nonlinear_arith)
        requires
            p == pp || p == -pp,
            q == qq || q == -qq,
    ;
    lemma_floor_square(a, n, pp);
    lemma_floor_square(b, n, qq);
    let x = n * pp;
    let y = n * qq;
    let norm = wx * wx + wy * wy;
    assert(ax * ax == wx * wx && ay * ay == wy * wy) by (nonlinear_arith)
        requires
            ax == wx || ax == -wx,
            ay == wy || ay == -wy,
    ;
    assert(a * a + b * b == (s * s) * norm) by (nonlinear_arith)
        requires
            a == ax * s,
            b == ay * s,
            ax * ax == wx * wx,
            ay * ay == wy * wy,
            norm == wx * wx + wy * wy,
    ;
    assert(ax <= n && ay <= n) by (nonlinear_arith)
        requires
            ax * ax + ay * ay < (n + 1) * (n + 1),
            ax >= 0,
            ay >= 0,
            n >= 1,
    ;
    let t = pp * pp + qq * qq;
    assert(x * x + y * y == (n * n) * t) by (nonlinear_arith)
        requires
            x == n * pp,
            y == n * qq,
            t == pp * pp + qq * qq,
    ;
    // from above
    let up = (s + 1) * (s + 1);
    assert((s * s) * norm < (n * n) * up) by (nonlinear_arith)
        requires
            norm < (n + 1) * (n + 1),
            1 <= s <= n,
            up == (s + 1) * (s + 1),
            norm >= 0,
    ;
    assert(t < up) by (nonlinear_arith)
        requires
            (n * n) * t < (n * n) * up,
            n >= 1,
    ;
    // from below
    let low = s * s - 4 * s;
    assert(2 * (a * n) + 2 * (b * n) <= (n * n) * (4 * s)) by (nonlinear_arith)
        requires
            a == ax * s,
            b == ay * s,
            0 <= ax <= n,
            0 <= ay <= n,
            s >= 1,
            n >= 1,
    ;
    assert((s * s) * norm >= (n * n) * (s * s)) by (nonlinear_arith)
        requires
            norm >= n * n,
            s >= 1,
    ;
    assert((n * n) * (s * s) - (n * n) * (4 * s) == (n * n) * low) by (nonlinear_arith)
        requires
            low == s * s - 4 * s,
    ;
    assert(t >= low) by (nonlinear_arith)
        requires
            (n * n) * t >= (n * n) * low,
            n >= 1,
    ;
}

/// The part by which a component `v` of a direction is turned, the quotient
/// of `v * step` by `radius`, has the sign of `v` where `step` and `radius`
/// have the same sign, and the other sign where they have not; it is 0 for a
/// component that is 0.
pub proof fn lemma_turn_sign(v: int, step: int, radius: int)
    requires
        radius != 0,
    ensures
        (step >= 0) == (radius > 0) && v >= 0 ==> quotient(v * step, radius) >= 0,
        (step >= 0) == (radius > 0) && v <= 0 ==> quotient(v * step, radius) <= 0,
        (step >= 0) != (radius > 0) && v >= 0 ==> quotient(v * step, radius) <= 0,
        (step >= 0) != (radius > 0) && v <= 0 ==> quotient(v * step, radius) >= 0,
{
    let n = v * step;
    assert((v >= 0 && step >= 0 ==> n >= 0) && (v <= 0 && step >= 0 ==> n <= 0) && (v >= 0 && step
        < 0 ==> n <= 0) && (v <= 0 && step < 0 ==> n >= 0)) by (nonlinear_arith)
        requires
            n == v * step,
    ;
    let size = if radius > 0 {
        radius
    } else {
        -radius
    };
    let part = div_toward_zero(n, size);
    assert((n >= 0 ==> part >= 0) && (n <= 0 ==> part <= 0)) by (nonlinear_arith)
        requires
            part == if n >= 0 {
                n / size
            } else {
                -((-n) / size)
            },
            size >= 1,
    ;
}

/// A vector that is not the zero vector is not turned into the zero vector.
pub proof fn lemma_turned_is_not_zero(dir: Vector, step: int, radius: int)
    requires
        radius != 0,
        dir.x != 0 || dir.y != 0,
    ensures
        dir.x - quotient(dir.y * step, radius) != 0 || dir.y + quotient(dir.x * step, radius) != 0,
{
    lemma_turn_sign(dir.x as int, step, radius);
    lemma_turn_sign(dir.y as int, step, radius);
}

/// A direction mirrored along any of the axes is a direction.
pub proof fn lemma_mirrored_direction(dir: Vector, mirrored: Vector)
    requires
        dir.is_direction(),
        mirrored.x == dir.x || mirrored.x == -dir.x,
        mirrored.y == dir.y || mirrored.y == -dir.y,
    ensures
        mirrored.is_direction(),
{
    assert(mirrored.x * mirrored.x == dir.x * dir.x && mirrored.y * mirrored.y == dir.y * dir.y)
        by (nonlinear_arith)
        requires
            mirrored.x == dir.x || mirrored.x == -dir.x,
            mirrored.y == dir.y || mirrored.y == -dir.y,
    ;
}

/// Scales `(x, y)` to unit length, see `unit_vector`.
pub fn normalize(x: i64, y: i64) -> (v: Vector)
    requires
        -0x4000_0000_0000_0000 <= x <= 0x4000_0000_0000_0000,
        -0x4000_0000_0000_0000 <= y <= 0x4000_0000_0000_0000,
    ensures
        v == unit_vector(x as int, y as int),
        v.in_unit_square(),
        x != 0 || y != 0 ==> v.is_direction(),
        x == 0 && y == 0 ==> v == (Vector { x: 0, y: 0 }),
{
    let scale: i128 = DIR_SCALE as i128;
    let short = -2 * scale < x as i128 && (x as i128) < 2 * scale && -2 * scale < y as i128 && (
    y as i128) < 2 * scale;
    let wx: i128 = if short {
        x as i128 * scale
    } else {
        x as i128
    };
    let wy: i128 = if short {
        y as i128 * scale
    } else {
        y as i128
    };
    assert(0 <= wx * wx <= 0x4000_0000_0000_0000 * 0x4000_0000_0000_0000 && 0 <= wy * wy
        <= 0x4000_0000_0000_0000 * 0x4000_0000_0000_0000) by (nonlinear_arith)
        requires
            -0x4000_0000_0000_0000 <= wx <= 0x4000_0000_0000_0000,
            -0x4000_0000_0000_0000 <= wy <= 0x4000_0000_0000_0000,
    ;
    let length: i128 = isqrt_of((wx * wx + wy * wy) as u128) as i128;
    proof {
        let norm = wx * wx + wy * wy;
        if x != 0 || y != 0 {
            assert(norm >= scale * scale) by (nonlinear_arith)
                requires
                    norm == wx * wx + wy * wy,
                    scale == 0x4000_0000,
                    x != 0 || y != 0,
                    short ==> wx == x * scale && wy == y * scale,
                    !short ==> wx == x && wy == y && (x <= -2 * scale || x >= 2 * scale || y <= -2
                        * scale || y >= 2 * scale),
            ;
            assert(length >= scale) by (nonlinear_arith)
                requires
                    norm >= scale * scale,
                    norm < (length + 1) * (length + 1),
                    length >= 0,
                    scale >= 0,
            ;
        }
    }
    if length == 0 {
        return Vector { x: 0, y: 0 };
    }
    assert(-length <= wx <= length && -length <= wy <= length) by (nonlinear_arith)
        requires
            wx * wx + wy * wy < (length + 1) * (length + 1),
            length >= 0,
    ;
    assert(-0x4000_0000_0000_0000 * 0x4000_0000 <= wx * scale <= 0x4000_0000_0000_0000
        * 0x4000_0000 && -0x4000_0000_0000_0000 * 0x4000_0000 <= wy * scale
        <= 0x4000_0000_0000_0000 * 0x4000_0000) by (nonlinear_arith)
        requires
            -0x4000_0000_0000_0000 <= wx <= 0x4000_0000_0000_0000,
            -0x4000_0000_0000_0000 <= wy <= 0x4000_0000_0000_0000,
            scale == 0x4000_0000,
    ;
    let nx: i128 = (wx * scale) / length;
    let ny: i128 = (wy * scale) / length;
    assert(-scale <= nx <= scale && -scale <= ny <= scale) by (nonlinear_arith)
        requires
            nx == div_toward_zero(wx * scale, length as int),
            ny == div_toward_zero(wy * scale, length as int),
            length >= 1,
            -length <= wx <= length,
            -length <= wy <= length,
            scale > 0,
    ;
    proof {
        if x != 0 || y != 0 {
            lemma_scaled_length(wx as int, wy as int, length as int, scale as int, nx as int, ny as int);
            assert(scale * scale == DIR_SCALE * DIR_SCALE) by (nonlinear_arith)
                requires
                    scale == DIR_SCALE,
            ;
            assert((scale + 1) * (scale + 1) == (DIR_SCALE + 1) * (DIR_SCALE + 1)) by (nonlinear_arith)
                requires
                    scale == DIR_SCALE,
            ;
        }
    }
    Vector { x: nx as i32, y: ny as i32 }
}

/// Turns `dir` by the small angle `step / radius`, see `drifted`.
pub fn drift(dir: Vector, step: i32, radius: i32) -> (v: Vector)
    requires
        dir.is_direction(),
        radius != 0,
    ensures
        v == drifted(dir, step as int, radius as int),
        v.is_direction(),
{
    let x: i64 = dir.x as i64;
    let y: i64 = dir.y as i64;
    assert(-0x4000_0000 * 0x8000_0000 <= y * step <= 0x4000_0000 * 0x8000_0000 && -0x4000_0000
        * 0x8000_0000 <= x * step <= 0x4000_0000 * 0x8000_0000) by (nonlinear_arith)
        requires
            -0x4000_0000 <= x <= 0x4000_0000,
            -0x4000_0000 <= y <= 0x4000_0000,
            -0x8000_0000 <= step <= 0x8000_0000,
    ;
    let ys: i64 = y * step as i64;
    let xs: i64 = x * step as i64;
    let size: i64 = if radius < 0 {
        -(radius as i64)
    } else {
        radius as i64
    };
    let part_x: i64 = ys / size;
    let part_y: i64 = xs / size;
    assert(-0x4000_0000 * 0x8000_0000 <= part_x <= 0x4000_0000 * 0x8000_0000 && -0x4000_0000
        * 0x8000_0000 <= part_y <= 0x4000_0000 * 0x8000_0000) by (nonlinear_arith)
        requires
            part_x == div_toward_zero(ys as int, size as int),
            part_y == div_toward_zero(xs as int, size as int),
            size >= 1,
            -0x4000_0000 * 0x8000_0000 <= ys <= 0x4000_0000 * 0x8000_0000,
            -0x4000_0000 * 0x8000_0000 <= xs <= 0x4000_0000 * 0x8000_0000,
    ;
    let turn_x: i64 = if radius < 0 {
        -part_x
    } else {
        part_x
    };
    let turn_y: i64 = if radius < 0 {
        -part_y
    } else {
        part_y
    };
    proof {
        assert(dir.x != 0 || dir.y != 0) by (nonlinear_arith)
            requires
                dir.x * dir.x + dir.y * dir.y >= DIR_SCALE * DIR_SCALE - 4 * DIR_SCALE,
        ;
        lemma_turned_is_not_zero(dir, step as int, radius as int);
    }
    normalize(x - turn_x, y + turn_y)
}

/// The displacement of one step of length `step_size` along `dir`.
pub fn displacement(dir: Vector, step_size: i32) -> (d: Vector)
    requires
        dir.in_unit_square(),
        step_size >= 0,
    ensures
        d.x == travel(dir.x as int, step_size as int),
        d.y == travel(dir.y as int, step_size as int),
        -step_size <= d.x <= step_size,
        -step_size <= d.y <= step_size,
{
    let scale: i64 = DIR_SCALE as i64;
    assert(-0x4000_0000 * 0x8000_0000 <= dir.x * step_size <= 0x4000_0000 * 0x8000_0000
        && -0x4000_0000 * 0x8000_0000 <= dir.y * step_size <= 0x4000_0000 * 0x8000_0000)
        by (nonlinear_arith)
        requires
            -0x4000_0000 <= dir.x <= 0x4000_0000,
            -0x4000_0000 <= dir.y <= 0x4000_0000,
            0 <= step_size <= 0x8000_0000,
    ;
    let px: i64 = dir.x as i64 * step_size as i64;
    let py: i64 = dir.y as i64 * step_size as i64;
    let dx: i64 = px / scale;
    let dy: i64 = py / scale;
    assert(-step_size <= dx <= step_size && -step_size <= dy <= step_size) by (nonlinear_arith)
        requires
            dx == div_toward_zero(px as int, scale as int),
            dy == div_toward_zero(py as int, scale as int),
            px == dir.x * step_size,
            py == dir.y * step_size,
            scale == 0x4000_0000,
            -0x4000_0000 <= dir.x <= 0x4000_0000,
            -0x4000_0000 <= dir.y <= 0x4000_0000,
            0 <= step_size,
    ;
    Vector { x: dx as i32, y: dy as i32 }
}

impl core::ops::Add for Vector {
    type Output = Vector;

    fn add(self, other: Vector) -> (v: Vector) {
        Vector { x: self.x + other.x, y: self.y + other.y }
    }
}

impl vstd::std_specs::ops::AddSpecImpl for Vector {
    open spec fn obeys_add_spec() -> bool {
        true
    }

    /// The sum overflows along neither axis.
    open spec fn add_req(self, other: Vector) -> bool {
        &&& i32::MIN <= self.x + other.x <= i32::MAX
        &&& i32::MIN <= self.y + other.y <= i32::MAX
    }

    /// The component-wise sum.
    open spec fn add_spec(self, other: Vector) -> Vector {
        Vector { x: (self.x + other.x) as i32, y: (self.y + other.y) as i32 }
    }
}

impl core::ops::Sub for Vector {
    type Output = Vector;

    fn sub(self, other: Vector) -> (v: Vector) {
        Vector { x: self.x - other.x, y: self.y - other.y }
    }
}

impl vstd::std_specs::ops::SubSpecImpl for Vector {
    open spec fn obeys_sub_spec() -> bool {
        true
    }

    /// The difference overflows along neither axis.
    open spec fn sub_req(self, other: Vector) -> bool {
        &&& i32::MIN <= self.x - other.x <= i32::MAX
        &&& i32::MIN <= self.y - other.y <= i32::MAX
    }

    /// The component-wise difference.
    open spec fn sub_spec(self, other: Vector) -> Vector {
        Vector { x: (self.x - other.x) as i32, y: (self.y - other.y) as i32 }
    }
}

impl core::ops::Mul<i32> for Vector {
    type Output = Vector;

    fn mul(self, scalar: i32) -> (v: Vector) {
        Vector { x: self.x * scalar, y: self.y * scalar }
    }
}

impl vstd::std_specs::ops::MulSpecImpl<i32> for Vector {
    open spec fn obeys_mul_spec() -> bool {
        true
    }

    /// The product overflows along neither axis.
    open spec fn mul_req(self, scalar: i32) -> bool {
        &&& i32::MIN <= self.x * scalar <= i32::MAX
        &&& i32::MIN <= self.y * scalar <= i32::MAX
    }

    /// Both components multiplied by the scalar.
    open spec fn mul_spec(self, scalar: i32) -> Vector {
        Vector { x: (self.x * scalar) as i32, y: (self.y * scalar) as i32 }
    }
}

impl core::ops::Neg for Vector {
    type Output = Vector;

    fn neg(self) -> (v: Vector) {
        Vector { x: -self.x, y: -self.y }
    }
}

impl vstd::std_specs::ops::NegSpecImpl for Vector {
    open spec fn obeys_neg_spec() -> bool {
        true
    }

    /// Neither component is the least number, which has no opposite.
    open spec fn neg_req(self) -> bool {
        self.x > i32::MIN && self.y > i32::MIN
    }

    /// The vector pointing the opposite way.
    open spec fn neg_spec(self) -> Vector {
        Vector { x: (-self.x) as i32, y: (-self.y) as i32 }
    }
}

impl core::ops::AddAssign for Vector {
    fn add_assign(&mut self, other: Vector)
        requires
            i32::MIN <= old(self).x + other.x <= i32::MAX,
            i32::MIN <= old(self).y + other.y <= i32::MAX,
        ensures
            final(self).x == old(self).x + other.x,
            final(self).y == old(self).y + other.y,
    {
        self.x = self.x + other.x;
        self.y = self.y + other.y;
    }
}

} // verus!
