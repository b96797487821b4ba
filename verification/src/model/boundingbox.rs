use vstd::prelude::*;

verus! {

/// The region in which the centre of a cutter of some radius may lie.
#[derive(Debug, Clone, Copy, PartialEq, Eq, Structural)]
pub struct BoundingBox {
    pub min_x: i32,
    pub max_x: i32,
    pub min_y: i32,
    pub max_y: i32,
}

/// `v` limited to `[low, high]`: first raised to `low`, then lowered to `high`.
pub open spec fn limited(v: int, low: int, high: int) -> int {
    let raised = if v < low {
        low
    } else {
        v
    };
    if raised > high {
        high
    } else {
        raised
    }
}

impl BoundingBox {
    /// The box with the given limits.
    pub fn new(min_x: i32, max_x: i32, min_y: i32, max_y: i32) -> (bb: Self)
        ensures
            bb == (BoundingBox { min_x, max_x, min_y, max_y }),
    {
        Self { min_x, max_x, min_y, max_y }
    }

    /// The box is not empty.
    pub open spec fn valid(self) -> bool {
        self.min_x <= self.max_x && self.min_y <= self.max_y
    }

    /// The point lies in the box.
    pub open spec fn contains(self, x: int, y: int) -> bool {
        self.min_x <= x <= self.max_x && self.min_y <= y <= self.max_y
    }

    /// The box `[radius, width - radius] x [radius, height - radius]`.
    pub fn init(width: i32, height: i32, radius: i32) -> (bb: Self)
        requires
            i32::MIN <= width - radius <= i32::MAX,
            i32::MIN <= height - radius <= i32::MAX,
        ensures
            bb.min_x == radius,
            bb.max_x == width - radius,
            bb.min_y == radius,
            bb.max_y == height - radius,
    {
        let min_x = radius;
        let max_x = width - radius;
        let min_y = radius;
        let max_y = height - radius;
        Self::new(min_x, max_x, min_y, max_y)
    }

    /// The x coordinate limited to the box.
    pub fn limit_x(&self, x: i32) -> (r: i32)
        ensures
            r == limited(x as int, self.min_x as int, self.max_x as int),
    {
        let raised = if x < self.min_x {
            self.min_x
        } else {
            x
        };
        if raised > self.max_x {
            self.max_x
        } else {
            raised
        }
    }

    /// The y coordinate limited to the box.
    pub fn limit_y(&self, y: i32) -> (r: i32)
        ensures
            r == limited(y as int, self.min_y as int, self.max_y as int),
    {
        let raised = if y < self.min_y {
            self.min_y
        } else {
            y
        };
        if raised > self.max_y {
            self.max_y
        } else {
            raised
        }
    }

    /// The point limited to the box, each coordinate for itself.
    pub fn limit(&self, x: i32, y: i32) -> (r: (i32, i32))
        ensures
            r.0 == limited(x as int, self.min_x as int, self.max_x as int),
            r.1 == limited(y as int, self.min_y as int, self.max_y as int),
    {
        (self.limit_x(x), self.limit_y(y))
    }
}

} // verus!
