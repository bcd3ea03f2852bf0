//! Integer pairs and axis-aligned regions measured in whole units.

use vstd::prelude::*;
use vstd::std_specs::convert::FromSpecImpl;
use vstd::std_specs::ops::{AddSpecImpl, SubSpecImpl};

verus! {

/// A pair of whole-unit coordinates: a point, an offset or an extent.
#[derive(Debug, Clone, Copy, PartialEq, Eq, PartialOrd, Ord, Structural)]
pub struct IntPair {
    pub x: i32,
    pub y: i32,
}

impl IntPair {
    pub fn new(x: i32, y: i32) -> (pair: Self)
        ensures
            pair.x == x,
            pair.y == y,
    {
        Self { x, y }
    }

    /// Whether scaling both components by `rhs` stays representable.
    pub open spec fn times_fits(self, rhs: i32) -> bool {
        &&& i32::MIN <= self.x * rhs <= i32::MAX
        &&& i32::MIN <= self.y * rhs <= i32::MAX
    }

    /// Both components multiplied by `rhs`.
    pub fn times(&self, rhs: i32) -> (pair: Self)
        requires
            self.times_fits(rhs),
        ensures
            pair.x == self.x * rhs,
            pair.y == self.y * rhs,
    {
        Self { x: self.x * rhs, y: self.y * rhs }
    }

    /// Both components multiplied by `rhs`, or nothing when a product leaves `i32`.
    pub fn checked_times(&self, rhs: i32) -> (pair: Option<Self>)
        ensures
            pair is Some <==> self.times_fits(rhs),
            pair matches Some(p) ==> p.x == self.x * rhs && p.y == self.y * rhs,
    {
        match (self.x.checked_mul(rhs), self.y.checked_mul(rhs)) {
            (Some(x), Some(y)) => Some(Self { x, y }),
            _ => None,
        }
    }

    /// Half of each component, rounded toward zero.
    pub fn halved(&self) -> (pair: Self)
        ensures
            pair.x == half(self.x as int),
            pair.y == half(self.y as int),
    {
        Self { x: self.x / 2, y: self.y / 2 }
    }

    /// Each component shrunk by `by`, stopping at the ends of `i32`.
    pub fn shrunk(&self, by: i32) -> (pair: Self)
        ensures
            pair.x == clamp(self.x - by),
            pair.y == clamp(self.y - by),
    {
        Self { x: clamped_sub(self.x, by), y: clamped_sub(self.y, by) }
    }
}

/// `v` divided by two, rounding toward zero.
pub open spec fn half(v: int) -> int {
    if v >= 0 {
        v / 2
    } else {
        -((-v) / 2)
    }
}

/// `v` pulled into the range of `i32`.
pub open spec fn clamp(v: int) -> int {
    if v < i32::MIN {
        i32::MIN as int
    } else if v > i32::MAX {
        i32::MAX as int
    } else {
        v
    }
}

fn clamped_sub(a: i32, b: i32) -> (r: i32)
    ensures
        r == clamp(a - b),
{
    let wide: i64 = a as i64 - b as i64;
    if wide < i32::MIN as i64 {
        i32::MIN
    } else if wide > i32::MAX as i64 {
        i32::MAX
    } else {
        wide as i32
    }
}

impl Default for IntPair {
    fn default() -> (pair: Self)
        ensures
            pair.x == 0,
            pair.y == 0,
    {
        Self { x: 0, y: 0 }
    }
}

impl From<(i32, i32)> for IntPair {
    fn from(value: (i32, i32)) -> (pair: Self) {
        Self { x: value.0, y: value.1 }
    }
}

impl FromSpecImpl<(i32, i32)> for IntPair {
    open spec fn obeys_from_spec() -> bool {
        true
    }

    open spec fn from_spec(value: (i32, i32)) -> Self {
        IntPair { x: value.0, y: value.1 }
    }
}

impl core::ops::Add for IntPair {
    type Output = Self;

    fn add(self, rhs: Self) -> (sum: Self) {
        Self { x: self.x + rhs.x, y: self.y + rhs.y }
    }
}

impl AddSpecImpl for IntPair {
    open spec fn obeys_add_spec() -> bool {
        true
    }

    open spec fn add_req(self, rhs: Self) -> bool {
        &&& i32::MIN <= self.x + rhs.x <= i32::MAX
        &&& i32::MIN <= self.y + rhs.y <= i32::MAX
    }

    open spec fn add_spec(self, rhs: Self) -> Self {
        IntPair { x: (self.x + rhs.x) as i32, y: (self.y + rhs.y) as i32 }
    }
}

impl core::ops::Sub for IntPair {
    type Output = Self;

    fn sub(self, rhs: Self) -> (diff: Self) {
        Self { x: self.x - rhs.x, y: self.y - rhs.y }
    }
}

impl SubSpecImpl for IntPair {
    open spec fn obeys_sub_spec() -> bool {
        true
    }

    open spec fn sub_req(self, rhs: Self) -> bool {
        &&& i32::MIN <= self.x - rhs.x <= i32::MAX
        &&& i32::MIN <= self.y - rhs.y <= i32::MAX
    }

    open spec fn sub_spec(self, rhs: Self) -> Self {
        IntPair { x: (self.x - rhs.x) as i32, y: (self.y - rhs.y) as i32 }
    }
}

/// An axis-aligned rectangle: the points from `origin` up to, and not including,
/// `origin + size` on both axes.
#[derive(Debug, Clone, Copy, PartialEq, Eq, Structural)]
pub struct Region {
    pub origin: IntPair,
    pub size: IntPair,
}

impl Region {
    pub fn new(origin: IntPair, size: IntPair) -> (region: Self)
        ensures
            region.origin == origin,
            region.size == size,
    {
        Self { origin, size }
    }

    pub fn origin_size(origin: IntPair, size: IntPair) -> (region: Self)
        ensures
            region.origin == origin,
            region.size == size,
    {
        Self { origin, size }
    }

    /// The region from `begin` up to `end`.
    pub fn begin_end(begin: IntPair, end: IntPair) -> (region: Self)
        requires
            i32::MIN <= end.x - begin.x <= i32::MAX,
            i32::MIN <= end.y - begin.y <= i32::MAX,
        ensures
            region.origin == begin,
            region.size.x == end.x - begin.x,
            region.size.y == end.y - begin.y,
    {
        Self { origin: begin, size: end - begin }
    }

    /// Membership of the point `(x, y)`: the low edges belong to the region,
    /// the high edges do not.
    pub open spec fn covers(self, x: int, y: int) -> bool {
        &&& self.origin.x <= x < self.origin.x + self.size.x
        &&& self.origin.y <= y < self.origin.y + self.size.y
    }

    /// The corner opposite the origin, which lies just outside the region.
    pub open spec fn far_x(self) -> int {
        self.origin.x + self.size.x
    }

    pub open spec fn far_y(self) -> int {
        self.origin.y + self.size.y
    }

    pub fn contains(&self, point: IntPair) -> (inside: bool)
        ensures
            inside == self.covers(point.x as int, point.y as int),
    {
        let px: i64 = point.x as i64;
        let py: i64 = point.y as i64;
        let ox: i64 = self.origin.x as i64;
        let oy: i64 = self.origin.y as i64;
        px >= ox && px < ox + self.size.x as i64 && py >= oy && py < oy + self.size.y as i64
    }

    /// Whether both the origin of `region` and its far corner are members of `self`.
    pub fn contains_region(&self, region: &Region) -> (inside: bool)
        ensures
            inside == (self.covers(region.origin.x as int, region.origin.y as int) && self.covers(
                region.far_x(),
                region.far_y(),
            )),
    {
        self.contains(region.origin) && self.holds(
            region.origin.x as i64 + region.size.x as i64,
            region.origin.y as i64 + region.size.y as i64,
        )
    }

    /// Whether either region has its origin or its far corner inside the other.
    pub fn intersects(&self, region: &Region) -> (meet: bool)
        ensures
            meet == (self.covers(region.origin.x as int, region.origin.y as int) || self.covers(
                region.far_x(),
                region.far_y(),
            ) || region.covers(self.origin.x as int, self.origin.y as int) || region.covers(
                self.far_x(),
                self.far_y(),
            )),
    {
        self.contains(region.origin) || self.holds(
            region.origin.x as i64 + region.size.x as i64,
            region.origin.y as i64 + region.size.y as i64,
        ) || region.contains(self.origin) || region.holds(
            self.origin.x as i64 + self.size.x as i64,
            self.origin.y as i64 + self.size.y as i64,
        )
    }

    fn holds(&self, x: i64, y: i64) -> (inside: bool)
        requires
            -0x1_0000_0000 <= x <= 0x1_0000_0000,
            -0x1_0000_0000 <= y <= 0x1_0000_0000,
        ensures
            inside == self.covers(x as int, y as int),
    {
        let ox: i64 = self.origin.x as i64;
        let oy: i64 = self.origin.y as i64;
        x >= ox && x < ox + self.size.x as i64 && y >= oy && y < oy + self.size.y as i64
    }
}

} // verus!
