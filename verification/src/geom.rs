//! Geometry data types
//!
//! Positions are signed, extents are unsigned. All arithmetic saturates at
//! the limits of the component type: adding never wraps, and subtracting a
//! larger extent from a smaller one gives zero.

use std::ops::{Add, AddAssign, Sub, SubAssign};
use vstd::prelude::*;
use vstd::std_specs::convert::FromSpecImpl;
use vstd::std_specs::ops::{AddSpecImpl, SubSpecImpl};

verus! {

/// The `i32` nearest to `v`.
pub open spec fn clamp_i32(v: int) -> i32 {
    if v > i32::MAX {
        i32::MAX
    } else if v < i32::MIN {
        i32::MIN
    } else {
        v as i32
    }
}

/// The `u32` nearest to `v`.
pub open spec fn clamp_u32(v: int) -> u32 {
    if v > u32::MAX {
        u32::MAX
    } else if v < 0 {
        0u32
    } else {
        v as u32
    }
}

/// Saturating conversion from a wide integer to `i32`.
pub fn to_i32(v: i64) -> (r: i32)
    ensures
        r == clamp_i32(v as int),
{
    if v > i32::MAX as i64 {
        i32::MAX
    } else if v < i32::MIN as i64 {
        i32::MIN
    } else {
        v as i32
    }
}

/// Saturating conversion from a wide integer to `u32`.
pub fn to_u32(v: i64) -> (r: u32)
    ensures
        r == clamp_u32(v as int),
{
    if v > u32::MAX as i64 {
        u32::MAX
    } else if v < 0 {
        0
    } else {
        v as u32
    }
}

/// An `(x, y)` coordinate.
#[derive(Copy, Clone, PartialEq, Eq, Debug, Default, Structural)]
pub struct Coord(pub i32, pub i32);

/// A `(dx, dy)` displacement between two coordinates.
#[derive(Copy, Clone, PartialEq, Eq, Debug, Default, Structural)]
pub struct Offset(pub i32, pub i32);

/// A `(w, h)` size.
#[derive(Copy, Clone, PartialEq, Eq, Debug, Default, Structural)]
pub struct Size(pub u32, pub u32);

/// A rectangular region.
#[derive(Copy, Clone, PartialEq, Eq, Debug, Default, Structural)]
pub struct Rect {
    pub pos: Coord,
    pub size: Size,
}

impl Coord {
    /// A coord of `(0, 0)`
    pub fn zero() -> (r: Coord)
        ensures
            r == Coord(0, 0),
    {
        Coord(0, 0)
    }

    /// The coordinate displaced by `by`, saturating.
    pub open spec fn moved(self, by: Offset) -> Coord {
        Coord(clamp_i32(self.0 + by.0), clamp_i32(self.1 + by.1))
    }

    /// The displacement that leads from `origin` to this coordinate, saturating.
    pub open spec fn relative_to(self, origin: Coord) -> Offset {
        Offset(clamp_i32(self.0 - origin.0), clamp_i32(self.1 - origin.1))
    }

    /// Displace by an offset.
    pub fn offset_by(self, by: Offset) -> (r: Coord)
        ensures
            r == self.moved(by),
    {
        Coord(to_i32(self.0 as i64 + by.0 as i64), to_i32(self.1 as i64 + by.1 as i64))
    }

    /// The displacement from `origin` to this coordinate.
    pub fn offset_from(self, origin: Coord) -> (r: Offset)
        ensures
            r == self.relative_to(origin),
    {
        Offset(to_i32(self.0 as i64 - origin.0 as i64), to_i32(self.1 as i64 - origin.1 as i64))
    }
}

impl From<(i32, i32)> for Coord {
    fn from(coord: (i32, i32)) -> (r: Coord) {
        Coord(coord.0, coord.1)
    }
}

impl FromSpecImpl<(i32, i32)> for Coord {
    open spec fn obeys_from_spec() -> bool {
        true
    }

    open spec fn from_spec(coord: (i32, i32)) -> Coord {
        Coord(coord.0, coord.1)
    }
}

impl Add for Coord {
    type Output = Coord;

    fn add(self, other: Coord) -> (r: Coord) {
        Coord(to_i32(self.0 as i64 + other.0 as i64), to_i32(self.1 as i64 + other.1 as i64))
    }
}

impl AddSpecImpl for Coord {
    open spec fn obeys_add_spec() -> bool {
        true
    }

    open spec fn add_req(self, other: Coord) -> bool {
        true
    }

    open spec fn add_spec(self, other: Coord) -> Coord {
        Coord(clamp_i32(self.0 + other.0), clamp_i32(self.1 + other.1))
    }
}

impl AddAssign<Size> for Coord {
    fn add_assign(&mut self, rhs: Size)
        ensures
            *final(self) == Coord(
                clamp_i32(old(self).0 + rhs.0),
                clamp_i32(old(self).1 + rhs.1),
            ),
    {
        self.0 = to_i32(self.0 as i64 + rhs.0 as i64);
        self.1 = to_i32(self.1 as i64 + rhs.1 as i64);
    }
}

impl Offset {
    /// The zero displacement
    pub fn zero() -> (r: Offset)
        ensures
            r == Offset(0, 0),
    {
        Offset(0, 0)
    }

    /// The displacement repeated `n` times, saturating.
    pub open spec fn times(self, n: int) -> Offset {
        Offset(clamp_i32(self.0 * n), clamp_i32(self.1 * n))
    }

    /// Multiply both components by `n`.
    pub fn scaled(self, n: i32) -> (r: Offset)
        ensures
            r == self.times(n as int),
    {
        assert(i32::MIN * i32::MAX <= self.0 * n <= i32::MIN * i32::MIN) by (nonlinear_arith)
            requires
                i32::MIN <= self.0 <= i32::MAX,
                i32::MIN <= n <= i32::MAX,
        ;
        assert(i32::MIN * i32::MAX <= self.1 * n <= i32::MIN * i32::MIN) by (nonlinear_arith)
            requires
                i32::MIN <= self.1 <= i32::MAX,
                i32::MIN <= n <= i32::MAX,
        ;
        Offset(to_i32(self.0 as i64 * n as i64), to_i32(self.1 as i64 * n as i64))
    }

    /// The component along the given axis.
    pub fn extract(self, vertical: bool) -> (r: i32)
        ensures
            r == if vertical { self.1 } else { self.0 },
    {
        if vertical {
            self.1
        } else {
            self.0
        }
    }
}

impl Size {
    /// A size of `(0, 0)`
    pub fn zero() -> (r: Size)
        ensures
            r == Size(0, 0),
    {
        Size(0, 0)
    }

    /// Maximum possible size
    ///
    /// Layout may add several copies of this value together, so it is far
    /// below the limit of the component type.
    pub fn max_size() -> (r: Size)
        ensures
            r == Size(0xFFFF, 0xFFFF),
    {
        Size(0xFFFF, 0xFFFF)
    }

    /// Uniform size in each dimension
    #[inline]
    pub fn uniform(v: u32) -> (r: Size)
        ensures
            r == Size(v, v),
    {
        Size(v, v)
    }

    /// The component along the given axis.
    pub fn extract(self, vertical: bool) -> (r: u32)
        ensures
            r == if vertical { self.1 } else { self.0 },
    {
        if vertical {
            self.1
        } else {
            self.0
        }
    }
}

impl From<(u32, u32)> for Size {
    fn from(size: (u32, u32)) -> (r: Size) {
        Size(size.0, size.1)
    }
}

impl FromSpecImpl<(u32, u32)> for Size {
    open spec fn obeys_from_spec() -> bool {
        true
    }

    open spec fn from_spec(size: (u32, u32)) -> Size {
        Size(size.0, size.1)
    }
}

impl Add for Size {
    type Output = Size;

    fn add(self, other: Size) -> (r: Size) {
        Size(to_u32(self.0 as i64 + other.0 as i64), to_u32(self.1 as i64 + other.1 as i64))
    }
}

impl AddSpecImpl for Size {
    open spec fn obeys_add_spec() -> bool {
        true
    }

    open spec fn add_req(self, other: Size) -> bool {
        true
    }

    open spec fn add_spec(self, other: Size) -> Size {
        Size(clamp_u32(self.0 + other.0), clamp_u32(self.1 + other.1))
    }
}

impl Sub for Size {
    type Output = Size;

    fn sub(self, other: Size) -> (r: Size) {
        Size(to_u32(self.0 as i64 - other.0 as i64), to_u32(self.1 as i64 - other.1 as i64))
    }
}

impl SubSpecImpl for Size {
    open spec fn obeys_sub_spec() -> bool {
        true
    }

    open spec fn sub_req(self, other: Size) -> bool {
        true
    }

    open spec fn sub_spec(self, other: Size) -> Size {
        Size(clamp_u32(self.0 - other.0), clamp_u32(self.1 - other.1))
    }
}

impl AddAssign for Size {
    fn add_assign(&mut self, rhs: Size)
        ensures
            *final(self) == Size(
                clamp_u32(old(self).0 + rhs.0),
                clamp_u32(old(self).1 + rhs.1),
            ),
    {
        self.0 = to_u32(self.0 as i64 + rhs.0 as i64);
        self.1 = to_u32(self.1 as i64 + rhs.1 as i64);
    }
}

impl SubAssign for Size {
    fn sub_assign(&mut self, rhs: Size)
        ensures
            *final(self) == Size(
                clamp_u32(old(self).0 - rhs.0),
                clamp_u32(old(self).1 - rhs.1),
            ),
    {
        self.0 = to_u32(self.0 as i64 - rhs.0 as i64);
        self.1 = to_u32(self.1 as i64 - rhs.1 as i64);
    }
}

impl Rect {
    /// Construct from a position and a size.
    pub fn new(pos: Coord, size: Size) -> (r: Rect)
        ensures
            r == (Rect { pos, size }),
    {
        Rect { pos, size }
    }

    /// Whether `c` lies within the rect: the left and top edges belong to
    /// it, the right and bottom edges do not.
    pub open spec fn covers(self, c: Coord) -> bool {
        &&& self.pos.0 <= c.0 < self.pos.0 + self.size.0
        &&& self.pos.1 <= c.1 < self.pos.1 + self.size.1
    }

    /// Check whether the given coordinate is contained within this rect
    pub fn contains(&self, c: Coord) -> (r: bool)
        ensures
            r == self.covers(c),
    {
        c.0 >= self.pos.0 && (c.0 as i64) < self.pos.0 as i64 + self.size.0 as i64
            && c.1 >= self.pos.1 && (c.1 as i64) < self.pos.1 as i64 + self.size.1 as i64
    }
}

/// A rect of zero size contains no coordinate.
pub proof fn lemma_empty_rect_contains_nothing(r: Rect, c: Coord)
    requires
        r.size.0 == 0 || r.size.1 == 0,
    ensures
        !r.covers(c),
{
}

} // verus!
