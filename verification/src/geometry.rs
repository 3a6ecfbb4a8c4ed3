//! Points, sizes and rectangles.

use vstd::prelude::*;

verus! {

/// How many units of a fractional pixel type make one pixel.
pub const UNITS_PER_PIXEL: i64 = 1_099_511_627_776;

/// A length in logical pixels, in fixed point with forty fractional bits.
#[derive(Clone, Copy, Debug, PartialEq, Eq, Structural)]
pub struct Pixels(pub i64);

/// A length in scaled pixels, in fixed point with forty fractional bits.
#[derive(Clone, Copy, Debug, PartialEq, Eq, Structural)]
pub struct ScaledPixels(pub i64);

/// A length in whole pixels of the device.
#[derive(Clone, Copy, Debug, PartialEq, Eq, Structural)]
pub struct DevicePixels(pub i32);

/// A point.
#[derive(Clone, Copy, Debug, PartialEq, Eq, Structural)]
pub struct Point<T> {
    pub x: T,
    pub y: T,
}

/// An extent.
#[derive(Clone, Copy, Debug, PartialEq, Eq, Structural)]
pub struct Size<T> {
    pub width: T,
    pub height: T,
}

/// A rectangle by its upper left corner and its extent.
#[derive(Clone, Copy, Debug, PartialEq, Eq, Structural)]
pub struct Bounds<T> {
    pub origin: Point<T>,
    pub size: Size<T>,
}

/// The point with the given coordinates.
pub fn point<T>(x: T, y: T) -> (result: Point<T>)
    ensures
        result == (Point { x, y }),
{
    Point { x, y }
}

/// The extent with the given sides.
pub fn size<T>(width: T, height: T) -> (result: Size<T>)
    ensures
        result == (Size { width, height }),
{
    Size { width, height }
}

/// The smaller of two lengths.
pub open spec fn least(left: int, right: int) -> int {
    if left < right {
        left
    } else {
        right
    }
}

/// The larger of two lengths.
pub open spec fn greatest(left: int, right: int) -> int {
    if left > right {
        left
    } else {
        right
    }
}

fn smaller(left: i32, right: i32) -> (result: i32)
    ensures
        result == least(left as int, right as int),
{
    if left < right {
        left
    } else {
        right
    }
}

fn larger(left: i32, right: i32) -> (result: i32)
    ensures
        result == greatest(left as int, right as int),
{
    if left > right {
        left
    } else {
        right
    }
}

impl Bounds<DevicePixels> {
    pub open spec fn left(&self) -> int {
        self.origin.x.0 as int
    }

    pub open spec fn top(&self) -> int {
        self.origin.y.0 as int
    }

    /// The coordinate just right of the rectangle.
    pub open spec fn right(&self) -> int {
        self.origin.x.0 + self.size.width.0
    }

    /// The coordinate just below the rectangle.
    pub open spec fn bottom(&self) -> int {
        self.origin.y.0 + self.size.height.0
    }

    /// The rectangle covers no pixel.
    pub open spec fn spec_is_empty(&self) -> bool {
        self.size.width.0 <= 0 || self.size.height.0 <= 0
    }

    /// The pixel at a point lies in the rectangle.
    pub open spec fn covers(&self, x: int, y: int) -> bool {
        self.left() <= x < self.right() && self.top() <= y < self.bottom()
    }

    /// Every edge has a coordinate.
    pub open spec fn in_range(&self) -> bool {
        i32::MIN <= self.right() <= i32::MAX && i32::MIN <= self.bottom() <= i32::MAX
    }

    /// The rectangle has these edges.
    pub open spec fn has_edges(&self, left: int, top: int, right: int, bottom: int) -> bool {
        self.left() == left && self.top() == top && self.right() == right && self.bottom() == bottom
    }

    /// The rectangle at the origin with the given extent.
    pub open spec fn spec_at_origin(size: Size<DevicePixels>) -> Bounds<DevicePixels> {
        Bounds { origin: Point { x: DevicePixels(0), y: DevicePixels(0) }, size }
    }

    /// The rectangle at the origin with the given extent.
    pub fn at_origin(size: Size<DevicePixels>) -> (bounds: Self)
        ensures
            bounds == Bounds::spec_at_origin(size),
    {
        Bounds { origin: Point { x: DevicePixels(0), y: DevicePixels(0) }, size }
    }

    /// Whether the rectangle covers no pixel.
    pub fn is_empty(&self) -> (empty: bool)
        ensures
            empty == self.spec_is_empty(),
    {
        self.size.width.0 <= 0 || self.size.height.0 <= 0
    }

    fn from_edges(left: i32, top: i32, right: i32, bottom: i32) -> (bounds: Self)
        requires
            i32::MIN <= right - left <= i32::MAX,
            i32::MIN <= bottom - top <= i32::MAX,
        ensures
            bounds.has_edges(left as int, top as int, right as int, bottom as int),
    {
        Bounds {
            origin: Point { x: DevicePixels(left), y: DevicePixels(top) },
            size: Size { width: DevicePixels(right - left), height: DevicePixels(bottom - top) },
        }
    }

    /// The intersection of two rectangles: from the larger of the upper left
    /// edges to the smaller of the lower right ones.
    pub open spec fn is_intersection(&self, left: &Self, right: &Self) -> bool {
        self.has_edges(
            greatest(left.left(), right.left()),
            greatest(left.top(), right.top()),
            least(left.right(), right.right()),
            least(left.bottom(), right.bottom()),
        )
    }

    /// The rectangle round two rectangles.
    pub open spec fn is_union(&self, left: &Self, right: &Self) -> bool {
        self.has_edges(
            least(left.left(), right.left()),
            least(left.top(), right.top()),
            greatest(left.right(), right.right()),
            greatest(left.bottom(), right.bottom()),
        )
    }

    /// The rectangle between four edges.
    pub open spec fn between(left: int, top: int, right: int, bottom: int) -> Bounds<DevicePixels> {
        Bounds {
            origin: Point { x: DevicePixels(left as i32), y: DevicePixels(top as i32) },
            size: Size {
                width: DevicePixels((right - left) as i32),
                height: DevicePixels((bottom - top) as i32),
            },
        }
    }

    /// The part of a rectangle that lies in another.
    pub open spec fn intersection(&self, other: &Self) -> Bounds<DevicePixels> {
        Bounds::between(
            greatest(self.left(), other.left()),
            greatest(self.top(), other.top()),
            least(self.right(), other.right()),
            least(self.bottom(), other.bottom()),
        )
    }

    /// The smallest rectangle round two.
    pub open spec fn hull(&self, other: &Self) -> Bounds<DevicePixels> {
        Bounds::between(
            least(self.left(), other.left()),
            least(self.top(), other.top()),
            greatest(self.right(), other.right()),
            greatest(self.bottom(), other.bottom()),
        )
    }

    /// The extent of the intersection has a length.
    pub open spec fn can_intersect(&self, other: &Self) -> bool {
        &&& self.in_range()
        &&& other.in_range()
        &&& i32::MIN <= least(self.right(), other.right()) - greatest(self.left(), other.left())
            <= i32::MAX
        &&& i32::MIN <= least(self.bottom(), other.bottom()) - greatest(self.top(), other.top())
            <= i32::MAX
    }

    /// The extent of the union has a length.
    pub open spec fn can_unite(&self, other: &Self) -> bool {
        &&& self.in_range()
        &&& other.in_range()
        &&& i32::MIN <= greatest(self.right(), other.right()) - least(self.left(), other.left())
            <= i32::MAX
        &&& i32::MIN <= greatest(self.bottom(), other.bottom()) - least(self.top(), other.top())
            <= i32::MAX
    }

    /// The part of a rectangle that lies in another.
    pub fn intersect(&self, other: &Self) -> (bounds: Self)
        requires
            self.can_intersect(other),
        ensures
            bounds.is_intersection(self, other),
            bounds == self.intersection(other),
    {
        Bounds::from_edges(
            larger(self.origin.x.0, other.origin.x.0),
            larger(self.origin.y.0, other.origin.y.0),
            smaller(self.origin.x.0 + self.size.width.0, other.origin.x.0 + other.size.width.0),
            smaller(self.origin.y.0 + self.size.height.0, other.origin.y.0 + other.size.height.0),
        )
    }

    /// The smallest rectangle round two.
    pub fn union(&self, other: &Self) -> (bounds: Self)
        requires
            self.can_unite(other),
        ensures
            bounds.is_union(self, other),
            bounds == self.hull(other),
    {
        Bounds::from_edges(
            smaller(self.origin.x.0, other.origin.x.0),
            smaller(self.origin.y.0, other.origin.y.0),
            larger(self.origin.x.0 + self.size.width.0, other.origin.x.0 + other.size.width.0),
            larger(self.origin.y.0 + self.size.height.0, other.origin.y.0 + other.size.height.0),
        )
    }
}

impl Bounds<ScaledPixels> {
    /// The coordinate of the left edge.
    pub open spec fn left_edge(&self) -> int {
        self.origin.x.0 as int
    }

    /// The coordinate of the upper edge.
    pub open spec fn top_edge(&self) -> int {
        self.origin.y.0 as int
    }

    /// The coordinate of the right edge.
    pub open spec fn right_edge(&self) -> int {
        self.origin.x.0 + self.size.width.0
    }

    /// The coordinate of the lower edge.
    pub open spec fn bottom_edge(&self) -> int {
        self.origin.y.0 + self.size.height.0
    }

    /// Every edge lies within four million pixels of the origin, so that every distance
    /// between two edges is a length.
    pub open spec fn is_near(&self) -> bool {
        &&& -4_611_686_018_427_387_903 <= self.left_edge() <= 4_611_686_018_427_387_903
        &&& -4_611_686_018_427_387_903 <= self.top_edge() <= 4_611_686_018_427_387_903
        &&& -4_611_686_018_427_387_903 <= self.right_edge() <= 4_611_686_018_427_387_903
        &&& -4_611_686_018_427_387_903 <= self.bottom_edge() <= 4_611_686_018_427_387_903
    }

    /// The rectangle between four edges.
    pub open spec fn spanning(left: int, top: int, right: int, bottom: int) -> Bounds<ScaledPixels> {
        Bounds {
            origin: Point { x: ScaledPixels(left as i64), y: ScaledPixels(top as i64) },
            size: Size {
                width: ScaledPixels((right - left) as i64),
                height: ScaledPixels((bottom - top) as i64),
            },
        }
    }

    /// The part of a rectangle that lies in another.
    pub open spec fn common(&self, other: &Self) -> Bounds<ScaledPixels> {
        Bounds::spanning(
            greatest(self.left_edge(), other.left_edge()),
            greatest(self.top_edge(), other.top_edge()),
            least(self.right_edge(), other.right_edge()),
            least(self.bottom_edge(), other.bottom_edge()),
        )
    }

    /// The smallest rectangle round two.
    pub open spec fn span(&self, other: &Self) -> Bounds<ScaledPixels> {
        Bounds::spanning(
            least(self.left_edge(), other.left_edge()),
            least(self.top_edge(), other.top_edge()),
            greatest(self.right_edge(), other.right_edge()),
            greatest(self.bottom_edge(), other.bottom_edge()),
        )
    }

    fn from_scaled_edges(left: i64, top: i64, right: i64, bottom: i64) -> (bounds: Self)
        requires
            -4_611_686_018_427_387_903 <= left <= 4_611_686_018_427_387_903,
            -4_611_686_018_427_387_903 <= top <= 4_611_686_018_427_387_903,
            -4_611_686_018_427_387_903 <= right <= 4_611_686_018_427_387_903,
            -4_611_686_018_427_387_903 <= bottom <= 4_611_686_018_427_387_903,
        ensures
            bounds == Bounds::spanning(left as int, top as int, right as int, bottom as int),
            bounds.is_near(),
    {
        Bounds {
            origin: Point { x: ScaledPixels(left), y: ScaledPixels(top) },
            size: Size { width: ScaledPixels(right - left), height: ScaledPixels(bottom - top) },
        }
    }

    /// The part of a rectangle that lies in another.
    pub fn clip(&self, other: &Self) -> (bounds: Self)
        requires
            self.is_near(),
            other.is_near(),
        ensures
            bounds == self.common(other),
            bounds.is_near(),
    {
        Bounds::from_scaled_edges(
            larger_length(self.origin.x.0, other.origin.x.0),
            larger_length(self.origin.y.0, other.origin.y.0),
            smaller_length(
                self.origin.x.0 + self.size.width.0,
                other.origin.x.0 + other.size.width.0,
            ),
            smaller_length(
                self.origin.y.0 + self.size.height.0,
                other.origin.y.0 + other.size.height.0,
            ),
        )
    }

    /// The smallest rectangle round two.
    pub fn enclose(&self, other: &Self) -> (bounds: Self)
        requires
            self.is_near(),
            other.is_near(),
        ensures
            bounds == self.span(other),
            bounds.is_near(),
    {
        Bounds::from_scaled_edges(
            smaller_length(self.origin.x.0, other.origin.x.0),
            smaller_length(self.origin.y.0, other.origin.y.0),
            larger_length(
                self.origin.x.0 + self.size.width.0,
                other.origin.x.0 + other.size.width.0,
            ),
            larger_length(
                self.origin.y.0 + self.size.height.0,
                other.origin.y.0 + other.size.height.0,
            ),
        )
    }
}

fn smaller_length(left: i64, right: i64) -> (result: i64)
    ensures
        result == least(left as int, right as int),
{
    if left < right {
        left
    } else {
        right
    }
}

fn larger_length(left: i64, right: i64) -> (result: i64)
    ensures
        result == greatest(left as int, right as int),
{
    if left > right {
        left
    } else {
        right
    }
}

/// A pixel lies in the intersection exactly if it lies in both rectangles, and
/// the union covers both.
pub proof fn law_intersection_and_union(
    left: Bounds<DevicePixels>,
    right: Bounds<DevicePixels>,
    common: Bounds<DevicePixels>,
    round: Bounds<DevicePixels>,
    x: int,
    y: int,
)
    requires
        common.is_intersection(&left, &right),
        round.is_union(&left, &right),
    ensures
        common.covers(x, y) == (left.covers(x, y) && right.covers(x, y)),
        left.covers(x, y) || right.covers(x, y) ==> round.covers(x, y),
{
}

} // verus!
