//! Axis-aligned rectangles of tiles, the shape of a dungeon room.

use vstd::prelude::*;

verus! {

/// Half of `s`, rounded toward zero.
pub open spec fn half(s: int) -> int {
    if s >= 0 {
        s / 2
    } else {
        -((-s) / 2)
    }
}

/// A rectangle with corners `(x1, y1)` and `(x2, y2)`.
///
/// As a room, its walls lie on column `x1` and row `y1`; the tiles that are
/// carved out are those with `x1 < x <= x2` and `y1 < y <= y2`.
#[derive(Clone, Copy, Debug, PartialEq, Eq, Structural)]
pub struct Rect {
    pub x1: i32,
    pub x2: i32,
    pub y1: i32,
    pub y2: i32,
}

impl Rect {
    /// Whether the two rectangles, taken with their borders, share a point.
    pub open spec fn intersects(self, other: Rect) -> bool {
        self.x1 <= other.x2 && self.x2 >= other.x1 && self.y1 <= other.y2 && self.y2 >= other.y1
    }

    /// The middle of the rectangle, each coordinate rounded toward zero.
    pub open spec fn center_point(self) -> (int, int) {
        (half(self.x1 + self.x2), half(self.y1 + self.y2))
    }

    /// Whether `(x, y)` is one of the tiles carved out for this room.
    pub open spec fn covers(self, x: int, y: int) -> bool {
        self.x1 < x <= self.x2 && self.y1 < y <= self.y2
    }

    /// Whether the room is at least two tiles wide and high, so that its
    /// center is one of the tiles it covers.
    pub open spec fn is_roomy(self) -> bool {
        self.x2 - self.x1 >= 2 && self.y2 - self.y1 >= 2
    }

    /// The rectangle whose corner is `(x, y)` and which spans `w` by `h`.
    pub fn new(x: i32, y: i32, w: i32, h: i32) -> (r: Rect)
        requires
            i32::MIN <= x + w <= i32::MAX,
            i32::MIN <= y + h <= i32::MAX,
        ensures
            r.x1 == x,
            r.x2 == x + w,
            r.y1 == y,
            r.y2 == y + h,
    {
        Rect { x1: x, x2: x + w, y1: y, y2: y + h }
    }

    /// True when this rectangle overlaps `other`, borders included.
    pub fn intersect(&self, other: &Rect) -> (b: bool)
        ensures
            b == self.intersects(*other),
    {
        self.x1 <= other.x2 && self.x2 >= other.x1 && self.y1 <= other.y2 && self.y2 >= other.y1
    }

    /// The center tile of the rectangle.
    pub fn center(&self) -> (c: (i32, i32))
        ensures
            (c.0 as int, c.1 as int) == self.center_point(),
    {
        let sx: i64 = self.x1 as i64 + self.x2 as i64;
        let sy: i64 = self.y1 as i64 + self.y2 as i64;
        ((sx / 2) as i32, (sy / 2) as i32)
    }
}

/// A room that is at least two tiles wide and high covers its own center.
pub proof fn lemma_center_covered(r: Rect)
    requires
        r.is_roomy(),
    ensures
        r.covers(r.center_point().0, r.center_point().1),
{
}

/// Two rooms that cover a common tile overlap.
pub proof fn lemma_common_tile_intersects(a: Rect, b: Rect, x: int, y: int)
    requires
        a.covers(x, y),
        b.covers(x, y),
    ensures
        a.intersects(b),
{
}

} // verus!
