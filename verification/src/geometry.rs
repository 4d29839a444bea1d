use vstd::prelude::*;

verus! {

/// Ticks in one second: the resolution of elapsed time.
pub const TICKS_PER_SECOND: i64 = 1_000_000;

/// Sub-units in one world unit. A speed of one thirty-second of a world unit
/// per second moves exactly one sub-unit per tick.
pub const UNIT: i64 = 32_000_000;

/// The value of `v` brought into the range of `i64`.
pub open spec fn clamp(v: int) -> int {
    if v < i64::MIN {
        i64::MIN as int
    } else if v > i64::MAX {
        i64::MAX as int
    } else {
        v
    }
}

/// The sign of `v`: one, minus one, or zero for zero.
pub open spec fn sign(v: int) -> int {
    if v > 0 {
        1
    } else if v < 0 {
        -1
    } else {
        0
    }
}

/// The absolute value of `v`.
pub open spec fn magnitude(v: int) -> int {
    if v < 0 {
        -v
    } else {
        v
    }
}

/// Narrows a wide intermediate result to a coordinate, saturating at the
/// limits of `i64`.
pub fn saturate(v: i128) -> (r: i64)
    ensures
        r == clamp(v as int),
{
    if v < i64::MIN as i128 {
        i64::MIN
    } else if v > i64::MAX as i128 {
        i64::MAX
    } else {
        v as i64
    }
}

/// The value of `v` brought into the range of `i32`.
pub open spec fn clamp32(v: int) -> int {
    if v < i32::MIN {
        i32::MIN as int
    } else if v > i32::MAX {
        i32::MAX as int
    } else {
        v
    }
}

/// Narrows an intermediate result to a counter, saturating at the limits of
/// `i32`.
pub fn saturate32(v: i64) -> (r: i32)
    ensures
        r == clamp32(v as int),
{
    if v < i32::MIN as i64 {
        i32::MIN
    } else if v > i32::MAX as i64 {
        i32::MAX
    } else {
        v as i32
    }
}

/// The sign of a wide value.
pub fn signum(v: i128) -> (r: i64)
    ensures
        r == sign(v as int),
{
    if v > 0 {
        1
    } else if v < 0 {
        -1
    } else {
        0
    }
}

/// A point or a displacement in the plane, in sub-units.
#[derive(Clone, Copy, Debug, PartialEq, Eq, Structural)]
pub struct Vec2 {
    pub x: i64,
    pub y: i64,
}

/// The vector with the given coordinates.
pub fn vec2(x: i64, y: i64) -> (v: Vec2)
    ensures
        v == (Vec2 { x, y }),
{
    Vec2 { x, y }
}

impl Vec2 {
    /// The vector with the given coordinates.
    pub fn new(x: i64, y: i64) -> (v: Vec2)
        ensures
            v == (Vec2 { x, y }),
    {
        Vec2 { x, y }
    }

    /// This point displaced by `(dx, dy)`, each coordinate saturating.
    pub open spec fn shifted(self, dx: int, dy: int) -> Vec2 {
        Vec2 { x: clamp(self.x + dx) as i64, y: clamp(self.y + dy) as i64 }
    }

    /// Displaces the point by `(dx, dy)`, each coordinate saturating.
    pub fn shift(self, dx: i64, dy: i64) -> (v: Vec2)
        ensures
            v == self.shifted(dx as int, dy as int),
    {
        Vec2 {
            x: saturate(self.x as i128 + dx as i128),
            y: saturate(self.y as i128 + dy as i128),
        }
    }
}

/// An axis-aligned rectangle: its top-left corner and its size, in sub-units.
#[derive(Clone, Copy, Debug, PartialEq, Eq, Structural)]
pub struct Rect {
    pub x: i64,
    pub y: i64,
    pub w: i64,
    pub h: i64,
}

/// The larger of two integers.
pub open spec fn larger(a: int, b: int) -> int {
    if a >= b {
        a
    } else {
        b
    }
}

/// The smaller of two integers.
pub open spec fn smaller(a: int, b: int) -> int {
    if a <= b {
        a
    } else {
        b
    }
}

impl Rect {
    /// The rectangle with corner `(x, y)`, width `w` and height `h`.
    pub fn new(x: i64, y: i64, w: i64, h: i64) -> (r: Rect)
        ensures
            r == (Rect { x, y, w, h }),
    {
        Rect { x, y, w, h }
    }

    /// The right edge.
    pub open spec fn right(self) -> int {
        self.x + self.w
    }

    /// The bottom edge.
    pub open spec fn bottom(self) -> int {
        self.y + self.h
    }

    /// Twice the horizontal coordinate of the center.
    pub open spec fn center_x2(self) -> int {
        2 * self.x + self.w
    }

    /// Twice the vertical coordinate of the center.
    pub open spec fn center_y2(self) -> int {
        2 * self.y + self.h
    }

    /// Whether the two rectangles overlap: what they have in common has a
    /// width and a height. Rectangles that merely touch along an edge or at
    /// a corner do not.
    pub open spec fn overlaps(self, other: Rect) -> bool {
        larger(self.x as int, other.x as int) < smaller(self.right(), other.right()) && larger(
            self.y as int,
            other.y as int,
        ) < smaller(self.bottom(), other.bottom())
    }

    /// The rectangle common to both, if they overlap.
    pub open spec fn overlap(self, other: Rect) -> Option<Rect> {
        if self.overlaps(other) {
            let left = larger(self.x as int, other.x as int);
            let top = larger(self.y as int, other.y as int);
            Some(
                Rect {
                    x: left as i64,
                    y: top as i64,
                    w: (smaller(self.right(), other.right()) - left) as i64,
                    h: (smaller(self.bottom(), other.bottom()) - top) as i64,
                },
            )
        } else {
            None
        }
    }

    /// The rectangle common to `self` and `other`, or `None` when they have
    /// no more in common than an edge or a corner.
    pub fn intersect(&self, other: Rect) -> (r: Option<Rect>)
        ensures
            r == self.overlap(other),
            r matches Some(o) ==> 0 < o.w && 0 < o.h && o.x + o.w == smaller(
                self.right(),
                other.right(),
            ) && o.y + o.h == smaller(self.bottom(), other.bottom()),
    {
        let left: i64 = if self.x >= other.x { self.x } else { other.x };
        let top: i64 = if self.y >= other.y { self.y } else { other.y };
        let r1: i128 = self.x as i128 + self.w as i128;
        let r2: i128 = other.x as i128 + other.w as i128;
        let b1: i128 = self.y as i128 + self.h as i128;
        let b2: i128 = other.y as i128 + other.h as i128;
        let right: i128 = if r1 <= r2 { r1 } else { r2 };
        let bottom: i128 = if b1 <= b2 { b1 } else { b2 };
        if right <= left as i128 || bottom <= top as i128 {
            return None;
        }
        proof {
            lemma_overlap_fits(*self, other);
        }
        Some(Rect { x: left, y: top, w: (right - left as i128) as i64, h: (bottom - top as i128) as i64 })
    }

    /// This local rectangle placed at `origin`: the corner is displaced, each
    /// coordinate saturating, and the size is kept.
    pub open spec fn placed(self, origin: Vec2) -> Rect {
        Rect {
            x: clamp(origin.x + self.x) as i64,
            y: clamp(origin.y + self.y) as i64,
            w: self.w,
            h: self.h,
        }
    }

    /// Places this local rectangle at `origin`.
    pub fn place(&self, origin: Vec2) -> (r: Rect)
        ensures
            r == self.placed(origin),
    {
        Rect {
            x: saturate(origin.x as i128 + self.x as i128),
            y: saturate(origin.y as i128 + self.y as i128),
            w: self.w,
            h: self.h,
        }
    }
}

/// Where two rectangles overlap, the common rectangle is no larger than either,
/// so its width and height are coordinates again, and neither rectangle is
/// without width or height.
pub proof fn lemma_overlap_fits(a: Rect, b: Rect)
    requires
        a.overlaps(b),
    ensures
        0 < smaller(a.right(), b.right()) - larger(a.x as int, b.x as int) <= i64::MAX,
        0 < smaller(a.bottom(), b.bottom()) - larger(a.y as int, b.y as int) <= i64::MAX,
        a.w > 0 && b.w > 0 && a.h > 0 && b.h > 0,
{
}

} // verus!
