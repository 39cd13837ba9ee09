//! Grid coordinates and the pixel rectangles they map to.

use vstd::prelude::*;

verus! {

/// A grid cell coordinate. Coordinates carry arbitrary sign and range while a
/// snake is in motion; no wrapping or clamping happens here.
#[derive(Clone, Copy, PartialEq, Eq, Structural, Debug, Hash)]
pub struct Point {
    pub x: i64,
    pub y: i64,
}

/// A pixel-space rectangle, produced when a grid cell is mapped to the screen.
#[derive(Clone, Copy, PartialEq, Eq, Structural, Debug)]
pub struct Rect {
    pub x: i64,
    pub y: i64,
    pub w: u16,
    pub h: u16,
}

/// A facing is always one of the four axis-aligned unit offsets.
pub open spec fn is_direction(p: Point) -> bool {
    ||| (p.x == 0 && (p.y == 1 || p.y == -1))
    ||| (p.y == 0 && (p.x == 1 || p.x == -1))
}

impl Point {
    pub fn new(x: i64, y: i64) -> (p: Point)
        ensures
            p == (Point { x, y }),
    {
        Point { x, y }
    }

    /// Pure translation: a copy of `self` shifted by `delta`.
    pub fn shift(&self, delta: Point) -> (p: Point)
        requires
            i64::MIN <= self.x + delta.x <= i64::MAX,
            i64::MIN <= self.y + delta.y <= i64::MAX,
        ensures
            p.x == self.x + delta.x,
            p.y == self.y + delta.y,
    {
        Point { x: self.x + delta.x, y: self.y + delta.y }
    }

    /// In-place translation by `delta`.
    pub fn translate(&mut self, delta: Point)
        requires
            i64::MIN <= old(self).x + delta.x <= i64::MAX,
            i64::MIN <= old(self).y + delta.y <= i64::MAX,
        ensures
            final(self).x == old(self).x + delta.x,
            final(self).y == old(self).y + delta.y,
    {
        self.x = self.x + delta.x;
        self.y = self.y + delta.y;
    }

    /// The square screen rectangle of side `size` for this grid cell.
    pub fn as_rect(self, size: u16) -> (r: Rect)
        requires
            i64::MIN <= self.x * size <= i64::MAX,
            i64::MIN <= self.y * size <= i64::MAX,
        ensures
            r.x == self.x * size,
            r.y == self.y * size,
            r.w == size,
            r.h == size,
    {
        Rect { x: self.x * (size as i64), y: self.y * (size as i64), w: size, h: size }
    }
}

} // verus!
