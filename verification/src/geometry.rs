//! Points of the plane and the overlap test for axis-aligned boxes.

use vstd::prelude::*;

verus! {

/// A point, or an extent, of the plane in whole length units.
pub struct Point {
    pub x: int,
    pub y: int,
}

/// The machine form of a [`Point`].
#[derive(Clone, Copy, Debug, PartialEq, Eq, Structural)]
pub struct Vec2 {
    pub x: i64,
    pub y: i64,
}

impl View for Vec2 {
    type V = Point;

    open spec fn view(&self) -> Point {
        Point { x: self.x as int, y: self.y as int }
    }
}

impl Point {
    /// The point reached from `self` by the displacement `by`.
    pub open spec fn plus(self, by: Point) -> Point {
        Point { x: self.x + by.x, y: self.y + by.y }
    }
}

impl Vec2 {
    pub fn new(x: i64, y: i64) -> (v: Vec2)
        ensures
            v@ == (Point { x: x as int, y: y as int }),
    {
        Vec2 { x, y }
    }
}

/// The distance between two coordinates on one axis.
pub open spec fn distance(a: int, b: int) -> int {
    if a >= b {
        a - b
    } else {
        b - a
    }
}

/// Two boxes, each given by its centre and its half-extents, overlap when on
/// both axes the centres are closer than the half-extents added up.
pub open spec fn overlaps(a: Point, a_half: Point, b: Point, b_half: Point) -> bool {
    &&& distance(a.x, b.x) < a_half.x + b_half.x
    &&& distance(a.y, b.y) < a_half.y + b_half.y
}

/// Whether the distance between `a` and `b` is below `reach_a + reach_b`.
fn closer_than(a: i64, b: i64, reach_a: i64, reach_b: i64) -> (near: bool)
    ensures
        near == (distance(a as int, b as int) < reach_a + reach_b),
{
    let gap: i128 = if a >= b {
        a as i128 - b as i128
    } else {
        b as i128 - a as i128
    };
    gap < reach_a as i128 + reach_b as i128
}

/// The overlap test for two axis-aligned boxes.
pub fn collide(a_pos: Vec2, a_half: Vec2, b_pos: Vec2, b_half: Vec2) -> (hit: bool)
    ensures
        hit == overlaps(a_pos@, a_half@, b_pos@, b_half@),
{
    closer_than(a_pos.x, b_pos.x, a_half.x, b_half.x) && closer_than(
        a_pos.y,
        b_pos.y,
        a_half.y,
        b_half.y,
    )
}

} // verus!
