use vstd::prelude::*;

verus! {

#[derive(PartialEq, Eq, Structural, Debug, Clone, Copy)]
pub struct IntVec2 {
    pub x: i32,
    pub y: i32,
}

impl IntVec2 {
    pub fn add(self, other: IntVec2) -> (r: IntVec2)
        requires
            i32::MIN <= self.x + other.x <= i32::MAX,
            i32::MIN <= self.y + other.y <= i32::MAX,
        ensures
            r == (IntVec2 { x: (self.x + other.x) as i32, y: (self.y + other.y) as i32 }),
    {
        IntVec2 { x: self.x + other.x, y: self.y + other.y }
    }
}

#[derive(PartialEq, Eq, Structural, Debug, Clone, Copy)]
pub struct Circle {
    pub center: IntVec2,
    pub radius: i32,
}

/// An axis-aligned rectangle; `y` grows downwards.
#[derive(PartialEq, Eq, Structural, Debug, Clone, Copy)]
pub struct Rectangle {
    pub upper_left: IntVec2,
    pub width: i32,
    pub height: i32,
}

pub open spec fn clamp_int(v: int, lo: int, hi: int) -> int {
    if v < lo {
        lo
    } else if v > hi {
        hi
    } else {
        v
    }
}

/// The point of the rectangle nearest to the circle's center lies within the radius.
pub open spec fn intersects(c: Circle, r: Rectangle) -> bool {
    let px = clamp_int(c.center.x as int, r.upper_left.x as int, r.upper_left.x + r.width);
    let py = clamp_int(c.center.y as int, r.upper_left.y as int, r.upper_left.y + r.height);
    (c.center.x - px) * (c.center.x - px) + (c.center.y - py) * (c.center.y - py) <= c.radius
        * c.radius
}

/// Coordinates small enough that the intersection test computes without overflow.
pub open spec fn small_coord(v: int) -> bool {
    -1_000_000 <= v <= 1_000_000
}

/// A circle whose center and radius are small coordinates.
pub open spec fn circle_small(c: Circle) -> bool {
    &&& small_coord(c.center.x as int)
    &&& small_coord(c.center.y as int)
    &&& 0 <= c.radius <= 1_000_000
}

pub fn circle_rectangle_intersect(circle: &Circle, rect: &Rectangle) -> (r: bool)
    requires
        small_coord(circle.center.x as int),
        small_coord(circle.center.y as int),
        small_coord(circle.radius as int),
        small_coord(rect.upper_left.x as int),
        small_coord(rect.upper_left.y as int),
        0 <= rect.width <= 1_000_000,
        0 <= rect.height <= 1_000_000,
    ensures
        r == intersects(*circle, *rect),
{
    let cx = circle.center.x as i64;
    let cy = circle.center.y as i64;
    let left = rect.upper_left.x as i64;
    let top = rect.upper_left.y as i64;
    let right = left + rect.width as i64;
    let bottom = top + rect.height as i64;
    let x: i64 = if cx < left {
        left
    } else if cx > right {
        right
    } else {
        cx
    };
    let y: i64 = if cy < top {
        top
    } else if cy > bottom {
        bottom
    } else {
        cy
    };
    let dx = cx - x;
    let dy = cy - y;
    let radius = circle.radius as i64;
    assert(-3_000_000 <= dx <= 3_000_000 && -3_000_000 <= dy <= 3_000_000);
    assert(dx * dx <= 9_000_000_000_000) by (nonlinear_arith)
        requires
            -3_000_000 <= dx <= 3_000_000,
    ;
    assert(dx * dx >= 0) by (nonlinear_arith);
    assert(dy * dy <= 9_000_000_000_000) by (nonlinear_arith)
        requires
            -3_000_000 <= dy <= 3_000_000,
    ;
    assert(dy * dy >= 0) by (nonlinear_arith);
    assert(radius * radius <= 1_000_000_000_000) by (nonlinear_arith)
        requires
            -1_000_000 <= radius <= 1_000_000,
    ;
    assert(radius * radius >= 0) by (nonlinear_arith);
    dx * dx + dy * dy <= radius * radius
}

} // verus!
