//! Circles and axis-aligned rectangles on the integer lattice, and the test
//! that tells whether they touch and on which side.

use vstd::prelude::*;
use crate::collision::CollisionSide;

verus! {

/// Lattice units to a pixel of the scene. The collision test depends on the
/// ratios of its arguments alone; what is measured against the window depends
/// on this.
pub const UNITS_PER_PIXEL: i32 = 64;

/// A point of the lattice, or the difference of two.
#[derive(Clone, Copy, Debug, PartialEq, Eq, Structural)]
pub struct Vector {
    pub x: i32,
    pub y: i32,
}

impl Vector {
    /// The vector with the given components.
    pub fn new(x: i32, y: i32) -> (v: Vector)
        ensures
            v.x == x,
            v.y == y,
    {
        Vector { x, y }
    }
}

/// A size along each axis. It cannot be negative.
#[derive(Clone, Copy, Debug, PartialEq, Eq, Structural)]
pub struct Extent {
    pub x: u32,
    pub y: u32,
}

impl Extent {
    /// The extent with the given sizes.
    pub fn new(x: u32, y: u32) -> (e: Extent)
        ensures
            e.x == x,
            e.y == y,
    {
        Extent { x, y }
    }
}

/// The closed disc of the given radius around `center`.
#[derive(Clone, Copy, Debug, PartialEq, Eq, Structural)]
pub struct Circle {
    pub center: Vector,
    pub radius: u32,
}

impl Circle {
    /// The disc of the given radius around `center`.
    pub fn new(center: Vector, radius: u32) -> (c: Circle)
        ensures
            c.center == center,
            c.radius == radius,
    {
        Circle { center, radius }
    }

    /// The point `(x, y)` lies in the disc, its rim included.
    pub open spec fn contains(self, x: int, y: int) -> bool {
        length_squared(self.center.x - x, self.center.y - y) <= self.radius * self.radius
    }
}

/// The closed rectangle that reaches `half_extent` to either side of `center`
/// along each axis.
#[derive(Clone, Copy, Debug, PartialEq, Eq, Structural)]
pub struct Rect {
    pub center: Vector,
    pub half_extent: Extent,
}

impl Rect {
    /// The rectangle that reaches `half_extent` to either side of `center`.
    pub fn new(center: Vector, half_extent: Extent) -> (r: Rect)
        ensures
            r.center == center,
            r.half_extent == half_extent,
    {
        Rect { center, half_extent }
    }

    /// Abscissa of the left side.
    pub open spec fn min_x(self) -> int {
        self.center.x - self.half_extent.x
    }

    /// Abscissa of the right side.
    pub open spec fn max_x(self) -> int {
        self.center.x + self.half_extent.x
    }

    /// Ordinate of the bottom side.
    pub open spec fn min_y(self) -> int {
        self.center.y - self.half_extent.y
    }

    /// Ordinate of the top side.
    pub open spec fn max_y(self) -> int {
        self.center.y + self.half_extent.y
    }

    /// The point `(x, y)` lies in the rectangle, its border included.
    pub open spec fn contains(self, x: int, y: int) -> bool {
        self.min_x() <= x <= self.max_x() && self.min_y() <= y <= self.max_y()
    }

    /// Abscissa of the point of the rectangle nearest to a point at `x`.
    pub open spec fn closest_x(self, x: int) -> int {
        clamp(x, self.min_x(), self.max_x())
    }

    /// Ordinate of the point of the rectangle nearest to a point at `y`.
    pub open spec fn closest_y(self, y: int) -> int {
        clamp(y, self.min_y(), self.max_y())
    }
}

/// `v` moved into the interval from `lo` to `hi`.
pub open spec fn clamp(v: int, lo: int, hi: int) -> int {
    if v < lo {
        lo
    } else if v > hi {
        hi
    } else {
        v
    }
}

/// `v` without its sign.
pub open spec fn magnitude(v: int) -> int {
    if v < 0 {
        -v
    } else {
        v
    }
}

/// Square of the length of the vector `(dx, dy)`.
pub open spec fn length_squared(dx: int, dy: int) -> int {
    dx * dx + dy * dy
}

/// Horizontal part of the vector from the rectangle's nearest point to the
/// circle's center.
pub open spec fn offset_x(ball: Circle, rect: Rect) -> int {
    ball.center.x - rect.closest_x(ball.center.x as int)
}

/// Vertical part of the vector from the rectangle's nearest point to the
/// circle's center.
pub open spec fn offset_y(ball: Circle, rect: Rect) -> int {
    ball.center.y - rect.closest_y(ball.center.y as int)
}

/// The disc reaches the rectangle: the rectangle's nearest point is no farther
/// from the center than the radius.
pub open spec fn intersects(ball: Circle, rect: Rect) -> bool {
    ball.contains(rect.closest_x(ball.center.x as int), rect.closest_y(ball.center.y as int))
}

/// Some side of the disc's bounding square stops short of the rectangle.
pub open spec fn separated(ball: Circle, rect: Rect) -> bool {
    ||| ball.center.x + ball.radius < rect.min_x()
    ||| ball.center.x - ball.radius > rect.max_x()
    ||| ball.center.y + ball.radius < rect.min_y()
    ||| ball.center.y - ball.radius > rect.max_y()
}

/// The side that an offset of `(dx, dy)` is attributed to. The horizontal
/// sides win only where `dx` is strictly the larger in magnitude, so a tie, the
/// zero offset included, goes to `Top` or `Bottom`.
pub open spec fn side_of(dx: int, dy: int) -> CollisionSide {
    if magnitude(dx) > magnitude(dy) {
        if dx < 0 {
            CollisionSide::Left
        } else {
            CollisionSide::Right
        }
    } else if dy > 0 {
        CollisionSide::Top
    } else {
        CollisionSide::Bottom
    }
}

/// The side of `rect` that `ball` touches, if it touches `rect` at all.
pub open spec fn boundary_side(ball: Circle, rect: Rect) -> Option<CollisionSide> {
    if intersects(ball, rect) {
        Some(side_of(offset_x(ball, rect), offset_y(ball, rect)))
    } else {
        None
    }
}

/// Offset along one axis of a point at `p` from the nearest point of the
/// interval that reaches `half` to either side of `center`.
fn axis_offset(p: i32, center: i32, half: u32) -> (d: i64)
    ensures
        d == p - clamp(p as int, center - half, center + half),
        -0x1_0000_0000 < d < 0x1_0000_0000,
{
    let lo: i64 = center as i64 - half as i64;
    let hi: i64 = center as i64 + half as i64;
    let p: i64 = p as i64;
    if p < lo {
        p - lo
    } else if p > hi {
        p - hi
    } else {
        0
    }
}

/// Decides whether `ball` touches `bounding_box` and, if so, which side of the
/// box the contact is attributed to.
pub fn check_boundary_collide(ball: Circle, bounding_box: Rect) -> (side: Option<CollisionSide>)
    ensures
        side == boundary_side(ball, bounding_box),
        separated(ball, bounding_box) ==> side is None,
{
    proof {
        if separated(ball, bounding_box) {
            lemma_separated_means_no_contact(ball, bounding_box);
        }
    }
    let dx: i64 = axis_offset(ball.center.x, bounding_box.center.x, bounding_box.half_extent.x);
    let dy: i64 = axis_offset(ball.center.y, bounding_box.center.y, bounding_box.half_extent.y);
    let wide_dx: i128 = dx as i128;
    let wide_dy: i128 = dy as i128;
    let radius: i128 = ball.radius as i128;
    proof {
        lemma_square_bound(wide_dx as int, 0x1_0000_0000);
        lemma_square_bound(wide_dy as int, 0x1_0000_0000);
        lemma_square_bound(radius as int, 0x1_0000_0000);
    }
    if wide_dx * wide_dx + wide_dy * wide_dy > radius * radius {
        return None;
    }
    let reach_x: i64 = if dx < 0 { -dx } else { dx };
    let reach_y: i64 = if dy < 0 { -dy } else { dy };
    let side = if reach_x > reach_y {
        if dx < 0 {
            CollisionSide::Left
        } else {
            CollisionSide::Right
        }
    } else if dy > 0 {
        CollisionSide::Top
    } else {
        CollisionSide::Bottom
    };
    Some(side)
}

/// A number no larger than `bound` in magnitude has a square no larger than
/// that of `bound`.
proof fn lemma_square_bound(v: int, bound: int)
    by (nonlinear_arith)
    requires
        -bound <= v <= bound,
    ensures
        0 <= v * v <= bound * bound,
{
}

/// A number strictly larger than `bound` in magnitude has a strictly larger
/// square.
proof fn lemma_square_exceeds(v: int, bound: int)
    by (nonlinear_arith)
    requires
        0 <= bound,
        v < -bound || bound < v,
    ensures
        v * v > bound * bound,
{
}

/// Of two numbers on the same side of zero, the one nearer to zero has the
/// smaller square.
proof fn lemma_square_grows_away_from_zero(near: int, far: int)
    by (nonlinear_arith)
    requires
        0 <= near <= far || far <= near <= 0,
    ensures
        near * near <= far * far,
{
}

/// A number and its negation have the same square.
proof fn lemma_square_ignores_sign(a: int, b: int)
    by (nonlinear_arith)
    requires
        a == b || a == -b,
    ensures
        a * a == b * b,
{
}

/// The nearest point is well named: it lies in the rectangle, and no point of
/// the rectangle is nearer to `(px, py)`.
pub proof fn lemma_closest_point_is_nearest(rect: Rect, px: int, py: int, qx: int, qy: int)
    requires
        rect.contains(qx, qy),
    ensures
        rect.contains(rect.closest_x(px), rect.closest_y(py)),
        length_squared(px - rect.closest_x(px), py - rect.closest_y(py)) <= length_squared(
            px - qx,
            py - qy,
        ),
{
    lemma_square_grows_away_from_zero(px - rect.closest_x(px), px - qx);
    lemma_square_grows_away_from_zero(py - rect.closest_y(py), py - qy);
}

/// A contact is reported exactly when the disc and the rectangle have a point
/// in common.
pub proof fn lemma_collides_iff_shapes_meet(ball: Circle, rect: Rect)
    ensures
        boundary_side(ball, rect) is Some <==> exists|x: int, y: int| #[trigger]
            rect.contains(x, y) && ball.contains(x, y),
{
    let cx = ball.center.x as int;
    let cy = ball.center.y as int;
    if intersects(ball, rect) {
        assert(rect.contains(rect.closest_x(cx), rect.closest_y(cy)));
    } else {
        assert forall|x: int, y: int| #[trigger] rect.contains(x, y) implies !ball.contains(
            x,
            y,
        ) by {
            lemma_closest_point_is_nearest(rect, cx, cy, x, y);
        }
    }
}

/// A disc that lies entirely outside the rectangle is not in contact with it.
pub proof fn lemma_outside_means_no_contact(ball: Circle, rect: Rect)
    requires
        forall|x: int, y: int| #[trigger] rect.contains(x, y) ==> !ball.contains(x, y),
    ensures
        boundary_side(ball, rect) is None,
{
    lemma_collides_iff_shapes_meet(ball, rect);
}

/// A disc whose bounding square stops short of the rectangle along either axis
/// is not in contact with it.
pub proof fn lemma_separated_means_no_contact(ball: Circle, rect: Rect)
    requires
        separated(ball, rect),
    ensures
        boundary_side(ball, rect) is None,
{
    let dx = offset_x(ball, rect);
    let dy = offset_y(ball, rect);
    let r = ball.radius as int;
    lemma_square_bound(dx, magnitude(dx));
    lemma_square_bound(dy, magnitude(dy));
    if dx < -r || r < dx {
        lemma_square_exceeds(dx, r);
    } else {
        lemma_square_exceeds(dy, r);
    }
}

/// A disc that rests against one side of the rectangle, its center level with
/// that side, is in contact with that side. A disc without radius rests
/// against a side only where its center lies on it, and is then in contact
/// with `Bottom`, as every disc is whose center is in the rectangle.
pub proof fn lemma_resting_against_a_side(ball: Circle, rect: Rect)
    ensures
        ball.radius > 0 && rect.min_y() <= ball.center.y <= rect.max_y() && ball.center.x
            == rect.min_x() - ball.radius ==> boundary_side(ball, rect) == Some(
            CollisionSide::Left,
        ),
        ball.radius > 0 && rect.min_y() <= ball.center.y <= rect.max_y() && ball.center.x
            == rect.max_x() + ball.radius ==> boundary_side(ball, rect) == Some(
            CollisionSide::Right,
        ),
        ball.radius > 0 && rect.min_x() <= ball.center.x <= rect.max_x() && ball.center.y
            == rect.max_y() + ball.radius ==> boundary_side(ball, rect) == Some(
            CollisionSide::Top,
        ),
        rect.min_x() <= ball.center.x <= rect.max_x() && ball.center.y == rect.min_y()
            - ball.radius ==> boundary_side(ball, rect) == Some(CollisionSide::Bottom),
{
    let r = ball.radius as int;
    let dx = offset_x(ball, rect);
    let dy = offset_y(ball, rect);
    if dy == 0 && (dx == r || dx == -r) {
        lemma_square_ignores_sign(dx, r);
    }
    if dx == 0 && (dy == r || dy == -r) {
        lemma_square_ignores_sign(dy, r);
    }
}

/// A disc whose center lies in the rectangle is in contact with it, and the
/// contact goes to `Bottom`, whatever the radius and wherever in the rectangle
/// the center is.
pub proof fn lemma_center_inside_reports_bottom(ball: Circle, rect: Rect)
    requires
        rect.contains(ball.center.x as int, ball.center.y as int),
    ensures
        boundary_side(ball, rect) == Some(CollisionSide::Bottom),
{
}

} // verus!
