//! Hit test for the entries of the menu screen.

use vstd::prelude::*;
use crate::geometry::{magnitude, Extent, Vector, UNITS_PER_PIXEL};

verus! {

/// Width of the window, in lattice units.
pub const WINDOW_WIDTH: i32 = 600 * UNITS_PER_PIXEL;

/// Height of the window, in lattice units.
pub const WINDOW_HEIGHT: i32 = 400 * UNITS_PER_PIXEL;

/// The point `(x, y)` lies strictly inside the rectangle of the given width
/// and height around `(center_x, -center_y)`: the ordinate of an entry's
/// center counts upwards, that of the point downwards. The comparisons are
/// doubled, which keeps the halves of the width and the height exact.
pub open spec fn inside_entry(
    x: int,
    y: int,
    width: int,
    height: int,
    center_x: int,
    center_y: int,
) -> bool {
    &&& 2 * x > 2 * center_x - width
    &&& 2 * x < 2 * center_x + width
    &&& 2 * y > -height - 2 * center_y
    &&& 2 * y < height - 2 * center_y
}

/// The pointer at `position`, counted from a corner of the window, is on the
/// menu entry of the given size and center. The position is first moved by
/// half the window, so that it counts from the middle.
pub open spec fn pointer_on_entry(
    position: Vector,
    element_size: Extent,
    element_center: Vector,
) -> bool {
    inside_entry(
        position.x - WINDOW_WIDTH / 2,
        position.y - WINDOW_HEIGHT / 2,
        element_size.x as int,
        element_size.y as int,
        element_center.x as int,
        element_center.y as int,
    )
}

/// Tells whether a pointer position in the window is on a menu entry.
pub fn check_ui_collision(
    position: Vector,
    element_size: Extent,
    element_center: Vector,
) -> (hit: bool)
    ensures
        hit == pointer_on_entry(position, element_size, element_center),
{
    let x: i64 = position.x as i64 - (WINDOW_WIDTH / 2) as i64;
    let y: i64 = position.y as i64 - (WINDOW_HEIGHT / 2) as i64;
    let center_x: i64 = element_center.x as i64;
    let center_y: i64 = element_center.y as i64;
    let width: i64 = element_size.x as i64;
    let height: i64 = element_size.y as i64;
    2 * x > 2 * center_x - width && 2 * x < 2 * center_x + width && 2 * y > -height - 2 * center_y
        && 2 * y < height - 2 * center_y
}

/// The hit test is a test against a rectangle: a point is inside exactly when
/// it is nearer to the center than half the width along one axis and half the
/// height along the other.
pub proof fn lemma_entry_is_a_rectangle(
    x: int,
    y: int,
    width: int,
    height: int,
    center_x: int,
    center_y: int,
)
    ensures
        inside_entry(x, y, width, height, center_x, center_y) <==> 2 * magnitude(x - center_x)
            < width && 2 * magnitude(y + center_y) < height,
{
}

/// The rectangle goes where the entry goes: moving the center and the point
/// alike, the point down where the center goes up, changes nothing.
pub proof fn lemma_entry_moves_with_its_center(
    x: int,
    y: int,
    width: int,
    height: int,
    center_x: int,
    center_y: int,
    right: int,
    up: int,
)
    ensures
        inside_entry(x + right, y - up, width, height, center_x + right, center_y + up)
            == inside_entry(x, y, width, height, center_x, center_y),
{
}

} // verus!
