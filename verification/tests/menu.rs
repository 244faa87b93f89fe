use breakout::menu::{WINDOW_HEIGHT, WINDOW_WIDTH};
use breakout::{check_ui_collision, Extent, Vector, UNITS_PER_PIXEL};

const PX: i32 = UNITS_PER_PIXEL;

/// Hit test with the size and the center of the entry given in whole pixels,
/// and the position in lattice units.
fn on_entry(x: i32, y: i32, width: u32, height: u32, center_x: i32, center_y: i32) -> bool {
    check_ui_collision(
        Vector::new(x, y),
        Extent::new(width * PX as u32, height * PX as u32),
        Vector::new(center_x * PX, center_y * PX),
    )
}

fn on_first_entry(x: i32, y: i32) -> bool {
    on_entry(x, y, 200, 55, 0, 30)
}

#[test]
fn window_measures_six_hundred_by_four_hundred_pixels() {
    assert_eq!(UNITS_PER_PIXEL, 64);
    assert_eq!((WINDOW_WIDTH, WINDOW_HEIGHT), (38400, 25600));
}

#[test]
fn pointer_in_the_middle_of_the_first_entry_is_on_it() {
    assert!(on_first_entry(300 * PX, 170 * PX));
}

#[test]
fn pointer_in_the_middle_of_the_window_is_not_on_the_first_entry() {
    assert!(!on_first_entry(300 * PX, 200 * PX));
}

#[test]
fn pointer_in_the_middle_of_the_window_is_on_an_entry_centered_there() {
    assert!(on_entry(300 * PX, 200 * PX, 200, 55, 0, 0));
}

#[test]
fn pointer_forty_pixels_above_an_entry_fifty_five_high_is_not_on_it() {
    assert!(!on_entry(300 * PX, 160 * PX, 200, 55, 0, 0));
}

#[test]
fn pointer_on_the_first_entry_is_not_on_the_second() {
    assert!(on_entry(300 * PX, 170 * PX, 200, 55, 0, 30));
    assert!(!on_entry(300 * PX, 170 * PX, 200, 55, 0, -45));
    assert!(on_entry(300 * PX, 245 * PX, 200, 55, 0, -45));
    assert!(!on_entry(300 * PX, 245 * PX, 200, 55, 0, 30));
}

#[test]
fn horizontal_bounds_of_the_first_entry_are_exclusive() {
    assert!(!on_first_entry(200 * PX, 170 * PX));
    assert!(on_first_entry(200 * PX + 1, 170 * PX));
    assert!(on_first_entry(400 * PX - 1, 170 * PX));
    assert!(!on_first_entry(400 * PX, 170 * PX));
}

#[test]
fn vertical_bounds_of_the_first_entry_fall_on_half_pixels() {
    // Counted from the middle of the window, the ordinate must lie strictly
    // between -57.5 and -2.5 pixels.
    let top = 200 * PX - 57 * PX - PX / 2;
    let bottom = 200 * PX - 2 * PX - PX / 2;
    assert!(!on_first_entry(300 * PX, top));
    assert!(on_first_entry(300 * PX, top + 1));
    assert!(on_first_entry(300 * PX, bottom - 1));
    assert!(!on_first_entry(300 * PX, bottom));
}

#[test]
fn fractions_of_a_pixel_count() {
    // 99.59375 pixels left of the middle is inside, 100 pixels is not.
    assert!(on_first_entry(300 * PX - 6374, 170 * PX));
    assert!(!on_first_entry(300 * PX - 6400, 170 * PX));
}

#[test]
fn odd_size_puts_the_bounds_on_half_units() {
    let on = |x: i32, y: i32| check_ui_collision(Vector::new(x, y), Extent::new(5, 3), Vector::new(0, 0));
    let (mid_x, mid_y) = (WINDOW_WIDTH / 2, WINDOW_HEIGHT / 2);
    // Strictly between -2.5 and 2.5 units, and between -1.5 and 1.5.
    assert!(!on(mid_x - 3, mid_y));
    assert!(on(mid_x - 2, mid_y));
    assert!(on(mid_x + 2, mid_y));
    assert!(!on(mid_x + 3, mid_y));
    assert!(!on(mid_x, mid_y - 2));
    assert!(on(mid_x, mid_y - 1));
    assert!(on(mid_x, mid_y + 1));
    assert!(!on(mid_x, mid_y + 2));
}

#[test]
fn accepted_range_is_as_high_as_the_entry_and_moves_with_its_center() {
    for center_y in [-140, -45, 0, 30, 77] {
        let mut accepted: Vec<i32> = Vec::new();
        for y in 0..=WINDOW_HEIGHT {
            if on_entry(300 * PX, y, 200, 55, 0, center_y) {
                accepted.push(y);
            }
        }
        // Every lattice point strictly between the two sides, 55 pixels apart.
        assert_eq!(accepted.len() as i32, 55 * PX - 1);
        let middle = (200 - center_y) * PX;
        assert_eq!(accepted.first().copied(), Some(middle - 55 * PX / 2 + 1));
        assert_eq!(accepted.last().copied(), Some(middle + 55 * PX / 2 - 1));
    }
}

#[test]
fn accepted_range_is_as_wide_as_the_entry_and_moves_with_its_center() {
    for center_x in [-120, 0, 50] {
        let mut accepted: Vec<i32> = Vec::new();
        for x in 0..=WINDOW_WIDTH {
            if on_entry(x, 170 * PX, 200, 55, center_x, 30) {
                accepted.push(x);
            }
        }
        assert_eq!(accepted.len() as i32, 200 * PX - 1);
        let middle = (300 + center_x) * PX;
        assert_eq!(accepted.first().copied(), Some(middle - 100 * PX + 1));
        assert_eq!(accepted.last().copied(), Some(middle + 100 * PX - 1));
    }
}

#[test]
fn entry_without_size_is_never_hit() {
    for x in -5..=5 {
        for y in -5..=5 {
            assert!(!check_ui_collision(
                Vector::new(WINDOW_WIDTH / 2 + x, WINDOW_HEIGHT / 2 + y),
                Extent::new(0, 0),
                Vector::new(0, 0),
            ));
        }
    }
}

#[test]
fn positions_and_sizes_at_the_limits_of_their_types_are_handled() {
    let huge = Extent::new(u32::MAX, u32::MAX);
    assert!(!check_ui_collision(Vector::new(i32::MIN, i32::MIN), huge, Vector::new(i32::MAX, i32::MAX)));
    assert!(!check_ui_collision(Vector::new(i32::MAX, i32::MAX), huge, Vector::new(i32::MIN, i32::MIN)));
    assert!(check_ui_collision(Vector::new(i32::MAX, 0), huge, Vector::new(i32::MAX, 0)));
    assert!(!check_ui_collision(Vector::new(i32::MAX, i32::MAX), Extent::new(0, 0), Vector::new(i32::MAX, i32::MIN)));
}
