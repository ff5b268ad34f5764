use zibi::direction::{detect_direction, Direction};
use zibi::point::Point;

const T: i16 = 150;

#[test]
fn no_direction_when_below_threshold() {
    let a = Point { x: 0, y: 0 };
    let b = Point { x: 100, y: 100 };
    assert_eq!(detect_direction(&a, &b, T), None);
}

#[test]
fn no_direction_when_exactly_at_threshold() {
    let a = Point { x: 0, y: 0 };
    let b = Point { x: 150, y: 0 };
    assert_eq!(detect_direction(&a, &b, T), None);
}

#[test]
fn moving_left_to_right_is_right() {
    let a = Point { x: 0, y: 0 };
    let b = Point { x: 200, y: 0 };
    assert_eq!(detect_direction(&a, &b, T), Some(Direction::Right));
}

#[test]
fn moving_right_to_left_is_left() {
    let a = Point { x: 200, y: 0 };
    let b = Point { x: 0, y: 0 };
    assert_eq!(detect_direction(&a, &b, T), Some(Direction::Left));
}

#[test]
fn moving_top_to_bottom_is_down() {
    let a = Point { x: 0, y: 0 };
    let b = Point { x: 0, y: 200 };
    assert_eq!(detect_direction(&a, &b, T), Some(Direction::Down));
}

#[test]
fn moving_bottom_to_top_is_up() {
    let a = Point { x: 0, y: 200 };
    let b = Point { x: 0, y: 0 };
    assert_eq!(detect_direction(&a, &b, T), Some(Direction::Up));
}

#[test]
fn dominant_axis_wins_when_both_exceed_threshold() {
    let a = Point { x: 0, y: 0 };
    let b = Point { x: 300, y: 200 };
    assert_eq!(detect_direction(&a, &b, T), Some(Direction::Right));

    // Vertical movement is larger.
    let c = Point { x: 0, y: 0 };
    let d = Point { x: 200, y: 300 };
    assert_eq!(detect_direction(&c, &d, T), Some(Direction::Down));
}

#[test]
fn ties_favor_vertical_axis() {
    let a = Point { x: 0, y: 0 };
    let b = Point { x: 200, y: 200 };
    assert_eq!(detect_direction(&a, &b, T), Some(Direction::Down));
}

#[test]
fn reversed_movement_gives_opposite_direction() {
    let a = Point { x: 10, y: -40 };
    let b = Point { x: -250, y: 30 };
    assert_eq!(detect_direction(&a, &b, T), Some(Direction::Left));
    assert_eq!(detect_direction(&b, &a, T), Some(Direction::Right));
    let c = Point { x: 5, y: 400 };
    assert_eq!(detect_direction(&a, &c, T), Some(Direction::Down));
    assert_eq!(detect_direction(&c, &a, T), Some(Direction::Up));
}

#[test]
fn larger_threshold_never_adds_a_swipe() {
    let a = Point { x: 0, y: 0 };
    let b = Point { x: 120, y: -90 };
    assert_eq!(detect_direction(&a, &b, 100), Some(Direction::Right));
    assert_eq!(detect_direction(&a, &b, 119), Some(Direction::Right));
    assert_eq!(detect_direction(&a, &b, 120), None);
    assert_eq!(detect_direction(&a, &b, 500), None);
}

#[test]
fn negative_threshold_reports_even_no_movement() {
    let a = Point { x: 3, y: 3 };
    assert_eq!(detect_direction(&a, &a, -1), Some(Direction::Up));
}

#[test]
fn extreme_but_fitting_coordinates() {
    let a = Point { x: 32767, y: 0 };
    let b = Point { x: 0, y: 0 };
    assert_eq!(detect_direction(&a, &b, T), Some(Direction::Left));
    assert_eq!(detect_direction(&b, &a, T), Some(Direction::Right));
}
