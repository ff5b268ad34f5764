use vstd::prelude::*;

use crate::point::Point;

verus! {

/// The four directions a swipe can take, in screen coordinates
/// (y grows downwards).
#[derive(Debug, Clone, Copy, PartialEq, Eq, Structural)]
pub enum Direction {
    Left,
    Right,
    Up,
    Down,
}

/// Absolute value of a mathematical integer.
pub open spec fn abs(v: int) -> int {
    if v < 0 { -v } else { v }
}

/// The coordinate differences `first - last` fit in an `i16` whose absolute
/// value is again an `i16`; outside this range the arithmetic of
/// `detect_direction` would overflow.
pub open spec fn deltas_fit(first: Point, last: Point) -> bool {
    &&& i16::MIN < first.x - last.x <= i16::MAX
    &&& i16::MIN < first.y - last.y <= i16::MAX
}

/// The direction of the movement from `first` to `last`: none unless the
/// movement along some axis is strictly larger than `threshold`; otherwise
/// the axis with the larger movement wins, a tie going to the vertical axis.
pub open spec fn swipe(first: Point, last: Point, threshold: int) -> Option<Direction> {
    let mx = last.x - first.x;
    let my = last.y - first.y;
    if abs(mx) > threshold || abs(my) > threshold {
        if abs(mx) > abs(my) {
            Some(if mx > 0 { Direction::Right } else { Direction::Left })
        } else {
            Some(if my > 0 { Direction::Down } else { Direction::Up })
        }
    } else {
        None
    }
}

/// Classifies the movement from `first` to `last` as a swipe, if it is long
/// enough.
pub fn detect_direction(first: &Point, last: &Point, threshold: i16) -> (dir: Option<Direction>)
    requires
        deltas_fit(*first, *last),
    ensures
        dir == swipe(*first, *last, threshold as int),
{
    let delta_x: i16 = first.x - last.x;
    let delta_y: i16 = first.y - last.y;

    let abs_dx: i16 = if delta_x < 0 { -delta_x } else { delta_x };
    let abs_dy: i16 = if delta_y < 0 { -delta_y } else { delta_y };

    if abs_dx > threshold || abs_dy > threshold {
        let dir = if abs_dx > abs_dy {
            if delta_x < 0 {
                Direction::Right
            } else {
                Direction::Left
            }
        } else {
            if delta_y < 0 {
                Direction::Down
            } else {
                Direction::Up
            }
        };
        Some(dir)
    } else {
        None
    }
}

/// The direction pointing the other way.
pub open spec fn opposite(d: Direction) -> Direction {
    match d {
        Direction::Left => Direction::Right,
        Direction::Right => Direction::Left,
        Direction::Up => Direction::Down,
        Direction::Down => Direction::Up,
    }
}

/// Retracing a movement backwards gives the opposite swipe (or again none),
/// for any two distinct points.
pub proof fn law_reverse_swipe(first: Point, last: Point, threshold: int)
    requires
        first != last,
    ensures
        swipe(last, first, threshold) == (match swipe(first, last, threshold) {
            Some(d) => Some(opposite(d)),
            None => None,
        }),
{
}

/// A movement that is no swipe under some threshold is no swipe under any
/// larger threshold either.
pub proof fn law_threshold_monotone(first: Point, last: Point, low: int, high: int)
    requires
        low <= high,
        swipe(first, last, low) is None,
    ensures
        swipe(first, last, high) is None,
{
}

/// A movement of at most `threshold` along both axes is never a swipe, and
/// one beyond it always is.
pub proof fn law_swipe_needs_threshold(first: Point, last: Point, threshold: int)
    ensures
        swipe(first, last, threshold) is Some <==> (abs(last.x - first.x) > threshold || abs(
            last.y - first.y,
        ) > threshold),
{
}

} // verus!
