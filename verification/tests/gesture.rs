use zibi::direction::Direction;
use zibi::gesture::{GestureTracker, COOLDOWN_NS, WINDOW_NS};
use zibi::point::Point;

const MS: u64 = 1_000_000;
const T: i16 = 150;

fn p(x: i16, y: i16) -> Point {
    Point { x, y }
}

#[test]
fn single_sample_is_never_a_swipe() {
    let mut t = GestureTracker::new(0);
    assert_eq!(t.observe(p(0, 0), 10 * MS, -5), None);
    assert_eq!(t.window().len(), 1);
}

#[test]
fn swipe_within_window_is_reported_and_starts_cooldown() {
    let mut t = GestureTracker::new(0);
    assert_eq!(t.observe(p(0, 0), 0, T), None);
    assert_eq!(t.observe(p(100, 0), 100 * MS, T), None);
    assert_eq!(t.observe(p(200, 10), 200 * MS, T), Some(Direction::Right));
    assert!(t.window().is_empty());
    assert_eq!(t.cooldown_until(), 200 * MS + COOLDOWN_NS);
}

#[test]
fn samples_during_cooldown_are_dropped() {
    let mut t = GestureTracker::new(0);
    t.observe(p(0, 0), 0, T);
    assert_eq!(t.observe(p(0, 300), 50 * MS, T), Some(Direction::Down));
    // Still cooling down: even a large movement is ignored.
    assert_eq!(t.observe(p(0, 0), 100 * MS, T), None);
    assert_eq!(t.observe(p(500, 0), 549 * MS, T), None);
    assert!(t.window().is_empty());
    // The cooldown ends at 550 ms; from then on samples count again.
    assert_eq!(t.observe(p(0, 0), 550 * MS, T), None);
    assert_eq!(t.window().len(), 1);
    assert_eq!(t.observe(p(0, -200), 600 * MS, T), Some(Direction::Up));
}

#[test]
fn old_samples_leave_the_window() {
    let mut t = GestureTracker::new(0);
    t.observe(p(0, 0), 0, T);
    // 301 ms later the first sample is out of the window.
    assert_eq!(t.observe(p(300, 0), WINDOW_NS + MS, T), None);
    assert_eq!(t.window().len(), 1);
    assert_eq!(t.window()[0].point, p(300, 0));
}

#[test]
fn sample_exactly_at_window_edge_still_counts() {
    let mut t = GestureTracker::new(0);
    t.observe(p(0, 0), 0, T);
    assert_eq!(t.observe(p(-300, 0), WINDOW_NS, T), Some(Direction::Left));
}

#[test]
fn oldest_sample_in_window_is_compared_with_newest() {
    let mut t = GestureTracker::new(0);
    t.observe(p(0, 0), 0, T);
    t.observe(p(140, 0), 100 * MS, T);
    // 0 -> 140 is not enough, 0 -> 151 is.
    assert_eq!(t.observe(p(151, 0), 200 * MS, T), Some(Direction::Right));
}

#[test]
fn tracker_starts_in_cooldown_until_its_creation_time() {
    let mut t = GestureTracker::new(1_000 * MS);
    assert_eq!(t.observe(p(0, 0), 999 * MS, T), None);
    assert!(t.window().is_empty());
    assert_eq!(t.observe(p(0, 0), 1_000 * MS, T), None);
    assert_eq!(t.window().len(), 1);
}

#[test]
fn overflow_is_detected_before_observing() {
    let mut t = GestureTracker::new(0);
    t.observe(p(-30000, 0), 0, T);
    assert!(t.would_overflow(p(30000, 0), MS));
    assert!(!t.would_overflow(p(2000, 0), MS));
    // Out of the window the old sample no longer matters.
    assert!(!t.would_overflow(p(30000, 0), WINDOW_NS + MS));
}

use zibi::config::Config;
use zibi::hand::Hand;
use zibi::landmark::Landmark;
use zibi::niri::FocusAction;
use zibi::pipeline::{frame_would_overflow, handle_frame};

fn frame(hand: Hand, tip: Point, n: usize) -> Landmark {
    let mut points = vec![Point { x: 0, y: 0 }; n];
    if n > 8 {
        points[8] = tip;
    }
    Landmark { hand, camera_width: 640, camera_height: 480, points }
}

#[test]
fn handle_frame_skips_the_other_hand() {
    let cfg = Config::default();
    let mut t = GestureTracker::new(0);
    let r = handle_frame(&mut t, &frame(Hand::Left, p(0, 0), 21), 0, &cfg);
    assert!(!r.forward);
    assert_eq!(r.focus, None);
    assert!(t.window().is_empty());
}

#[test]
fn handle_frame_forwards_frames_without_tip_but_does_not_track_them() {
    let cfg = Config::default();
    let mut t = GestureTracker::new(0);
    let r = handle_frame(&mut t, &frame(Hand::Right, p(0, 0), 5), 0, &cfg);
    assert!(r.forward);
    assert_eq!(r.focus, None);
    assert!(t.window().is_empty());
}

#[test]
fn handle_frame_turns_swipes_into_focus_moves() {
    let cfg = Config::default();
    let mut t = GestureTracker::new(0);
    let r = handle_frame(&mut t, &frame(Hand::Right, p(0, 0), 21), 0, &cfg);
    assert!(r.forward);
    assert_eq!(r.focus, None);
    assert!(!frame_would_overflow(&t, &frame(Hand::Right, p(0, 200), 21), 100 * MS, &cfg));
    let r = handle_frame(&mut t, &frame(Hand::Right, p(0, 200), 21), 100 * MS, &cfg);
    assert_eq!(r.focus, Some(FocusAction::FocusWorkspaceDown));
}

#[test]
fn frame_overflow_is_detected() {
    let cfg = Config::default();
    let mut t = GestureTracker::new(0);
    handle_frame(&mut t, &frame(Hand::Right, p(-30000, 0), 21), 0, &cfg);
    assert!(frame_would_overflow(&t, &frame(Hand::Right, p(30000, 0), 21), MS, &cfg));
    assert!(!frame_would_overflow(&t, &frame(Hand::Left, p(30000, 0), 21), MS, &cfg));
    assert!(!frame_would_overflow(&t, &frame(Hand::Right, p(30000, 0), 3), MS, &cfg));
}

#[test]
fn cooldown_spans_many_samples_and_forgets_them() {
    let mut t = GestureTracker::new(0);
    t.observe(p(0, 0), 0, T);
    assert_eq!(t.observe(p(300, 0), 100 * MS, T), Some(Direction::Right));
    // Samples during the cooldown report nothing, however far they move.
    for (i, x) in [-400i16, 400, -400, 400].iter().enumerate() {
        assert_eq!(t.observe(p(*x, 0), (200 + 100 * i as u64) * MS, T), None);
        assert!(t.window().is_empty());
    }
    // After the cooldown only new samples count: -400 from the cooldown is forgotten.
    assert_eq!(t.observe(p(0, 0), 600 * MS, T), None);
    assert_eq!(t.observe(p(100, 0), 650 * MS, T), None);
}
