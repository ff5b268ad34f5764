use zibi::command::{supervise, Command, Controls, Supervision};
use zibi::config::{read_config, Config};
use zibi::hand::Hand;
use zibi::niri::{focus_action, FocusAction};
use zibi::direction::Direction;

#[test]
fn default_config_values() {
    let cfg = Config::default();
    assert_eq!(cfg.core.move_threshold, 150);
    assert_eq!(cfg.core.dominant_hand, Hand::Right);
    assert_eq!(cfg.core.camera, "/dev/video0");
}

#[test]
fn read_config_takes_the_form_values() {
    let cfg = Config::default();
    let r = read_config(" 220 ", 0, Some("/dev/video2".to_string()), &cfg);
    assert_eq!(r.core.move_threshold, 220);
    assert_eq!(r.core.dominant_hand, Hand::Left);
    assert_eq!(r.core.camera, "/dev/video2");
}

#[test]
fn read_config_keeps_previous_values_when_form_is_unusable() {
    let mut cfg = Config::default();
    cfg.core.move_threshold = 90;
    cfg.core.camera = "/dev/video4".to_string();
    let r = read_config("lots", 7, None, &cfg);
    assert_eq!(r.core.move_threshold, 90);
    assert_eq!(r.core.dominant_hand, Hand::Right);
    assert_eq!(r.core.camera, "/dev/video4");
    let r = read_config("", 1, None, &cfg);
    assert_eq!(r.core.move_threshold, 90);
    let r = read_config("40000", 1, None, &cfg);
    assert_eq!(r.core.move_threshold, 90);
    let r = read_config("-3", 1, None, &cfg);
    assert_eq!(r.core.move_threshold, -3);
}

#[test]
fn hand_selector_positions() {
    assert_eq!(Hand::Left.index(), 0);
    assert_eq!(Hand::Right.index(), 1);
    assert_eq!(Hand::from_index(0), Hand::Left);
    assert_eq!(Hand::from_index(1), Hand::Right);
    assert_eq!(Hand::from_index(5), Hand::Right);
    assert_eq!(Hand::from_index(Hand::Left.index()), Hand::Left);
}

#[test]
fn supervisor_runs_one_tracker_at_a_time() {
    assert!(matches!(supervise(false, Command::Start(Config::default())), Supervision::StartTracker(_)));
    assert!(matches!(supervise(true, Command::Start(Config::default())), Supervision::IgnoreStart));
    assert!(matches!(supervise(true, Command::Stop), Supervision::StopTracker));
    assert!(matches!(supervise(false, Command::Stop), Supervision::IgnoreStop));
    match supervise(false, Command::Start(read_config("77", 0, None, &Config::default()))) {
        Supervision::StartTracker(cfg) => assert_eq!(cfg.core.move_threshold, 77),
        _ => panic!("expected a start"),
    }
}

#[test]
fn controls_lock_settings_while_running() {
    let idle = Controls::for_state(false);
    assert!(idle.start_visible && !idle.stop_visible && idle.inputs_sensitive);
    let running = Controls::for_state(true);
    assert!(!running.start_visible && running.stop_visible && !running.inputs_sensitive);
}

#[test]
fn swipes_map_to_focus_moves() {
    assert_eq!(focus_action(Direction::Up), FocusAction::FocusWorkspaceUp);
    assert_eq!(focus_action(Direction::Down), FocusAction::FocusWorkspaceDown);
    assert_eq!(focus_action(Direction::Left), FocusAction::FocusColumnLeft);
    assert_eq!(focus_action(Direction::Right), FocusAction::FocusColumnRight);
}
