use zibi::camera::camera_choices;
use zibi::landmark::Landmark;
use zibi::hand::Hand;
use zibi::pipeline::frame_line;
use zibi::point::Point;
use zibi::track::{parse_track_command, split_whitespace};

fn strings(v: &[&str]) -> Vec<String> {
    v.iter().map(|s| s.to_string()).collect()
}

#[test]
fn camera_choices_filters_prefixes_and_sorts() {
    let names = strings(&["tty0", "video2", "null", "video0", "video10", "media0", "videox"]);
    assert_eq!(
        camera_choices(&names),
        strings(&["/dev/video0", "/dev/video10", "/dev/video2", "/dev/videox"])
    );
}

#[test]
fn camera_choices_without_cameras() {
    assert_eq!(camera_choices(&strings(&["tty0", "vide", "Video0"])), strings(&["No camera found"]));
    assert_eq!(camera_choices(&Vec::new()), strings(&["No camera found"]));
}

#[test]
fn camera_choices_agrees_with_std_sort() {
    let names = strings(&["videoé", "video1", "videoZ", "video", "videoa", "video1", "xvideo"]);
    let mut expected: Vec<String> = names
        .iter()
        .filter(|n| n.starts_with("video"))
        .map(|n| format!("/dev/{n}"))
        .collect();
    expected.sort();
    assert_eq!(camera_choices(&names), expected);
}

#[test]
fn track_command_is_split_on_whitespace() {
    let (program, args) = parse_track_command("  python3  track.py\t--cam /dev/video0 ").unwrap();
    assert_eq!(program, "python3");
    assert_eq!(args, strings(&["track.py", "--cam", "/dev/video0"]));
    let (program, args) = parse_track_command("track").unwrap();
    assert_eq!(program, "track");
    assert!(args.is_empty());
}

#[test]
fn empty_track_command_is_rejected() {
    assert!(parse_track_command("").is_none());
    assert!(parse_track_command(" \t\n\u{3000}").is_none());
}

#[test]
fn split_whitespace_matches_std() {
    for s in ["", " a ", "a  b\tc\n", "\u{a0}x\u{2009}y", "ab", "   ", "é ü"].iter() {
        let expected: Vec<String> = s.split_whitespace().map(|w| w.to_string()).collect();
        assert_eq!(split_whitespace(s), expected, "input {:?}", s);
    }
}

#[test]
fn frame_line_trims_and_skips_blank_lines() {
    assert_eq!(frame_line("  {\"a\":1}\n"), Some("{\"a\":1}".to_string()));
    assert_eq!(frame_line("\n"), None);
    assert_eq!(frame_line(""), None);
    assert_eq!(frame_line(" \t "), None);
}

#[test]
fn fingertip_and_hand_of_a_landmark() {
    let points: Vec<Point> = (0..21).map(|i| Point { x: i, y: -i }).collect();
    let lm = Landmark { hand: Hand::Right, camera_width: 640, camera_height: 480, points };
    assert_eq!(lm.fingertip(), Some(Point { x: 8, y: -8 }));
    assert!(lm.is_from(Hand::Right));
    assert!(!lm.is_from(Hand::Left));
    let short = Landmark { hand: Hand::Left, camera_width: 640, camera_height: 480, points: vec![Point { x: 1, y: 1 }; 8] };
    assert_eq!(short.fingertip(), None);
}
