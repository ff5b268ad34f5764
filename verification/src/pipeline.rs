use vstd::prelude::*;

use crate::config::Config;
use crate::direction::Direction;
use crate::gesture::{within_window, observe_overflows, observe_step, GestureTracker, TrackerState, COOLDOWN_NS, WINDOW_NS};
use crate::landmark::{Landmark, TIP_INDEX};
use crate::niri::{focus_action, focus_for, FocusAction};
use crate::point::{Point, PointRecord};
use crate::text::{trim, trimmed};

verus! {

/// A line of tracker output, trimmed, or `None` when nothing but whitespace
/// is left to read.
pub fn frame_line(line: &str) -> (r: Option<String>)
    ensures
        match r {
            Some(t) => trim(line@).len() > 0 && t@ == trim(line@),
            None => trim(line@).len() == 0,
        },
{
    let t = trimmed(line);
    if t.as_str().is_empty() {
        None
    } else {
        Some(t)
    }
}

/// What to do with one decoded frame: whether to forward it to the preview,
/// and the focus move it triggers, if any.
#[derive(Debug, Clone, Copy, PartialEq, Eq, Structural)]
pub struct FrameOutcome {
    pub forward: bool,
    pub focus: Option<FocusAction>,
}

/// The fingertip sample a frame contributes: only frames of the dominant
/// hand that have a fingertip point contribute one.
pub open spec fn frame_sample(lm: Landmark, cfg: Config) -> Option<Point> {
    if lm.hand == cfg.core.dominant_hand && TIP_INDEX < lm.points@.len() {
        Some(lm.points@[TIP_INDEX as int])
    } else {
        None
    }
}

/// The focus move for an optional swipe.
pub open spec fn focus_of(dir: Option<Direction>) -> Option<FocusAction> {
    match dir {
        Some(d) => Some(focus_for(d)),
        None => None,
    }
}

/// The tracker state and focus move after the frame `lm` seen at `now`.
pub open spec fn frame_step(s: TrackerState, lm: Landmark, now: u64, cfg: Config) -> (
    TrackerState,
    Option<FocusAction>,
) {
    match frame_sample(lm, cfg) {
        Some(tip) => (
            observe_step(s, tip, now, cfg.core.move_threshold).0,
            focus_of(observe_step(s, tip, now, cfg.core.move_threshold).1),
        ),
        None => (s, None),
    }
}

/// Handling the frame `lm` at `now` would overflow: the tracker would have
/// to subtract coordinates whose difference does not fit, or the cooldown
/// end would not fit in the clock.
pub open spec fn frame_overflows(s: TrackerState, lm: Landmark, now: u64, cfg: Config) -> bool {
    match frame_sample(lm, cfg) {
        Some(tip) => observe_overflows(s, tip, now) || now > u64::MAX - COOLDOWN_NS,
        None => false,
    }
}

/// Whether `handle_frame(tracker, lm, now, cfg)` would overflow.
pub fn frame_would_overflow(tracker: &GestureTracker, lm: &Landmark, now: u64, cfg: &Config) -> (b: bool)
    ensures
        b == frame_overflows(tracker@, *lm, now, *cfg),
{
    if !lm.is_from(cfg.core.dominant_hand) {
        return false;
    }
    match lm.fingertip() {
        Some(tip) => tracker.would_overflow(tip, now) || now > u64::MAX - COOLDOWN_NS,
        None => false,
    }
}

/// Handles one decoded frame seen at `now`: a frame of the other hand is
/// skipped; a frame of the dominant hand is forwarded to the preview and,
/// when it has a fingertip, feeds the tracker, whose swipe becomes a focus
/// move.
pub fn handle_frame(tracker: &mut GestureTracker, lm: &Landmark, now: u64, cfg: &Config) -> (r: FrameOutcome)
    requires
        !frame_overflows(old(tracker)@, *lm, now, *cfg),
    ensures
        r.forward == (lm.hand == cfg.core.dominant_hand),
        (final(tracker)@, r.focus) == frame_step(old(tracker)@, *lm, now, *cfg),
{
    if !lm.is_from(cfg.core.dominant_hand) {
        return FrameOutcome { forward: false, focus: None };
    }
    let tip = match lm.fingertip() {
        Some(tip) => tip,
        None => {
            return FrameOutcome { forward: true, focus: None };
        },
    };
    let focus = match tracker.observe(tip, now, cfg.core.move_threshold) {
        Some(d) => Some(focus_action(d)),
        None => None,
    };
    FrameOutcome { forward: true, focus }
}

/// A frame of the dominant hand feeds the tracker its landmark `TIP_INDEX`
/// exactly as reported; any other frame leaves the tracker as it is and
/// moves no focus.
pub proof fn law_frame_feeds_its_fingertip(s: TrackerState, lm: Landmark, now: u64, cfg: Config)
    ensures
        lm.hand == cfg.core.dominant_hand && TIP_INDEX < lm.points@.len() ==> frame_step(
            s,
            lm,
            now,
            cfg,
        ) == (
            observe_step(s, lm.points@[TIP_INDEX as int], now, cfg.core.move_threshold).0,
            focus_of(
                observe_step(s, lm.points@[TIP_INDEX as int], now, cfg.core.move_threshold).1,
            ),
        ),
        !(lm.hand == cfg.core.dominant_hand && TIP_INDEX < lm.points@.len()) ==> frame_step(
            s,
            lm,
            now,
            cfg,
        ) == (s, None::<FocusAction>),
{
}

/// Two frames of the dominant hand, the second within the window of the
/// first and outside any cooldown, whose fingertip moves right by more than
/// the threshold and more than vertically, move the focus one column right;
/// the first frame alone moves nothing.
pub proof fn law_rightward_fingertip_focuses_right(
    s: TrackerState,
    first: Landmark,
    t1: u64,
    second: Landmark,
    t2: u64,
    cfg: Config,
)
    requires
        s.window.len() == 0,
        s.cooldown_until <= t1 <= t2,
        t2 - t1 <= WINDOW_NS,
        first.hand == cfg.core.dominant_hand,
        second.hand == cfg.core.dominant_hand,
        TIP_INDEX < first.points@.len(),
        TIP_INDEX < second.points@.len(),
        second.points@[TIP_INDEX as int].x - first.points@[TIP_INDEX as int].x
            > cfg.core.move_threshold,
        second.points@[TIP_INDEX as int].x - first.points@[TIP_INDEX as int].x > (if second.points@[TIP_INDEX as int].y >= first.points@[TIP_INDEX as int].y {
            second.points@[TIP_INDEX as int].y - first.points@[TIP_INDEX as int].y
        } else {
            first.points@[TIP_INDEX as int].y - second.points@[TIP_INDEX as int].y
        }),
    ensures
        frame_step(s, first, t1, cfg).1 == None::<FocusAction>,
        frame_step(frame_step(s, first, t1, cfg).0, second, t2, cfg).1 == Some(
            FocusAction::FocusColumnRight,
        ),
{
    reveal(Seq::filter);
    let p1 = first.points@[TIP_INDEX as int];
    let p2 = second.points@[TIP_INDEX as int];
    let r1 = PointRecord { point: p1, time: t1 };
    let r2 = PointRecord { point: p2, time: t2 };
    let s1 = frame_step(s, first, t1, cfg).0;
    assert(s.window.push(r1).drop_last() =~= s.window);
    assert(s.window.push(r1).filter(within_window(t1)) =~= seq![r1]);
    assert(s1.window =~= seq![r1]);
    assert(s1.window.push(r2).drop_last() =~= s1.window);
    assert(seq![r1].drop_last() =~= Seq::<PointRecord>::empty());
    assert(within_window(t2)(r1));
    assert(Seq::<PointRecord>::empty().filter(within_window(t2)) =~= Seq::<PointRecord>::empty());
    assert(seq![r1].drop_last() =~= Seq::<PointRecord>::empty());
    assert(seq![r1].filter(within_window(t2)) =~= seq![r1]);
    assert(s1.window.push(r2).filter(within_window(t2)) =~= seq![r1, r2]);
}

} // verus!
