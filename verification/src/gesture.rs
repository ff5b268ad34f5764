use vstd::prelude::*;

use crate::direction::{abs, deltas_fit, detect_direction, swipe, Direction};
use crate::point::{Point, PointRecord};

verus! {

/// How far back, in nanoseconds, a fingertip sample still counts towards a
/// swipe.
pub const WINDOW_NS: u64 = 300_000_000;

/// How long, in nanoseconds, samples are ignored after a swipe was reported.
pub const COOLDOWN_NS: u64 = 500_000_000;

/// Time from `then` to `now`, zero when `then` is later (as
/// `Instant::duration_since` saturates).
pub open spec fn elapsed(now: u64, then: u64) -> int {
    if now >= then {
        now - then
    } else {
        0
    }
}

/// A sample that is still inside the window at time `now`.
pub open spec fn within_window(now: u64) -> spec_fn(PointRecord) -> bool {
    |r: PointRecord| elapsed(now, r.time) <= WINDOW_NS
}

/// The abstract state of a gesture tracker: the recent fingertip samples,
/// oldest first, and the time until which new samples are ignored.
pub struct TrackerState {
    pub window: Seq<PointRecord>,
    pub cooldown_until: u64,
}

/// The samples kept after `tip` is recorded at `now`: the old window with the
/// new sample appended, without the samples that left the window.
pub open spec fn retained(window: Seq<PointRecord>, tip: Point, now: u64) -> Seq<PointRecord> {
    window.push(PointRecord { point: tip, time: now }).filter(within_window(now))
}

/// The effect of one fingertip sample: the next state and the swipe it
/// completes, if any.
pub open spec fn observe_step(s: TrackerState, tip: Point, now: u64, threshold: i16) -> (
    TrackerState,
    Option<Direction>,
) {
    if now < s.cooldown_until {
        (TrackerState { window: Seq::empty(), cooldown_until: s.cooldown_until }, None)
    } else {
        let w = retained(s.window, tip, now);
        if w.len() < 2 {
            (TrackerState { window: w, cooldown_until: s.cooldown_until }, None)
        } else {
            match swipe(w[0].point, w.last().point, threshold as int) {
                Some(d) => (
                    TrackerState {
                        window: Seq::empty(),
                        cooldown_until: (now + COOLDOWN_NS) as u64,
                    },
                    Some(d),
                ),
                None => (TrackerState { window: w, cooldown_until: s.cooldown_until }, None),
            }
        }
    }
}

/// The sample would compare two points whose difference overflows the
/// coordinate type.
pub open spec fn observe_overflows(s: TrackerState, tip: Point, now: u64) -> bool {
    let w = retained(s.window, tip, now);
    &&& now >= s.cooldown_until
    &&& w.len() >= 2
    &&& !deltas_fit(w[0].point, w.last().point)
}

/// Turns a stream of fingertip samples into swipes: a swipe is reported when
/// the oldest sample of the last `WINDOW_NS` and the newest one are far
/// enough apart, after which samples are ignored for `COOLDOWN_NS`.
pub struct GestureTracker {
    points: Vec<PointRecord>,
    cooldown_until: u64,
}

impl View for GestureTracker {
    type V = TrackerState;

    closed spec fn view(&self) -> TrackerState {
        TrackerState { window: self.points@, cooldown_until: self.cooldown_until }
    }
}

/// The samples of `points` plus `tip` at `now` that lie inside the window.
fn retain_window(points: &Vec<PointRecord>, tip: Point, now: u64) -> (w: Vec<PointRecord>)
    ensures
        w@ == retained(points@, tip, now),
{
    let ghost all = points@.push(PointRecord { point: tip, time: now });
    let ghost pred = within_window(now);
    let mut w: Vec<PointRecord> = Vec::new();
    let n = points.len();
    let mut i: usize = 0;
    assert(all.take(0) =~= Seq::<PointRecord>::empty());
    proof {
        reveal(Seq::filter);
    }
    while i < n
        invariant
            i <= n == points.len(),
            all == points@.push(PointRecord { point: tip, time: now }),
            pred == within_window(now),
            w@ == all.take(i as int).filter(pred),
        decreases n - i,
    {
        let r = points[i];
        proof {
            assert(all.take(i + 1) =~= all.take(i as int).push(r));
            all.take(i as int).lemma_filter_push(r, pred);
        }
        let age: u64 = if now >= r.time { now - r.time } else { 0 };
        if age <= WINDOW_NS {
            w.push(r);
        }
        i = i + 1;
    }
    let rec = PointRecord { point: tip, time: now };
    proof {
        assert(all.take(n as int + 1) =~= all.take(n as int).push(rec));
        all.take(n as int).lemma_filter_push(rec, pred);
        assert(all.take(n as int + 1) =~= all);
    }
    w.push(rec);
    w
}

impl GestureTracker {
    /// A tracker with no samples that accepts samples from `now` on.
    pub fn new(now: u64) -> (t: GestureTracker)
        ensures
            t@.window == Seq::<PointRecord>::empty(),
            t@.cooldown_until == now,
    {
        GestureTracker { points: Vec::new(), cooldown_until: now }
    }

    /// The samples currently in the window, oldest first.
    pub fn window(&self) -> (w: &Vec<PointRecord>)
        ensures
            w@ == self@.window,
    {
        &self.points
    }

    /// The time until which samples are ignored.
    pub fn cooldown_until(&self) -> (t: u64)
        ensures
            t == self@.cooldown_until,
    {
        self.cooldown_until
    }

    /// Whether `observe(tip, now, _)` would have to subtract coordinates
    /// whose difference does not fit in the coordinate type.
    pub fn would_overflow(&self, tip: Point, now: u64) -> (b: bool)
        ensures
            b == observe_overflows(self@, tip, now),
    {
        if now < self.cooldown_until {
            return false;
        }
        let w = retain_window(&self.points, tip, now);
        if w.len() < 2 {
            return false;
        }
        let first = w[0].point;
        let last = w[w.len() - 1].point;
        let dx: i32 = first.x as i32 - last.x as i32;
        let dy: i32 = first.y as i32 - last.y as i32;
        !(-32767 <= dx && dx <= 32767 && -32767 <= dy && dy <= 32767)
    }

    /// Records the fingertip `tip` seen at `now` and reports the swipe it
    /// completes, if any.
    pub fn observe(&mut self, tip: Point, now: u64, threshold: i16) -> (dir: Option<Direction>)
        requires
            !observe_overflows(old(self)@, tip, now),
            now <= u64::MAX - COOLDOWN_NS,
        ensures
            (final(self)@, dir) == observe_step(old(self)@, tip, now, threshold),
    {
        if now < self.cooldown_until {
            self.points.clear();
            return None;
        }
        let w = retain_window(&self.points, tip, now);
        self.points = w;
        if self.points.len() < 2 {
            return None;
        }
        let first = self.points[0].point;
        let last = self.points[self.points.len() - 1].point;
        match detect_direction(&first, &last, threshold) {
            Some(d) => {
                self.cooldown_until = now + COOLDOWN_NS;
                self.points.clear();
                Some(d)
            },
            None => None,
        }
    }
}

/// The window after a sample: the filtered old window followed by the new
/// sample itself.
proof fn lemma_retained_shape(window: Seq<PointRecord>, tip: Point, now: u64)
    ensures
        retained(window, tip, now) == window.filter(within_window(now)).push(
            PointRecord { point: tip, time: now },
        ),
        forall|i: int|
            0 <= i < retained(window, tip, now).len() ==> elapsed(
                now,
                #[trigger] retained(window, tip, now)[i].time,
            ) <= WINDOW_NS,
{
    let rec = PointRecord { point: tip, time: now };
    window.lemma_filter_push(rec, within_window(now));
    assert forall|i: int| 0 <= i < retained(window, tip, now).len() implies elapsed(
        now,
        #[trigger] retained(window, tip, now)[i].time,
    ) <= WINDOW_NS by {
        window.push(rec).lemma_filter_pred(within_window(now), i);
    }
}

/// While the cooldown lasts, a sample is dropped, the window is emptied and
/// no swipe is reported.
pub proof fn law_cooldown_ignores_samples(s: TrackerState, tip: Point, now: u64, threshold: i16)
    requires
        now < s.cooldown_until,
    ensures
        observe_step(s, tip, now, threshold).1 == None::<Direction>,
        observe_step(s, tip, now, threshold).0.window == Seq::<PointRecord>::empty(),
        observe_step(s, tip, now, threshold).0.cooldown_until == s.cooldown_until,
{
}

/// A reported swipe empties the window and starts a cooldown of
/// `COOLDOWN_NS`: no sample before it ends completes another swipe.
pub proof fn law_swipe_starts_cooldown(
    s: TrackerState,
    tip: Point,
    now: u64,
    threshold: i16,
    next_tip: Point,
    next_now: u64,
    next_threshold: i16,
)
    requires
        now <= u64::MAX - COOLDOWN_NS,
        observe_step(s, tip, now, threshold).1 is Some,
        next_now < now + COOLDOWN_NS,
    ensures
        observe_step(s, tip, now, threshold).0.window == Seq::<PointRecord>::empty(),
        observe_step(s, tip, now, threshold).0.cooldown_until == now + COOLDOWN_NS,
        observe_step(observe_step(s, tip, now, threshold).0, next_tip, next_now, next_threshold).1
            == None::<Direction>,
{
}

/// A single sample is never a swipe: from an empty window no sample reports
/// one.
pub proof fn law_single_sample_is_no_swipe(s: TrackerState, tip: Point, now: u64, threshold: i16)
    requires
        s.window.len() == 0,
    ensures
        observe_step(s, tip, now, threshold).1 == None::<Direction>,
{
    lemma_retained_shape(s.window, tip, now);
    reveal(Seq::filter);
}

/// Every sample kept after a step lies within `WINDOW_NS` of the step's time,
/// and the newest one is the sample just given (unless the window was
/// emptied).
pub proof fn law_window_is_recent(s: TrackerState, tip: Point, now: u64, threshold: i16)
    ensures
        forall|i: int|
            0 <= i < observe_step(s, tip, now, threshold).0.window.len() ==> elapsed(
                now,
                #[trigger] observe_step(s, tip, now, threshold).0.window[i].time,
            ) <= WINDOW_NS,
        observe_step(s, tip, now, threshold).0.window.len() > 0 ==> observe_step(
            s,
            tip,
            now,
            threshold,
        ).0.window.last() == (PointRecord { point: tip, time: now }),
{
    lemma_retained_shape(s.window, tip, now);
}

/// A reported swipe is the movement from a sample still inside the window to
/// the sample just given.
pub proof fn law_swipe_is_recent_movement(
    s: TrackerState,
    tip: Point,
    now: u64,
    threshold: i16,
    d: Direction,
)
    requires
        observe_step(s, tip, now, threshold).1 == Some(d),
    ensures
        exists|i: int|
            0 <= i < s.window.len() && elapsed(now, s.window[i].time) <= WINDOW_NS && swipe(
                #[trigger] s.window[i].point,
                tip,
                threshold as int,
            ) == Some(d),
{
    broadcast use vstd::seq_lib::group_filter_ensures;

    lemma_retained_shape(s.window, tip, now);
    let f = s.window.filter(within_window(now));
    let w = retained(s.window, tip, now);
    assert(w[0] == f[0]);
    assert(f.contains(f[0]));
    s.window.lemma_filter_contains_rev(within_window(now), f[0]);
    let i = choose|i: int| 0 <= i < s.window.len() && s.window[i] == f[0];
    assert(elapsed(now, s.window[i].time) <= WINDOW_NS);
}

/// The effect of a sequence of fingertip samples `(tip, time)`, fed one
/// after the other: the final state and the swipe each sample completes.
pub open spec fn run_samples(s: TrackerState, samples: Seq<(Point, u64)>, threshold: i16) -> (
    TrackerState,
    Seq<Option<Direction>>,
)
    decreases samples.len(),
{
    if samples.len() == 0 {
        (s, Seq::empty())
    } else {
        let step = observe_step(s, samples[0].0, samples[0].1, threshold);
        let rest = run_samples(step.0, samples.drop_first(), threshold);
        (rest.0, seq![step.1] + rest.1)
    }
}

/// `n` samples that report nothing.
pub open spec fn no_swipes(n: nat) -> Seq<Option<Direction>> {
    Seq::new(n, |i: int| None::<Direction>)
}

/// Samples seen before the cooldown ends report nothing and leave no trace:
/// what follows them runs as from an empty window with the same cooldown end,
/// so the next swipe is computed only from samples seen once the cooldown is
/// over.
pub proof fn law_cooldown_spans_samples(
    s: TrackerState,
    pre: Seq<(Point, u64)>,
    post: Seq<(Point, u64)>,
    threshold: i16,
)
    requires
        forall|i: int| 0 <= i < pre.len() ==> (#[trigger] pre[i]).1 < s.cooldown_until,
        pre.len() > 0 || s.window.len() == 0,
    ensures
        run_samples(s, pre + post, threshold) == ({
            let after = run_samples(
                TrackerState { window: Seq::empty(), cooldown_until: s.cooldown_until },
                post,
                threshold,
            );
            (after.0, no_swipes(pre.len()) + after.1)
        }),
    decreases pre.len(),
{
    let empty = TrackerState { window: Seq::<PointRecord>::empty(), cooldown_until: s.cooldown_until };
    if pre.len() == 0 {
        assert(pre + post =~= post);
        assert(s.window =~= empty.window);
        assert(s == empty);
        assert(no_swipes(0) + run_samples(empty, post, threshold).1 =~= run_samples(
            empty,
            post,
            threshold,
        ).1);
    } else {
        let step = observe_step(s, pre[0].0, pre[0].1, threshold);
        assert(step.0 == empty);
        assert((pre + post)[0] == pre[0]);
        assert((pre + post).drop_first() =~= pre.drop_first() + post);
        assert forall|i: int| 0 <= i < pre.drop_first().len() implies (
        #[trigger] pre.drop_first()[i]).1 < empty.cooldown_until by {
            assert(pre.drop_first()[i] == pre[i + 1]);
        }
        law_cooldown_spans_samples(empty, pre.drop_first(), post, threshold);
        let after = run_samples(empty, post, threshold);
        assert(seq![None::<Direction>] + (no_swipes((pre.len() - 1) as nat) + after.1) =~= no_swipes(
            pre.len(),
        ) + after.1);
    }
}

/// After a swipe reported at `now`, every sample seen before
/// `now + COOLDOWN_NS` reports nothing, and the samples after them run as
/// from an empty window: no earlier sample takes part in the next swipe.
pub proof fn law_swipe_cooldown_spans_samples(
    s: TrackerState,
    tip: Point,
    now: u64,
    threshold: i16,
    pre: Seq<(Point, u64)>,
    post: Seq<(Point, u64)>,
)
    requires
        now <= u64::MAX - COOLDOWN_NS,
        observe_step(s, tip, now, threshold).1 is Some,
        forall|i: int| 0 <= i < pre.len() ==> (#[trigger] pre[i]).1 < now + COOLDOWN_NS,
    ensures
        run_samples(observe_step(s, tip, now, threshold).0, pre + post, threshold) == ({
            let after = run_samples(
                TrackerState { window: Seq::empty(), cooldown_until: (now + COOLDOWN_NS) as u64 },
                post,
                threshold,
            );
            (after.0, no_swipes(pre.len()) + after.1)
        }),
{
    law_cooldown_spans_samples(observe_step(s, tip, now, threshold).0, pre, post, threshold);
}

/// Outside the cooldown, the window after a sample is every earlier sample
/// still at most `WINDOW_NS` old, in order, followed by the new sample,
/// unless that sample completes a swipe; and whenever the oldest of those
/// earlier samples and the new one lie more than `threshold` apart along an
/// axis, the swipe between them is reported.
pub proof fn law_window_keeps_every_recent_sample(s: TrackerState, tip: Point, now: u64, threshold: i16)
    requires
        now >= s.cooldown_until,
    ensures
        ({
            let kept = s.window.filter(
                |r: PointRecord| (if now >= r.time { now - r.time } else { 0 }) <= 300_000_000,
            );
            &&& observe_step(s, tip, now, threshold).1 is None ==> observe_step(
                s,
                tip,
                now,
                threshold,
            ).0.window == kept.push(PointRecord { point: tip, time: now })
            &&& (kept.len() > 0 && (abs(tip.x - kept[0].point.x) > threshold || abs(
                tip.y - kept[0].point.y,
            ) > threshold)) ==> {
                &&& observe_step(s, tip, now, threshold).1 is Some
                &&& observe_step(s, tip, now, threshold).1 == swipe(
                    kept[0].point,
                    tip,
                    threshold as int,
                )
            }
        }),
{
    let pred = |r: PointRecord| (if now >= r.time { now - r.time } else { 0 }) <= 300_000_000;
    assert(within_window(now) =~= pred);
    lemma_retained_shape(s.window, tip, now);
    let kept = s.window.filter(pred);
    let w = retained(s.window, tip, now);
    if kept.len() > 0 {
        assert(w[0] == kept[0]);
        assert(w.last().point == tip);
    }
}

} // verus!
