//! Adaptive bitrate control.
//!
//! Takes health samples and returns a bitrate, touching no sockets or pipelines.
//!
//! The algorithm is additive increase, multiplicative decrease: back off fast
//! when things go wrong, recover slowly when they are fine. Dropping quality must
//! be fast enough to clear a stall before the user notices, while raising it must
//! be slow enough not to oscillate between sharp and blurry.
//!
//! Points in time are nanoseconds since an arbitrary fixed origin.

use vstd::prelude::*;

verus! {

/// Bitrate range the controller may move within.
#[derive(Debug, Clone, Copy, PartialEq, Eq, Structural)]
pub struct BitrateBounds {
    pub min_kbps: u32,
    pub max_kbps: u32,
}

impl BitrateBounds {
    /// The floor does not lie above the ceiling.
    pub open spec fn ordered(self) -> bool {
        self.min_kbps <= self.max_kbps
    }

    pub open spec fn contains(self, kbps: u32) -> bool {
        self.min_kbps <= kbps <= self.max_kbps
    }

    /// The bitrate within the bounds that lies nearest to `kbps`.
    pub open spec fn nearest(self, kbps: int) -> int {
        if kbps < self.min_kbps {
            self.min_kbps as int
        } else if kbps > self.max_kbps {
            self.max_kbps as int
        } else {
            kbps
        }
    }

    /// Moves `kbps` into the bounds.
    pub fn clamp(self, kbps: u32) -> (clamped: u32)
        requires
            self.ordered(),
        ensures
            clamped == self.nearest(kbps as int),
            self.contains(clamped),
    {
        if kbps < self.min_kbps {
            self.min_kbps
        } else if kbps > self.max_kbps {
            self.max_kbps
        } else {
            kbps
        }
    }
}

impl Default for BitrateBounds {
    /// 6 Mbit/s still looks fine for text at 1332x800; 50 Mbit/s is well inside
    /// what USB 2.0 carries.
    fn default() -> (bounds: Self)
        ensures
            bounds.min_kbps == 6_000,
            bounds.max_kbps == 50_000,
    {
        BitrateBounds { min_kbps: 6_000, max_kbps: 50_000 }
    }
}

/// One observation of how the tablet is coping.
#[derive(Debug, Clone, Copy, PartialEq, Eq, Structural)]
pub struct HealthSample {
    /// Frames sitting in the tablet's decoder input queue.
    pub decode_queue_depth: u32,
    /// Frames dropped since the previous sample, host side and device side.
    pub dropped_delta: u64,
    /// Measured round trip over the control channel, in microseconds.
    pub rtt_us: u64,
}

/// Queue depth at or above which the tablet is considered to be struggling.
pub const QUEUE_DEPTH_BAD: u32 = 3;

/// Queue depth at or below which things are considered healthy.
pub const QUEUE_DEPTH_GOOD: u32 = 1;

/// Round trip, in microseconds, from which the link is congested regardless of
/// queue depth.
pub const RTT_BAD_US: u64 = 120_000;

/// Dropped frames per sampling window that are treated as noise rather than
/// congestion. One or two per window are merely not evidence of health.
pub const DROPS_TOLERATED: u64 = 2;

/// Consecutive bad samples before backing off.
pub const BAD_SAMPLES_BEFORE_DECREASE: u32 = 2;

/// Consecutive good samples before probing upwards.
pub const GOOD_SAMPLES_BEFORE_INCREASE: u32 = 10;

/// Additive increase step.
pub const INCREASE_STEP_KBPS: u32 = 1_000;

/// The bitrate never changes more often than this, whatever the samples say.
pub const MIN_CHANGE_INTERVAL_NS: u64 = 1_000_000_000;

impl HealthSample {
    /// Evidence of congestion.
    pub open spec fn is_bad(self) -> bool {
        ||| self.decode_queue_depth >= QUEUE_DEPTH_BAD
        ||| self.dropped_delta > DROPS_TOLERATED
        ||| self.rtt_us >= RTT_BAD_US
    }

    /// Evidence of health. A sample may be neither bad nor good.
    pub open spec fn is_good(self) -> bool {
        &&& self.decode_queue_depth <= QUEUE_DEPTH_GOOD
        &&& self.dropped_delta == 0
        &&& self.rtt_us < RTT_BAD_US
    }
}

/// What a controller knows, as a mathematical value.
pub struct ControllerModel {
    pub bounds: BitrateBounds,
    pub current_kbps: u32,
    /// Length of the run of bad samples that ends with the latest sample. Counting
    /// stops at `u32::MAX`.
    pub consecutive_bad: u32,
    /// The same for good samples.
    pub consecutive_good: u32,
    /// When the bitrate last changed.
    pub last_change: Option<u64>,
}

/// A run that is one sample longer.
pub open spec fn longer_run(run: u32) -> u32 {
    if run < u32::MAX {
        (run + 1) as u32
    } else {
        run
    }
}

impl ControllerModel {
    pub open spec fn wf(self) -> bool {
        &&& self.bounds.ordered()
        &&& self.bounds.contains(self.current_kbps)
    }

    /// The run lengths once `sample` has been counted.
    pub open spec fn counting(self, sample: HealthSample) -> ControllerModel {
        if sample.is_bad() {
            ControllerModel {
                consecutive_bad: longer_run(self.consecutive_bad),
                consecutive_good: 0,
                ..self
            }
        } else if sample.is_good() {
            ControllerModel {
                consecutive_bad: 0,
                consecutive_good: longer_run(self.consecutive_good),
                ..self
            }
        } else {
            ControllerModel { consecutive_bad: 0, consecutive_good: 0, ..self }
        }
    }

    /// Enough time has passed since the last change for another one. A clock that
    /// went backwards counts as no time at all.
    pub open spec fn may_change(self, now: u64) -> bool {
        match self.last_change {
            Some(t) => now - t >= MIN_CHANGE_INTERVAL_NS,
            None => true,
        }
    }

    /// Moves to the bitrate nearest to `target` that the bounds allow; staying put
    /// is not a change.
    pub open spec fn retargeted(self, target: int, now: u64) -> (ControllerModel, Option<u32>) {
        let kbps = self.bounds.nearest(target) as u32;
        if kbps == self.current_kbps {
            (self, None)
        } else {
            (
                ControllerModel { current_kbps: kbps, last_change: Some(now), ..self },
                Some(kbps),
            )
        }
    }

    /// The bitrate to back off to: three quarters of the present one, rounded down.
    pub open spec fn backed_off(self) -> int {
        self.current_kbps as int * 3 / 4
    }

    /// The controller after `sample` at time `now`, and the bitrate it changed to,
    /// if it changed.
    pub open spec fn observing(self, sample: HealthSample, now: u64) -> (
        ControllerModel,
        Option<u32>,
    ) {
        let counted = self.counting(sample);
        if !counted.may_change(now) {
            (counted, None)
        } else if counted.consecutive_bad >= BAD_SAMPLES_BEFORE_DECREASE {
            let rested = ControllerModel { consecutive_bad: 0, ..counted };
            rested.retargeted(rested.backed_off(), now)
        } else if counted.consecutive_good >= GOOD_SAMPLES_BEFORE_INCREASE {
            let rested = ControllerModel { consecutive_good: 0, ..counted };
            rested.retargeted(rested.current_kbps + INCREASE_STEP_KBPS, now)
        } else {
            (counted, None)
        }
    }

    /// The controller after a whole series of samples, each with its time.
    pub open spec fn observing_all(self, feed: Seq<(HealthSample, u64)>) -> ControllerModel
        decreases feed.len(),
    {
        if feed.len() == 0 {
            self
        } else {
            self.observing(feed.first().0, feed.first().1).0.observing_all(feed.drop_first())
        }
    }

    /// Every sample of `feed` comes late enough after the last change, and after
    /// the sample before it, for a change to be allowed.
    pub open spec fn well_spaced(self, feed: Seq<(HealthSample, u64)>) -> bool {
        &&& forall|i: int|
            0 <= i < feed.len() ==> self.may_change((#[trigger] feed[i]).1)
        &&& forall|i: int, j: int|
            0 <= i < j < feed.len() ==> (#[trigger] feed[j]).1 - (#[trigger] feed[i]).1
                >= MIN_CHANGE_INTERVAL_NS
    }
}

/// Decides the bitrate from a stream of health samples.
#[derive(Debug)]
pub struct AdaptiveController {
    bounds: BitrateBounds,
    current_kbps: u32,
    consecutive_bad: u32,
    consecutive_good: u32,
    last_change: Option<u64>,
}

impl View for AdaptiveController {
    type V = ControllerModel;

    closed spec fn view(&self) -> ControllerModel {
        ControllerModel {
            bounds: self.bounds,
            current_kbps: self.current_kbps,
            consecutive_bad: self.consecutive_bad,
            consecutive_good: self.consecutive_good,
            last_change: self.last_change,
        }
    }
}

impl AdaptiveController {
    /// The current bitrate lies within ordered bounds.
    pub open spec fn wf(&self) -> bool {
        self@.wf()
    }

    pub fn new(bounds: BitrateBounds, start_kbps: u32) -> (controller: Self)
        requires
            bounds.ordered(),
        ensures
            controller.wf(),
            controller@ == (ControllerModel {
                bounds,
                current_kbps: bounds.nearest(start_kbps as int) as u32,
                consecutive_bad: 0,
                consecutive_good: 0,
                last_change: None,
            }),
    {
        AdaptiveController {
            bounds,
            current_kbps: bounds.clamp(start_kbps),
            consecutive_bad: 0,
            consecutive_good: 0,
            last_change: None,
        }
    }

    pub fn current_kbps(&self) -> (kbps: u32)
        ensures
            kbps == self@.current_kbps,
    {
        self.current_kbps
    }

    pub fn bounds(&self) -> (bounds: BitrateBounds)
        ensures
            bounds == self@.bounds,
    {
        self.bounds
    }

    /// Replaces the bounds, e.g. because the user moved the quality slider.
    pub fn set_bounds(&mut self, bounds: BitrateBounds)
        requires
            bounds.ordered(),
        ensures
            final(self).wf(),
            final(self)@ == (ControllerModel {
                bounds,
                current_kbps: bounds.nearest(old(self)@.current_kbps as int) as u32,
                ..old(self)@
            }),
    {
        self.bounds = bounds;
        self.current_kbps = bounds.clamp(self.current_kbps);
    }

    /// Feeds in one sample. Returns the new bitrate only when it changed, so the
    /// caller can avoid touching the encoder unnecessarily.
    pub fn observe(&mut self, sample: HealthSample, now: u64) -> (changed: Option<u32>)
        requires
            old(self).wf(),
        ensures
            final(self).wf(),
            (final(self)@, changed) == old(self)@.observing(sample, now),
    {
        let unhealthy = sample.decode_queue_depth >= QUEUE_DEPTH_BAD || sample.dropped_delta
            > DROPS_TOLERATED || sample.rtt_us >= RTT_BAD_US;
        let healthy = sample.decode_queue_depth <= QUEUE_DEPTH_GOOD && sample.dropped_delta == 0
            && sample.rtt_us < RTT_BAD_US;

        if unhealthy {
            self.consecutive_bad = self.consecutive_bad.saturating_add(1);
            self.consecutive_good = 0;
        } else if healthy {
            self.consecutive_good = self.consecutive_good.saturating_add(1);
            self.consecutive_bad = 0;
        } else {
            // In between: hold steady rather than drifting on ambiguous evidence.
            self.consecutive_bad = 0;
            self.consecutive_good = 0;
        }
        assert(self@ == old(self)@.counting(sample));

        if !self.change_allowed(now) {
            return None;
        }
        if self.consecutive_bad >= BAD_SAMPLES_BEFORE_DECREASE {
            let target: u32 = (self.current_kbps as u64 * 3 / 4) as u32;
            self.reset_bad();
            return self.apply(target, now);
        }
        if self.consecutive_good >= GOOD_SAMPLES_BEFORE_INCREASE {
            let target: u32 = self.current_kbps.saturating_add(INCREASE_STEP_KBPS);
            self.reset_good();
            return self.apply(target, now);
        }
        None
    }

    fn change_allowed(&self, now: u64) -> (allowed: bool)
        ensures
            allowed == self@.may_change(now),
    {
        match self.last_change {
            Some(t) => now.saturating_sub(t) >= MIN_CHANGE_INTERVAL_NS,
            None => true,
        }
    }

    fn reset_bad(&mut self)
        ensures
            final(self)@ == (ControllerModel { consecutive_bad: 0, ..old(self)@ }),
    {
        self.consecutive_bad = 0;
    }

    fn reset_good(&mut self)
        ensures
            final(self)@ == (ControllerModel { consecutive_good: 0, ..old(self)@ }),
    {
        self.consecutive_good = 0;
    }

    fn apply(&mut self, target: u32, now: u64) -> (changed: Option<u32>)
        requires
            old(self).wf(),
        ensures
            final(self).wf(),
            (final(self)@, changed) == old(self)@.retargeted(target as int, now),
    {
        let clamped: u32 = self.bounds.clamp(target);
        if clamped == self.current_kbps {
            // Already at the rail.
            return None;
        }
        self.current_kbps = clamped;
        self.last_change = Some(now);
        Some(clamped)
    }
}

/// Whatever the samples, the bitrate never leaves the configured bounds, and the
/// bounds stay as they were configured.
pub proof fn law_bitrate_never_leaves_the_bounds(
    model: ControllerModel,
    feed: Seq<(HealthSample, u64)>,
)
    requires
        model.wf(),
    ensures
        model.observing_all(feed).wf(),
        model.observing_all(feed).bounds == model.bounds,
    decreases feed.len(),
{
    if feed.len() > 0 {
        let next = model.observing(feed.first().0, feed.first().1).0;
        law_bitrate_never_leaves_the_bounds(next, feed.drop_first());
    }
}

/// A bitrate is reported exactly when it changed, and then it is the current one.
pub proof fn law_only_changes_are_reported(model: ControllerModel, sample: HealthSample, now: u64)
    ensures
        ({
            let (next, changed) = model.observing(sample, now);
            &&& changed is Some <==> next.current_kbps != model.current_kbps
            &&& changed matches Some(kbps) ==> kbps == next.current_kbps
        }),
{
}

/// One hiccup is not a trend: a bad sample that follows no other bad sample changes
/// nothing.
pub proof fn law_a_single_bad_sample_is_ignored(
    model: ControllerModel,
    sample: HealthSample,
    now: u64,
)
    requires
        model.consecutive_bad == 0,
        sample.is_bad(),
    ensures
        model.observing(sample, now).1 is None,
{
}

/// A sample that is neither bad nor good, such as one with a tolerated number of
/// dropped frames, never moves the bitrate and ends every run.
pub proof fn law_ambiguous_samples_hold_steady(
    model: ControllerModel,
    sample: HealthSample,
    now: u64,
)
    requires
        !sample.is_bad(),
        !sample.is_good(),
    ensures
        model.observing(sample, now) == (
            ControllerModel { consecutive_bad: 0, consecutive_good: 0, ..model },
            None::<u32>,
        ),
{
}

/// The bitrate falls only on the second bad sample in a row or later, and to no
/// less than three quarters; it rises only on the tenth good sample in a row or
/// later, and by no more than one step.
pub proof fn law_changes_need_sustained_evidence(
    model: ControllerModel,
    sample: HealthSample,
    now: u64,
)
    requires
        model.wf(),
    ensures
        ({
            let next = model.observing(sample, now).0;
            &&& next.current_kbps < model.current_kbps ==> {
                &&& sample.is_bad()
                &&& model.consecutive_bad + 1 >= BAD_SAMPLES_BEFORE_DECREASE
                &&& next.current_kbps >= model.backed_off()
            }
            &&& next.current_kbps > model.current_kbps ==> {
                &&& sample.is_good()
                &&& model.consecutive_good + 1 >= GOOD_SAMPLES_BEFORE_INCREASE
                &&& next.current_kbps <= model.current_kbps + INCREASE_STEP_KBPS
            }
        }),
{
}

/// Backing off needs fewer samples than recovering.
pub proof fn law_backing_off_is_quicker_than_recovering()
    ensures
        BAD_SAMPLES_BEFORE_DECREASE < GOOD_SAMPLES_BEFORE_INCREASE,
{
}

/// After a change nothing changes again before the minimum interval has passed,
/// whatever samples arrive in between.
pub proof fn law_changes_keep_their_distance(
    model: ControllerModel,
    feed: Seq<(HealthSample, u64)>,
    changed_at: u64,
)
    requires
        model.last_change == Some(changed_at),
        forall|i: int|
            0 <= i < feed.len() ==> (#[trigger] feed[i]).1 < changed_at + MIN_CHANGE_INTERVAL_NS,
    ensures
        model.observing_all(feed).current_kbps == model.current_kbps,
        model.observing_all(feed).last_change == model.last_change,
    decreases feed.len(),
{
    if feed.len() > 0 {
        assert(feed[0].1 < changed_at + MIN_CHANGE_INTERVAL_NS);
        let next = model.observing(feed.first().0, feed.first().1).0;
        assert forall|i: int| 0 <= i < feed.drop_first().len() implies (
        #[trigger] feed.drop_first()[i]).1 < changed_at + MIN_CHANGE_INTERVAL_NS by {
            assert(feed.drop_first()[i] == feed[i + 1]);
        }
        law_changes_keep_their_distance(next, feed.drop_first(), changed_at);
    }
}

/// Feeding one well-spaced sample leaves the rest well spaced.
proof fn lemma_rest_is_well_spaced(model: ControllerModel, feed: Seq<(HealthSample, u64)>)
    requires
        feed.len() > 0,
        model.well_spaced(feed),
    ensures
        model.observing(feed.first().0, feed.first().1).0.well_spaced(feed.drop_first()),
{
    let rest = feed.drop_first();
    let next = model.observing(feed.first().0, feed.first().1).0;
    assert forall|i: int| 0 <= i < rest.len() implies next.may_change((#[trigger] rest[i]).1) by {
        assert(rest[i] == feed[i + 1]);
        assert(model.may_change(feed[i + 1].1));
        assert(feed[i + 1].1 - feed[0].1 >= MIN_CHANGE_INTERVAL_NS);
    }
    assert forall|i: int, j: int| 0 <= i < j < rest.len() implies (#[trigger] rest[j]).1 - (
    #[trigger] rest[i]).1 >= MIN_CHANGE_INTERVAL_NS by {
        assert(rest[i] == feed[i + 1] && rest[j] == feed[j + 1]);
    }
}

/// How often a bitrate is cut to three quarters before it lies at or below the floor.
pub open spec fn cuts_to(floor: nat, kbps: nat) -> nat
    decreases kbps,
{
    if kbps <= floor {
        0
    } else {
        1 + cuts_to(floor, kbps * 3 / 4)
    }
}

/// Sustained trouble ends at the floor: two bad samples for each cut on the way, spaced
/// widely enough for changes to be allowed, bring the bitrate to the minimum.
pub proof fn law_sustained_trouble_reaches_the_floor(
    model: ControllerModel,
    feed: Seq<(HealthSample, u64)>,
)
    requires
        model.wf(),
        model.well_spaced(feed),
        forall|i: int| 0 <= i < feed.len() ==> (#[trigger] feed[i]).0.is_bad(),
        feed.len() >= 2 * cuts_to(model.bounds.min_kbps as nat, model.current_kbps as nat),
    ensures
        model.observing_all(feed).current_kbps == model.bounds.min_kbps,
{
    lemma_trouble_lowers(model, feed);
}

proof fn lemma_trouble_lowers(model: ControllerModel, feed: Seq<(HealthSample, u64)>)
    requires
        model.wf(),
        model.well_spaced(feed),
        forall|i: int| 0 <= i < feed.len() ==> (#[trigger] feed[i]).0.is_bad(),
        feed.len() >= 2 * cuts_to(model.bounds.min_kbps as nat, model.current_kbps as nat) - (
        if model.consecutive_bad > 0 {
            1int
        } else {
            0
        }),
    ensures
        model.observing_all(feed).current_kbps == model.bounds.min_kbps,
    decreases feed.len(),
{
    if feed.len() > 0 {
        assert(feed[0].0.is_bad());
        assert(model.may_change(feed[0].1));
        lemma_rest_is_well_spaced(model, feed);
        assert forall|i: int| 0 <= i < feed.drop_first().len() implies (
        #[trigger] feed.drop_first()[i]).0.is_bad() by {
            assert(feed.drop_first()[i] == feed[i + 1]);
        }
        lemma_trouble_lowers(model.observing(feed[0].0, feed[0].1).0, feed.drop_first());
    }
}

/// How many steps up it takes to cover `kbps`.
pub open spec fn steps_over(kbps: int) -> int {
    (kbps + INCREASE_STEP_KBPS - 1) / INCREASE_STEP_KBPS as int
}

/// Sustained health ends at the ceiling: ten good samples for each step on the way,
/// spaced widely enough for changes to be allowed, bring the bitrate to the maximum.
pub proof fn law_sustained_health_reaches_the_ceiling(
    model: ControllerModel,
    feed: Seq<(HealthSample, u64)>,
)
    requires
        model.wf(),
        model.well_spaced(feed),
        forall|i: int| 0 <= i < feed.len() ==> (#[trigger] feed[i]).0.is_good(),
        feed.len() >= 10 * steps_over(model.bounds.max_kbps - model.current_kbps),
    ensures
        model.observing_all(feed).current_kbps == model.bounds.max_kbps,
{
    lemma_health_raises(model, feed);
}

proof fn lemma_health_raises(model: ControllerModel, feed: Seq<(HealthSample, u64)>)
    requires
        model.wf(),
        model.well_spaced(feed),
        forall|i: int| 0 <= i < feed.len() ==> (#[trigger] feed[i]).0.is_good(),
        feed.len() >= 10 * steps_over(model.bounds.max_kbps - model.current_kbps) - (
        if model.consecutive_good < 9 {
            model.consecutive_good as int
        } else {
            9
        }),
    ensures
        model.observing_all(feed).current_kbps == model.bounds.max_kbps,
    decreases feed.len(),
{
    if feed.len() > 0 {
        assert(feed[0].0.is_good());
        assert(model.may_change(feed[0].1));
        lemma_rest_is_well_spaced(model, feed);
        assert forall|i: int| 0 <= i < feed.drop_first().len() implies (
        #[trigger] feed.drop_first()[i]).0.is_good() by {
            assert(feed.drop_first()[i] == feed[i + 1]);
        }
        lemma_health_raises(model.observing(feed[0].0, feed[0].1).0, feed.drop_first());
    }
}

/// Nothing waits, nothing was dropped, and the link answers.
pub open spec fn calm(sample: HealthSample) -> bool {
    &&& sample.decode_queue_depth <= 1
    &&& sample.dropped_delta == 0
    &&& sample.rtt_us < 120_000
}

/// Frames pile up, more than two were dropped, or the link is slow.
pub open spec fn strained(sample: HealthSample) -> bool {
    ||| sample.decode_queue_depth >= 3
    ||| sample.dropped_delta >= 3
    ||| sample.rtt_us >= 120_000
}

impl ControllerModel {
    /// No sample has been counted yet.
    pub open spec fn unbiased(self) -> bool {
        self.consecutive_bad == 0 && self.consecutive_good == 0
    }
}

/// The last sample of a series is observed last.
proof fn lemma_observing_last(model: ControllerModel, feed: Seq<(HealthSample, u64)>)
    requires
        feed.len() > 0,
    ensures
        model.observing_all(feed) == model.observing_all(feed.drop_last()).observing(
            feed.last().0,
            feed.last().1,
        ).0,
    decreases feed.len(),
{
    reveal_with_fuel(ControllerModel::observing_all, 2);
    if feed.len() > 1 {
        let next = model.observing(feed.first().0, feed.first().1).0;
        lemma_observing_last(next, feed.drop_first());
        assert(feed.drop_first().drop_last() =~= feed.drop_last().drop_first());
    } else {
        assert(feed.drop_last() =~= Seq::empty());
        assert(feed.drop_first() =~= Seq::empty());
    }
}

/// The counters are no longer than the runs of samples at the end of the series.
proof fn lemma_runs_are_in_the_feed(model: ControllerModel, feed: Seq<(HealthSample, u64)>)
    requires
        model.unbiased(),
    ensures
        ({
            let after = model.observing_all(feed);
            &&& after.consecutive_good <= feed.len()
            &&& after.consecutive_bad <= feed.len()
            &&& forall|i: int|
                feed.len() - after.consecutive_good <= i < feed.len() ==> calm(
                    (#[trigger] feed[i]).0,
                )
            &&& forall|i: int|
                feed.len() - after.consecutive_bad <= i < feed.len() ==> strained(
                    (#[trigger] feed[i]).0,
                )
        }),
    decreases feed.len(),
{
    if feed.len() > 0 {
        let before = feed.drop_last();
        lemma_observing_last(model, feed);
        lemma_runs_are_in_the_feed(model, before);
        let earlier = model.observing_all(before);
        let after = model.observing_all(feed);
        assert(after == earlier.observing(feed.last().0, feed.last().1).0);
        assert forall|i: int|
            feed.len() - after.consecutive_good <= i < feed.len() implies calm(
            (#[trigger] feed[i]).0,
        ) by {
            if i < before.len() {
                assert(before[i] == feed[i]);
            }
        }
        assert forall|i: int|
            feed.len() - after.consecutive_bad <= i < feed.len() implies strained(
            (#[trigger] feed[i]).0,
        ) by {
            if i < before.len() {
                assert(before[i] == feed[i]);
            }
        }
    }
}

/// Where the bitrate rises at a sample, that sample and the nine before it were all calm,
/// and it rises by one step of 1000 kbit/s or to the ceiling.
pub proof fn law_a_rise_takes_ten_calm_samples(
    model: ControllerModel,
    feed: Seq<(HealthSample, u64)>,
)
    requires
        model.unbiased(),
        model.wf(),
        feed.len() > 0,
        model.observing_all(feed).current_kbps > model.observing_all(
            feed.drop_last(),
        ).current_kbps,
    ensures
        feed.len() >= 10,
        forall|i: int| feed.len() - 10 <= i < feed.len() ==> calm((#[trigger] feed[i]).0),
        ({
            let before = model.observing_all(feed.drop_last()).current_kbps;
            let after = model.observing_all(feed).current_kbps;
            after == before + 1000 || (after == model.bounds.max_kbps && after < before + 1000)
        }),
{
    let before = feed.drop_last();
    lemma_observing_last(model, feed);
    lemma_runs_are_in_the_feed(model, before);
    law_bitrate_never_leaves_the_bounds(model, before);
    let earlier = model.observing_all(before);
    assert(calm(feed.last().0));
    assert forall|i: int| feed.len() - 10 <= i < feed.len() implies calm((#[trigger] feed[i]).0) by {
        if i < before.len() {
            assert(before[i] == feed[i]);
        }
    }
}

/// Where the bitrate falls at a sample, that sample and the one before it were both
/// strained, and it falls to three quarters, rounded down, or to the floor.
pub proof fn law_a_fall_takes_two_strained_samples(
    model: ControllerModel,
    feed: Seq<(HealthSample, u64)>,
)
    requires
        model.unbiased(),
        model.wf(),
        feed.len() > 0,
        model.observing_all(feed).current_kbps < model.observing_all(
            feed.drop_last(),
        ).current_kbps,
    ensures
        feed.len() >= 2,
        strained(feed[feed.len() - 1].0),
        strained(feed[feed.len() - 2].0),
        ({
            let before = model.observing_all(feed.drop_last()).current_kbps;
            let after = model.observing_all(feed).current_kbps;
            ||| 4 * after <= 3 * before < 4 * (after + 1)
            ||| after == model.bounds.min_kbps && 4 * after > 3 * before
        }),
{
    let before = feed.drop_last();
    lemma_observing_last(model, feed);
    lemma_runs_are_in_the_feed(model, before);
    law_bitrate_never_leaves_the_bounds(model, before);
    assert(before.len() >= 1 && before[before.len() - 1] == feed[feed.len() - 2]);
}

/// A strained sample ends a run of calm ones, a calm one a run of strained ones, and any
/// other sample ends both.
pub proof fn law_a_sample_ends_the_other_run(
    model: ControllerModel,
    sample: HealthSample,
    now: u64,
)
    ensures
        !calm(sample) ==> model.observing(sample, now).0.consecutive_good == 0,
        !strained(sample) ==> model.observing(sample, now).0.consecutive_bad == 0,
{
}

/// A change comes a second or more after the last one, and is the last one from then on.
pub proof fn law_changes_are_a_second_apart(model: ControllerModel, sample: HealthSample, now: u64)
    ensures
        ({
            let next = model.observing(sample, now).0;
            &&& next.current_kbps != model.current_kbps ==> next.last_change == Some(now)
            &&& next.current_kbps == model.current_kbps ==> next.last_change == model.last_change
            &&& next.current_kbps != model.current_kbps && model.last_change is Some ==> now
                - model.last_change->0 >= 1_000_000_000
        }),
{
}

/// The second strained sample in a row lowers the bitrate to three quarters, as far as the
/// floor allows, once a second has passed since the last change.
pub proof fn law_two_strained_samples_lower(
    model: ControllerModel,
    first: (HealthSample, u64),
    second: (HealthSample, u64),
)
    requires
        model.wf(),
        model.unbiased(),
        strained(first.0),
        strained(second.0),
        model.last_change is Some ==> second.1 - model.last_change->0 >= 1_000_000_000,
    ensures
        ({
            let after = model.observing(first.0, first.1).0.observing(second.0, second.1).0;
            let target = model.current_kbps * 3 / 4;
            &&& target >= model.bounds.min_kbps ==> after.current_kbps == target
            &&& target < model.bounds.min_kbps ==> after.current_kbps == model.bounds.min_kbps
            &&& after.bounds == model.bounds
            &&& after.unbiased()
        }),
{
}

/// The tenth calm sample in a row raises the bitrate by 1000 kbit/s, as far as the ceiling
/// allows, once a second has passed since the last change; those before it do not.
pub proof fn law_ten_calm_samples_raise(model: ControllerModel, feed: Seq<(HealthSample, u64)>)
    requires
        model.wf(),
        model.unbiased(),
        feed.len() == 10,
        forall|i: int| 0 <= i < 10 ==> calm((#[trigger] feed[i]).0),
        model.last_change is Some ==> feed[9].1 - model.last_change->0 >= 1_000_000_000,
    ensures
        model.observing_all(feed.take(9)).current_kbps == model.current_kbps,
        ({
            let after = model.observing_all(feed);
            let target = model.current_kbps + 1000;
            &&& target <= model.bounds.max_kbps ==> after.current_kbps == target
            &&& target > model.bounds.max_kbps ==> after.current_kbps == model.bounds.max_kbps
            &&& after.bounds == model.bounds
            &&& after.unbiased()
        }),
{
    lemma_calm_samples_are_counted(model, feed.take(9));
    lemma_observing_last(model, feed);
    assert(feed.drop_last() =~= feed.take(9));
    assert(calm(feed[9].0));
}

proof fn lemma_calm_samples_are_counted(model: ControllerModel, feed: Seq<(HealthSample, u64)>)
    requires
        model.wf(),
        model.unbiased(),
        feed.len() < 10,
        forall|i: int| 0 <= i < feed.len() ==> calm((#[trigger] feed[i]).0),
    ensures
        model.observing_all(feed) == (ControllerModel {
            consecutive_good: feed.len() as u32,
            ..model
        }),
    decreases feed.len(),
{
    if feed.len() > 0 {
        let before = feed.drop_last();
        assert forall|i: int| 0 <= i < before.len() implies calm((#[trigger] before[i]).0) by {
            assert(before[i] == feed[i]);
        }
        lemma_calm_samples_are_counted(model, before);
        lemma_observing_last(model, feed);
        assert(calm(feed[feed.len() - 1].0));
    }
}

/// A bitrate within the bounds stays as it is; one outside goes to the bound it is beyond.
pub proof fn law_bounds_move_what_lies_outside(bounds: BitrateBounds, kbps: int)
    requires
        bounds.min_kbps <= bounds.max_kbps,
    ensures
        bounds.min_kbps <= bounds.nearest(kbps) <= bounds.max_kbps,
        bounds.min_kbps <= kbps <= bounds.max_kbps ==> bounds.nearest(kbps) == kbps,
        kbps <= bounds.min_kbps ==> bounds.nearest(kbps) == bounds.min_kbps,
        kbps >= bounds.max_kbps ==> bounds.nearest(kbps) == bounds.max_kbps,
{
}

/// A change starts both counts anew, so that the next one needs as many samples again.
pub proof fn law_a_change_starts_the_counts_anew(
    model: ControllerModel,
    sample: HealthSample,
    now: u64,
)
    requires
        model.observing(sample, now).0.current_kbps != model.current_kbps,
    ensures
        model.observing(sample, now).0.unbiased(),
{
}

/// Until a second has passed since the last change a sample is counted and changes
/// nothing; what was counted by then is not lost.
pub proof fn law_samples_count_while_a_change_has_to_wait(
    model: ControllerModel,
    sample: HealthSample,
    now: u64,
)
    requires
        model.last_change is Some,
        now - model.last_change->0 < 1_000_000_000,
    ensures
        ({
            let next = model.observing(sample, now).0;
            &&& model.observing(sample, now).1 is None
            &&& next.current_kbps == model.current_kbps
            &&& next.bounds == model.bounds
            &&& next.last_change == model.last_change
            &&& calm(sample) && model.consecutive_good < u32::MAX ==> next.consecutive_good
                == model.consecutive_good + 1
            &&& strained(sample) && model.consecutive_bad < u32::MAX ==> next.consecutive_bad
                == model.consecutive_bad + 1
        }),
{
}

} // verus!
