//! Frame pacing: how far apart frames pass a stage of the pipeline.

use vstd::prelude::*;

verus! {

/// Visible hitch territory at 60 fps, in microseconds: a missed frame plus a little
/// jitter.
pub const GAP_WARN_US: u64 = 50_000;

/// The larger of the two.
pub open spec fn larger(a: u64, b: u64) -> u64 {
    if a > b {
        a
    } else {
        b
    }
}

/// Raises `slot` to `value`, where that is higher.
pub fn fetch_max(slot: &mut u64, value: u64)
    ensures
        *final(slot) == larger(value, *old(slot)),
{
    if value > *slot {
        *slot = value;
    }
}

/// The pace of one stage.
#[derive(Debug)]
pub struct StagePace {
    name: &'static str,
    last_ns: u64,
    max_gap_us: u64,
    frames: u64,
    gaps: u64,
}

pub struct PaceModel {
    pub name: Seq<char>,
    /// When the last frame passed; 0 where none has.
    pub last_ns: u64,
    pub max_gap_us: u64,
    pub frames: u64,
    pub gaps: u64,
}

impl View for StagePace {
    type V = PaceModel;

    closed spec fn view(&self) -> PaceModel {
        PaceModel {
            name: self.name@,
            last_ns: self.last_ns,
            max_gap_us: self.max_gap_us,
            frames: self.frames,
            gaps: self.gaps,
        }
    }
}

impl PaceModel {
    /// How long ago the last frame passed, in microseconds, where one has.
    pub open spec fn gap(self, now: u64) -> Option<u64> {
        if self.last_ns == 0 {
            None
        } else if now < self.last_ns {
            Some(0)
        } else {
            Some(((now - self.last_ns) / 1000) as u64)
        }
    }

    /// Once a frame has passed. Counters wrap around.
    pub open spec fn observed(self, now: u64) -> PaceModel {
        let frames = self.frames.wrapping_add(1);
        match self.gap(now) {
            None => PaceModel { last_ns: now, frames, ..self },
            Some(gap) => PaceModel {
                last_ns: now,
                frames,
                max_gap_us: larger(gap, self.max_gap_us),
                gaps: if gap >= GAP_WARN_US {
                    self.gaps.wrapping_add(1)
                } else {
                    self.gaps
                },
                ..self
            },
        }
    }

    /// Once the counters have been read.
    pub open spec fn taken(self) -> PaceModel {
        PaceModel { frames: 0, gaps: 0, max_gap_us: 0, ..self }
    }
}

impl StagePace {
    pub fn new(name: &'static str) -> (pace: StagePace)
        ensures
            pace@ == (PaceModel { name: name@, last_ns: 0, max_gap_us: 0, frames: 0, gaps: 0 }),
    {
        StagePace { name, last_ns: 0, max_gap_us: 0, frames: 0, gaps: 0 }
    }

    pub fn name(&self) -> (name: &'static str)
        ensures
            name@ == self@.name,
    {
        self.name
    }

    /// Notes that a frame passes at `now`, in nanoseconds since a fixed point. A gap
    /// that is worth a warning is returned, in microseconds.
    pub fn observe(&mut self, now: u64) -> (warn: Option<u64>)
        ensures
            final(self)@ == old(self)@.observed(now),
            warn == match old(self)@.gap(now) {
                Some(gap) => if gap >= GAP_WARN_US {
                    Some(gap)
                } else {
                    None
                },
                None => None,
            },
            warn is Some <==> old(self)@.gap(now) is Some && old(self)@.gap(now)->0 >= 50_000,
    {
        let last: u64 = self.last_ns;
        self.last_ns = now;
        self.frames = self.frames.wrapping_add(1);
        if last == 0 {
            return None;
        }
        let gap: u64 = now.saturating_sub(last) / 1000;
        fetch_max(&mut self.max_gap_us, gap);
        if gap >= GAP_WARN_US {
            self.gaps = self.gaps.wrapping_add(1);
            Some(gap)
        } else {
            None
        }
    }

    /// `(frames, gaps, max_gap_us)` since the previous take.
    pub fn take(&mut self) -> (window: (u64, u64, u64))
        ensures
            window == (old(self)@.frames, old(self)@.gaps, old(self)@.max_gap_us),
            final(self)@ == old(self)@.taken(),
    {
        let window = (self.frames, self.gaps, self.max_gap_us);
        self.frames = 0;
        self.gaps = 0;
        self.max_gap_us = 0;
        window
    }
}

impl PaceModel {
    /// After frames at all of these times.
    pub open spec fn observed_all(self, times: Seq<u64>) -> PaceModel
        decreases times.len(),
    {
        if times.len() == 0 {
            self
        } else {
            self.observed_all(times.drop_last()).observed(times.last())
        }
    }
}

/// A window counts the frames that passed since it was opened, holds the widest gap,
/// and counts a gap for a warning only.
pub proof fn law_a_window_sums_up_its_frames(pace: PaceModel, times: Seq<u64>)
    requires
        times.len() <= u64::MAX,
        forall|i: int| 0 <= i < times.len() ==> times[i] > 0,
    ensures
        ({
            let end = pace.taken().observed_all(times);
            &&& end.frames == times.len()
            &&& end.gaps <= times.len()
            &&& end.gaps > 0 <==> end.max_gap_us >= GAP_WARN_US
            &&& forall|i: int|
                0 < i < times.len() && times[i] >= times[i - 1] ==> (#[trigger] times[i] - times[i
                    - 1]) / 1000 <= end.max_gap_us
        }),
    decreases times.len(),
{
    if times.len() > 0 {
        let before = times.drop_last();
        assert forall|i: int| 0 <= i < before.len() implies before[i] > 0 by {
            assert(times[i] > 0);
        }
        law_a_window_sums_up_its_frames(pace, before);
        let mid = pace.taken().observed_all(before);
        if before.len() > 0 {
            assert(mid.last_ns == before.last());
        }
        assert forall|i: int| 0 < i < times.len() && times[i] >= times[i - 1] implies (
        #[trigger] times[i] - times[i - 1]) / 1000 <= mid.observed(times.last()).max_gap_us by {
            if i < before.len() {
                assert(before[i] == times[i]);
                assert(before[i - 1] == times[i - 1]);
            }
        }
    }
}

/// The gap is the time since the last frame in whole microseconds; from 50 milliseconds on
/// it counts. A first frame has none, and a clock that went back shows none.
pub proof fn law_a_gap_is_the_time_between_frames(pace: PaceModel, now: u64)
    ensures
        pace.last_ns == 0 ==> pace.gap(now) is None,
        pace.last_ns > 0 ==> pace.gap(now) is Some,
        pace.last_ns > 0 && now >= pace.last_ns ==> 1000 * pace.gap(now)->0 <= now - pace.last_ns
            < 1000 * (pace.gap(now)->0 + 1),
        pace.last_ns > 0 && now < pace.last_ns ==> pace.gap(now) == Some(0u64),
        ({
            let after = pace.observed(now);
            &&& after.last_ns == now
            &&& after.name == pace.name
            &&& after.frames == pace.frames.wrapping_add(1)
            &&& (pace.gap(now) is Some && pace.gap(now)->0 >= 50_000 ==> after.gaps
                == pace.gaps.wrapping_add(1))
            &&& (pace.gap(now) is None || pace.gap(now)->0 < 50_000 ==> after.gaps == pace.gaps)
            &&& after.max_gap_us >= pace.max_gap_us
            &&& (pace.gap(now) is Some ==> after.max_gap_us >= pace.gap(now)->0)
            &&& (after.max_gap_us == pace.max_gap_us || pace.gap(now) == Some(after.max_gap_us))
        }),
{
}

/// Reading a window empties its counters and nothing else, so that the gap after it is
/// measured from the last frame before it.
pub proof fn law_reading_a_window_keeps_the_last_frame(pace: PaceModel, now: u64)
    ensures
        pace.taken().frames == 0,
        pace.taken().gaps == 0,
        pace.taken().max_gap_us == 0,
        pace.taken().name == pace.name,
        pace.taken().gap(now) == pace.gap(now),
{
}

} // verus!
