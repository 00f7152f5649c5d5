//! Frames per second over a short sliding window.

use vstd::prelude::*;

verus! {

/// How far back the window reaches, in nanoseconds.
pub const FPS_WINDOW_NS: u64 = 2_000_000_000;

/// Tracks frames-per-second over a short sliding window.
pub struct FpsCounter {
    ticks: Vec<u64>,
}

/// So many frame intervals in so many nanoseconds.
#[derive(Debug, Clone, Copy, PartialEq, Eq, Structural)]
pub struct FrameRate {
    pub intervals: u64,
    pub span_ns: u64,
}

impl View for FpsCounter {
    type V = Seq<u64>;

    closed spec fn view(&self) -> Seq<u64> {
        self.ticks@
    }
}

/// The tick is still in the window that ends at `now`.
pub open spec fn recent(now: u64) -> spec_fn(u64) -> bool {
    |t: u64| t + FPS_WINDOW_NS >= now
}

/// The ticks in the window once there was one at `now`.
pub open spec fn ticked(ticks: Seq<u64>, now: u64) -> Seq<u64> {
    ticks.push(now).filter(recent(now))
}

/// The rate that the ticks show, where they show one.
pub open spec fn rate(ticks: Seq<u64>) -> Option<FrameRate> {
    if ticks.len() < 2 || ticks.last() <= ticks.first() {
        None
    } else {
        Some(
            FrameRate {
                intervals: (ticks.len() - 1) as u64,
                span_ns: (ticks.last() - ticks.first()) as u64,
            },
        )
    }
}

impl FpsCounter {
    pub fn new() -> (counter: FpsCounter)
        ensures
            counter@ == Seq::<u64>::empty(),
    {
        FpsCounter { ticks: Vec::new() }
    }

    /// Notes a frame at `now`, in nanoseconds since a fixed point, and forgets those
    /// that have left the window.
    pub fn tick(&mut self, now: u64)
        ensures
            final(self)@ == ticked(old(self)@, now),
    {
        let cutoff: u64 = now.saturating_sub(FPS_WINDOW_NS);
        self.ticks.push(now);
        let ghost all = self.ticks@;
        let mut kept: Vec<u64> = Vec::new();
        let mut i: usize = 0;
        assert(all.take(0) =~= Seq::empty());
        assert(all.take(0).filter(recent(now)) =~= Seq::empty()) by {
            reveal(Seq::filter);
        }
        while i < self.ticks.len()
            invariant
                i <= self.ticks@.len(),
                all == self.ticks@,
                kept@ == all.take(i as int).filter(recent(now)),
                cutoff == if now >= FPS_WINDOW_NS {
                    now - FPS_WINDOW_NS
                } else {
                    0
                },
            decreases self.ticks@.len() - i,
        {
            let t: u64 = self.ticks[i];
            assert(all.take(i + 1) =~= all.take(i as int).push(t));
            assert(all.take(i + 1).drop_last() =~= all.take(i as int));
            proof {
                reveal(Seq::filter);
            }
            if t >= cutoff {
                kept.push(t);
            }
            i += 1;
        }
        assert(all.take(i as int) =~= all);
        self.ticks = kept;
    }

    /// The rate of the frames in the window. None, where there are not two frames at
    /// different times.
    pub fn fps(&self) -> (shown: Option<FrameRate>)
        ensures
            shown == rate(self@),
    {
        let n: usize = self.ticks.len();
        if n < 2 {
            return None;
        }
        let span: u64 = self.ticks[n - 1].saturating_sub(self.ticks[0]);
        if span == 0 {
            return None;
        }
        Some(FrameRate { intervals: (n - 1) as u64, span_ns: span })
    }
}

/// After a tick the window holds nothing older than its length, and every tick it
/// holds was there before or is the new one.
pub proof fn law_old_ticks_are_forgotten(ticks: Seq<u64>, now: u64)
    ensures
        forall|i: int|
            0 <= i < ticked(ticks, now).len() ==> #[trigger] ticked(ticks, now)[i] + FPS_WINDOW_NS
                >= now && ticks.push(now).contains(ticked(ticks, now)[i]),
        ticked(ticks, now).len() > 0 && ticked(ticks, now).last() == now,
{
    let all = ticks.push(now);
    let keep = recent(now);
    assert(all.drop_last() =~= ticks);
    reveal(Seq::filter);
    assert forall|i: int| 0 <= i < all.filter(keep).len() implies #[trigger] all.filter(keep)[i]
        + FPS_WINDOW_NS >= now && all.contains(all.filter(keep)[i]) by {
        all.lemma_filter_pred(keep, i);
        all.lemma_filter_contains_rev(keep, all.filter(keep)[i]);
    }
}

/// A tick after a pause longer than the window stands alone, so that no rate is shown.
pub proof fn law_a_pause_clears_the_rate(ticks: Seq<u64>, now: u64)
    requires
        forall|i: int| 0 <= i < ticks.len() ==> #[trigger] ticks[i] + FPS_WINDOW_NS < now,
    ensures
        ticked(ticks, now) == seq![now],
        rate(ticked(ticks, now)) is None,
    decreases ticks.len(),
{
    lemma_nothing_recent(ticks, now);
    assert(ticks.push(now).drop_last() =~= ticks);
    reveal(Seq::filter);
    assert(ticked(ticks, now) =~= seq![now]);
}

proof fn lemma_nothing_recent(ticks: Seq<u64>, now: u64)
    requires
        forall|i: int| 0 <= i < ticks.len() ==> #[trigger] ticks[i] + FPS_WINDOW_NS < now,
    ensures
        ticks.filter(recent(now)) == Seq::<u64>::empty(),
    decreases ticks.len(),
{
    reveal(Seq::filter);
    if ticks.len() > 0 {
        let before = ticks.drop_last();
        assert forall|i: int| 0 <= i < before.len() implies #[trigger] before[i] + FPS_WINDOW_NS
            < now by {
            assert(before[i] == ticks[i]);
        }
        lemma_nothing_recent(before, now);
        assert(ticks.last() == ticks[ticks.len() - 1]);
    }
}

/// A tick stays in the window for two seconds: whatever is no older than that is kept, in
/// its place, and whatever is older goes.
pub proof fn law_a_tick_lasts_two_seconds(ticks: Seq<u64>, now: u64)
    ensures
        (forall|i: int| 0 <= i < ticks.len() ==> #[trigger] ticks[i] + 2_000_000_000 >= now)
            ==> ticked(ticks, now) == ticks.push(now),
        forall|i: int|
            0 <= i < ticked(ticks, now).len() ==> #[trigger] ticked(ticks, now)[i] + 2_000_000_000
                >= now,
        forall|i: int|
            0 <= i < ticks.len() && #[trigger] ticks[i] + 2_000_000_000 >= now ==> ticked(
                ticks,
                now,
            ).contains(ticks[i]),
{
    law_old_ticks_are_forgotten(ticks, now);
    let all = ticks.push(now);
    let keep = recent(now);
    if forall|i: int| 0 <= i < ticks.len() ==> #[trigger] ticks[i] + 2_000_000_000 >= now {
        assert forall|i: int| 0 <= i < all.len() implies keep(#[trigger] all[i]) by {
            if i < ticks.len() {
                assert(all[i] == ticks[i]);
            }
        }
        lemma_all_kept(all, keep);
    }
    assert forall|i: int|
        0 <= i < ticks.len() && #[trigger] ticks[i] + 2_000_000_000 >= now implies ticked(
        ticks,
        now,
    ).contains(ticks[i]) by {
        assert(all[i] == ticks[i]);
        assert(keep(all[i]));
        all.lemma_filter_contains(keep, i);
    }
}

proof fn lemma_all_kept(ticks: Seq<u64>, keep: spec_fn(u64) -> bool)
    requires
        forall|i: int| 0 <= i < ticks.len() ==> keep(#[trigger] ticks[i]),
    ensures
        ticks.filter(keep) == ticks,
    decreases ticks.len(),
{
    reveal(Seq::filter);
    if ticks.len() > 0 {
        let before = ticks.drop_last();
        assert forall|i: int| 0 <= i < before.len() implies keep(#[trigger] before[i]) by {
            assert(before[i] == ticks[i]);
        }
        lemma_all_kept(before, keep);
        assert(keep(ticks[ticks.len() - 1]));
        assert(ticks.filter(keep) =~= ticks);
    } else {
        assert(ticks.filter(keep) =~= ticks);
    }
}

/// The rate is that of the intervals between the first tick and the last one: one fewer
/// than there are ticks, over the time between them.
pub proof fn law_the_rate_counts_intervals(ticks: Seq<u64>)
    ensures
        match rate(ticks) {
            Some(shown) => {
                &&& ticks.len() >= 2
                &&& ticks.len() <= u64::MAX ==> shown.intervals + 1 == ticks.len()
                &&& shown.span_ns > 0
                &&& ticks[0] + shown.span_ns == ticks[ticks.len() - 1]
            },
            None => ticks.len() < 2 || ticks[ticks.len() - 1] <= ticks[0],
        },
{
}

} // verus!
