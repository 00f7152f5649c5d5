//! What comes back from the tablet: touches, round trips and reports.

use vstd::prelude::*;

use crate::adaptive::{AdaptiveController, HealthSample};
use crate::binary64::Binary64;
use crate::session::engine::{ByteRate, Stats};
use crate::session::fps::{rate, ticked, FpsCounter};
use crate::video::pacing::{fetch_max, larger};

verus! {

/// The shortest time that a rate is computed over, in nanoseconds.
pub const SHORTEST_INTERVAL_NS: u64 = 1_000_000;

/// A frame that took this long to write is worth a warning, in microseconds.
pub const SLOW_WRITE_US: u64 = 20_000;

/// A pause of this length between frames is worth a warning, in microseconds.
pub const LONG_PAUSE_US: u64 = 50_000;

/// What a finger does.
#[derive(Debug, Clone, Copy, PartialEq, Eq, Structural)]
pub enum TouchAction {
    Down,
    Motion,
    Up,
}

/// A touch, in the coordinates of the stream.
#[derive(Debug, Clone, Copy, PartialEq, Eq, Structural)]
pub struct TouchEvent {
    pub action: TouchAction,
    pub slot: u32,
    pub x: Binary64,
    pub y: Binary64,
}

/// What the tablet reports.
#[derive(Debug, Clone, Copy, PartialEq, Eq, Structural)]
pub struct DeviceStats {
    pub frames_dropped: u64,
    pub decode_queue_depth: u32,
}

/// A frame of the control channel.
#[derive(Debug, Clone, Copy, PartialEq, Eq, Structural)]
pub enum ControlFrame {
    /// A touch; none, where it could not be decoded.
    Touch(Option<TouchEvent>),
    /// The echo of a ping, with the time at which that was sent.
    Pong { sent_us: u64 },
    /// A report; none, where it could not be decoded.
    Report(Option<DeviceStats>),
    Other,
}

/// What the encoder has done so far.
#[derive(Debug, Clone, Copy, PartialEq, Eq, Structural)]
pub struct EncoderCounts {
    pub encoded: u64,
    pub dropped: u64,
    pub bytes: u64,
}

/// A finger's touch as mutter is told of it.
#[derive(Debug, Clone, Copy, PartialEq, Eq, Structural)]
pub enum TouchCall {
    Down { slot: u32, x: Binary64, y: Binary64 },
    Motion { slot: u32, x: Binary64, y: Binary64 },
    Up { slot: u32 },
}

/// What follows from a frame.
#[derive(Debug, Clone, Copy, PartialEq, Eq, Structural)]
pub enum ControlAction {
    Nothing,
    /// A touch could not be decoded.
    Malformed,
    /// Mutter is told of a touch.
    Inject(TouchCall),
    /// The window gets numbers, and the encoder a new bitrate where one is due.
    Report { stats: Stats, sample: HealthSample, new_kbps: Option<u32> },
}

impl TouchEvent {
    pub open spec fn call(self) -> TouchCall {
        match self.action {
            TouchAction::Down => TouchCall::Down { slot: self.slot, x: self.x, y: self.y },
            TouchAction::Motion => TouchCall::Motion { slot: self.slot, x: self.x, y: self.y },
            TouchAction::Up => TouchCall::Up { slot: self.slot },
        }
    }

    pub fn to_call(self) -> (call: TouchCall)
        ensures
            call == self.call(),
    {
        match self.action {
            TouchAction::Down => TouchCall::Down { slot: self.slot, x: self.x, y: self.y },
            TouchAction::Motion => TouchCall::Motion { slot: self.slot, x: self.x, y: self.y },
            TouchAction::Up => TouchCall::Up { slot: self.slot },
        }
    }
}

/// The state of the task that reads the control channel.
pub struct ControlTask {
    fps: FpsCounter,
    last_dropped: u64,
    last_bytes: u64,
    last_sample_ns: u64,
    rtt_us: u64,
}

#[verifier::ext_equal]
pub struct TaskModel {
    /// When reports came in, as far as that is remembered.
    pub ticks: Seq<u64>,
    pub last_dropped: u64,
    pub last_bytes: u64,
    pub last_sample_ns: u64,
    pub rtt_us: u64,
}

impl View for ControlTask {
    type V = TaskModel;

    closed spec fn view(&self) -> TaskModel {
        TaskModel {
            ticks: self.fps@,
            last_dropped: self.last_dropped,
            last_bytes: self.last_bytes,
            last_sample_ns: self.last_sample_ns,
            rtt_us: self.rtt_us,
        }
    }
}

/// How much larger `a` is than `b`; 0, where it is not.
pub open spec fn excess(a: u64, b: u64) -> u64 {
    if a < b {
        0
    } else {
        (a - b) as u64
    }
}

impl TaskModel {
    /// Frames that were dropped anywhere. The sum wraps around.
    pub open spec fn dropped(counts: EncoderCounts, device: DeviceStats) -> u64 {
        counts.dropped.wrapping_add(device.frames_dropped)
    }

    /// What the controller is fed.
    pub open spec fn sample(self, counts: EncoderCounts, device: DeviceStats) -> HealthSample {
        HealthSample {
            decode_queue_depth: device.decode_queue_depth,
            dropped_delta: excess(TaskModel::dropped(counts, device), self.last_dropped),
            rtt_us: self.rtt_us,
        }
    }

    /// What the window is told.
    pub open spec fn stats(self, counts: EncoderCounts, device: DeviceStats, now: u64) -> Stats {
        Stats {
            produced: ByteRate {
                bytes: excess(counts.bytes, self.last_bytes),
                elapsed_ns: larger(excess(now, self.last_sample_ns), SHORTEST_INTERVAL_NS),
            },
            fps: rate(ticked(self.ticks, now)),
            latency_us: self.rtt_us,
            frames_encoded: counts.encoded,
            frames_dropped: TaskModel::dropped(counts, device),
            decode_queue_depth: device.decode_queue_depth,
        }
    }

    /// Once a report was taken in.
    pub open spec fn reported(
        self,
        counts: EncoderCounts,
        device: DeviceStats,
        now: u64,
    ) -> TaskModel {
        TaskModel {
            ticks: ticked(self.ticks, now),
            last_dropped: TaskModel::dropped(counts, device),
            last_bytes: counts.bytes,
            last_sample_ns: now,
            ..self
        }
    }
}

impl ControlTask {
    /// A task that starts at `now`, in nanoseconds since a fixed point.
    pub fn new(now: u64) -> (task: ControlTask)
        ensures
            task@ == (TaskModel {
                ticks: Seq::empty(),
                last_dropped: 0,
                last_bytes: 0,
                last_sample_ns: now,
                rtt_us: 0,
            }),
    {
        ControlTask {
            fps: FpsCounter::new(),
            last_dropped: 0,
            last_bytes: 0,
            last_sample_ns: now,
            rtt_us: 0,
        }
    }

    /// Takes in a frame at `now`. The tablet echoes our own timestamp, so that the round
    /// trip needs no clock synchronisation. `controller` is fed with reports only.
    pub fn on_frame(
        &mut self,
        frame: ControlFrame,
        now: u64,
        counts: EncoderCounts,
        controller: &mut AdaptiveController,
    ) -> (action: ControlAction)
        requires
            old(controller).wf(),
        ensures
            final(controller).wf(),
            match frame {
                ControlFrame::Touch(touch) => {
                    &&& final(self)@ == old(self)@
                    &&& final(controller)@ == old(controller)@
                    &&& action == match touch {
                        Some(t) => ControlAction::Inject(t.call()),
                        None => ControlAction::Malformed,
                    }
                },
                ControlFrame::Pong { sent_us } => {
                    &&& final(self)@ == (TaskModel {
                        rtt_us: excess((now / 1000) as u64, sent_us),
                        ..old(self)@
                    })
                    &&& final(controller)@ == old(controller)@
                    &&& action == ControlAction::Nothing
                },
                ControlFrame::Report(None) | ControlFrame::Other => {
                    &&& final(self)@ == old(self)@
                    &&& final(controller)@ == old(controller)@
                    &&& action == ControlAction::Nothing
                },
                ControlFrame::Report(Some(device)) => {
                    let sample = old(self)@.sample(counts, device);
                    &&& final(self)@ == old(self)@.reported(counts, device, now)
                    &&& final(controller)@ == old(controller)@.observing(sample, now).0
                    &&& action == (ControlAction::Report {
                        stats: old(self)@.stats(counts, device, now),
                        sample,
                        new_kbps: old(controller)@.observing(sample, now).1,
                    })
                },
            },
    {
        match frame {
            ControlFrame::Touch(touch) => match touch {
                Some(t) => ControlAction::Inject(t.to_call()),
                None => ControlAction::Malformed,
            },
            ControlFrame::Pong { sent_us } => {
                self.rtt_us = (now / 1000).saturating_sub(sent_us);
                ControlAction::Nothing
            },
            ControlFrame::Report(report) => match report {
                None => ControlAction::Nothing,
                Some(device) => {
                    let ghost before = self@;
                    self.fps.tick(now);
                    let since: u64 = now.saturating_sub(self.last_sample_ns);
                    let elapsed_ns: u64 = if since > SHORTEST_INTERVAL_NS {
                        since
                    } else {
                        SHORTEST_INTERVAL_NS
                    };
                    self.last_sample_ns = now;
                    let dropped: u64 = counts.dropped.wrapping_add(device.frames_dropped);
                    let sample = HealthSample {
                        decode_queue_depth: device.decode_queue_depth,
                        dropped_delta: dropped.saturating_sub(self.last_dropped),
                        rtt_us: self.rtt_us,
                    };
                    self.last_dropped = dropped;
                    let new_kbps = controller.observe(sample, now);
                    let bytes: u64 = counts.bytes.saturating_sub(self.last_bytes);
                    self.last_bytes = counts.bytes;
                    let stats = Stats {
                        produced: ByteRate { bytes, elapsed_ns },
                        fps: self.fps.fps(),
                        latency_us: self.rtt_us,
                        frames_encoded: counts.encoded,
                        frames_dropped: dropped,
                        decode_queue_depth: device.decode_queue_depth,
                    };
                    assert(self@ =~= before.reported(counts, device, now));
                    ControlAction::Report { stats, sample, new_kbps }
                },
            },
            ControlFrame::Other => ControlAction::Nothing,
        }
    }
}

/// Every dropped frame is held against the bitrate once: the drops that two reports in
/// a row feed to the controller add up to what the counters grew by.
pub proof fn law_drops_are_counted_once(
    task: TaskModel,
    first: (EncoderCounts, DeviceStats, u64),
    second: (EncoderCounts, DeviceStats, u64),
)
    requires
        task.last_dropped <= TaskModel::dropped(first.0, first.1) <= TaskModel::dropped(
            second.0,
            second.1,
        ),
    ensures
        task.sample(first.0, first.1).dropped_delta + task.reported(
            first.0,
            first.1,
            first.2,
        ).sample(second.0, second.1).dropped_delta == TaskModel::dropped(second.0, second.1)
            - task.last_dropped,
{
}

/// Every byte is counted in one report only.
pub proof fn law_bytes_are_counted_once(
    task: TaskModel,
    first: (EncoderCounts, DeviceStats, u64),
    second: (EncoderCounts, DeviceStats, u64),
)
    requires
        task.last_bytes <= first.0.bytes <= second.0.bytes,
    ensures
        task.stats(first.0, first.1, first.2).produced.bytes + task.reported(
            first.0,
            first.1,
            first.2,
        ).stats(second.0, second.1, second.2).produced.bytes == second.0.bytes - task.last_bytes,
{
}

/// A rate is never computed over no time.
pub proof fn law_rates_have_a_duration(
    task: TaskModel,
    counts: EncoderCounts,
    device: DeviceStats,
    now: u64,
)
    ensures
        task.stats(counts, device, now).produced.elapsed_ns >= SHORTEST_INTERVAL_NS,
{
}

/// How long writes to the transport took, and how far they were apart.
#[derive(Debug, Clone, Copy, PartialEq, Eq, Structural)]
pub struct WritePace {
    pub max_write_us: u64,
    pub max_inter_us: u64,
}

/// The same, for one window.
#[derive(Debug, Clone, Copy, PartialEq, Eq, Structural)]
pub struct WriteWindow {
    pub max_write_us: u64,
    pub max_inter_us: u64,
}

impl Default for WritePace {
    fn default() -> (pace: WritePace)
        ensures
            pace == (WritePace { max_write_us: 0, max_inter_us: 0 }),
    {
        WritePace { max_write_us: 0, max_inter_us: 0 }
    }
}

impl WritePace {
    /// Notes a write that took `write_us` and began `inter_us` after the one before it.
    /// Whether it is worth a warning.
    pub fn observe(&mut self, inter_us: u64, write_us: u64) -> (warn: bool)
        ensures
            *final(self) == (WritePace {
                max_write_us: larger(write_us, old(self).max_write_us),
                max_inter_us: larger(inter_us, old(self).max_inter_us),
            }),
            warn == (write_us >= SLOW_WRITE_US || inter_us >= LONG_PAUSE_US),
            warn == (write_us >= 20_000 || inter_us >= 50_000),
            final(self).max_write_us >= write_us && final(self).max_inter_us >= inter_us,
    {
        fetch_max(&mut self.max_write_us, write_us);
        fetch_max(&mut self.max_inter_us, inter_us);
        write_us >= SLOW_WRITE_US || inter_us >= LONG_PAUSE_US
    }

    /// The window since the previous take.
    pub fn take(&mut self) -> (window: WriteWindow)
        ensures
            window.max_write_us == old(self).max_write_us,
            window.max_inter_us == old(self).max_inter_us,
            *final(self) == (WritePace { max_write_us: 0, max_inter_us: 0 }),
    {
        let window = WriteWindow {
            max_write_us: self.max_write_us,
            max_inter_us: self.max_inter_us,
        };
        self.max_write_us = 0;
        self.max_inter_us = 0;
        window
    }
}

/// Mutter is told of a touch as the tablet reported it: the same finger, at the same place,
/// doing the same thing.
pub proof fn law_touches_are_passed_on(touch: TouchEvent)
    ensures
        match touch.call() {
            TouchCall::Down { slot, x, y } => touch.action == TouchAction::Down && slot == touch.slot
                && x == touch.x && y == touch.y,
            TouchCall::Motion { slot, x, y } => touch.action == TouchAction::Motion && slot
                == touch.slot && x == touch.x && y == touch.y,
            TouchCall::Up { slot } => touch.action == TouchAction::Up && slot == touch.slot,
        },
{
}

/// What the window and the controller are told of a report: the frames that were dropped on
/// either side, the bytes since the report before and the time they took, the last round
/// trip and the depth of the queue; and the next report starts from there.
pub proof fn law_a_report_is_passed_on(
    task: TaskModel,
    counts: EncoderCounts,
    device: DeviceStats,
    now: u64,
)
    requires
        counts.dropped + device.frames_dropped <= u64::MAX,
    ensures
        ({
            let dropped = counts.dropped + device.frames_dropped;
            let sample = task.sample(counts, device);
            let stats = task.stats(counts, device, now);
            let after = task.reported(counts, device, now);
            &&& sample.decode_queue_depth == device.decode_queue_depth
            &&& sample.rtt_us == task.rtt_us
            &&& dropped >= task.last_dropped ==> sample.dropped_delta == dropped - task.last_dropped
            &&& dropped < task.last_dropped ==> sample.dropped_delta == 0
            &&& stats.frames_dropped == dropped
            &&& stats.frames_encoded == counts.encoded
            &&& stats.decode_queue_depth == device.decode_queue_depth
            &&& stats.latency_us == task.rtt_us
            &&& counts.bytes >= task.last_bytes ==> stats.produced.bytes == counts.bytes
                - task.last_bytes
            &&& counts.bytes < task.last_bytes ==> stats.produced.bytes == 0
            &&& now >= task.last_sample_ns + 1_000_000 ==> stats.produced.elapsed_ns == now
                - task.last_sample_ns
            &&& now < task.last_sample_ns + 1_000_000 ==> stats.produced.elapsed_ns == 1_000_000
            &&& stats.fps == rate(ticked(task.ticks, now))
            &&& after.ticks == ticked(task.ticks, now)
            &&& after.last_dropped == dropped
            &&& after.last_bytes == counts.bytes
            &&& after.last_sample_ns == now
            &&& after.rtt_us == task.rtt_us
        }),
{
}

/// A round trip is the time since the ping was sent, and none where the clock says that it
/// was sent later.
pub proof fn law_a_round_trip_is_the_time_between(now_us: u64, sent_us: u64)
    ensures
        sent_us <= now_us ==> sent_us + excess(now_us, sent_us) == now_us,
        sent_us > now_us ==> excess(now_us, sent_us) == 0,
{
}

} // verus!
