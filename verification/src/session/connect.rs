//! Making a connection: the tablet's greeting, the order of the steps, and what each
//! part of the session is started with.

use vstd::prelude::*;

use crate::adaptive::{AdaptiveController, ControllerModel};
use crate::binary64::Binary64;
use crate::mutter::session::{mirrored, CursorMode, DisplayConfig};
use crate::session::config::SessionConfig;
use crate::session::size::{
    bitrate_for, starting_bitrate, virtual_extent, virtual_size_for, LEAST_HEIGHT, LEAST_WIDTH,
};
use crate::text::{decimal, owned, push_decimal};
use crate::video::pipeline::VideoConfig;

verus! {

/// How many frames may come before the tablet introduces itself.
pub const HELLO_FRAMES: u32 = 8;

/// How often the round trip is measured, in milliseconds.
pub const PING_INTERVAL_MS: u64 = 500;

/// Waiting for the tablet to introduce itself.
#[derive(Debug, Clone, Copy, PartialEq, Eq, Structural)]
pub struct HelloWait {
    pub frames_left: u32,
}

/// What to do with a frame that came in.
#[derive(Debug, Clone, Copy, PartialEq, Eq, Structural)]
pub enum HelloStep {
    /// It is the greeting.
    Greeting,
    /// Read the next one.
    Next,
    /// The tablet never introduced itself.
    GiveUp,
}

impl HelloWait {
    pub fn new() -> (wait: HelloWait)
        ensures
            wait.frames_left == HELLO_FRAMES,
            wait.frames_left == 8,
    {
        HelloWait { frames_left: HELLO_FRAMES }
    }

    pub open spec fn step(self, greeting: bool) -> HelloStep {
        if greeting {
            HelloStep::Greeting
        } else if self.frames_left > 1 {
            HelloStep::Next
        } else {
            HelloStep::GiveUp
        }
    }

    /// Takes in a frame, which may be the greeting.
    pub fn on_frame(&mut self, greeting: bool) -> (step: HelloStep)
        requires
            old(self).frames_left > 0,
        ensures
            step == old(self).step(greeting),
            final(self).frames_left == old(self).frames_left - 1,
    {
        self.frames_left = self.frames_left - 1;
        if greeting {
            HelloStep::Greeting
        } else if self.frames_left > 0 {
            HelloStep::Next
        } else {
            HelloStep::GiveUp
        }
    }
}

/// What the user is told when no greeting came.
pub fn no_hello() -> (message: String)
    ensures
        message@ == "tablet never sent a Hello message"@,
{
    owned("tablet never sent a Hello message")
}

/// What the user is told when the two sides do not understand each other.
pub open spec fn mismatch(theirs: u32, ours: u32) -> Seq<char> {
    "the tablet app speaks protocol v"@ + decimal(theirs as nat) + " but this build speaks v"@
        + decimal(ours as nat) + ". Reinstall the companion app."@
}

/// Both sides have to speak the same version of the protocol.
pub fn check_protocol(theirs: u32, ours: u32) -> (checked: Result<(), String>)
    ensures
        checked is Ok <==> theirs == ours,
        checked matches Err(message) ==> message@ == mismatch(theirs, ours),
{
    if theirs == ours {
        return Ok(());
    }
    let mut message = String::new();
    message.append("the tablet app speaks protocol v");
    push_decimal(&mut message, theirs as u64);
    message.append(" but this build speaks v");
    push_decimal(&mut message, ours as u64);
    message.append(". Reinstall the companion app.");
    assert(message@ =~= mismatch(theirs, ours));
    Err(message)
}

/// The steps of a connection.
#[derive(Debug, Clone, Copy, PartialEq, Eq, Structural)]
pub enum ConnectStage {
    FindTablet,
    ReadHello,
    OpenDisplay,
    BuildPipeline,
    StartPipeline,
    /// The tablet is told what is coming.
    SendVideoConfig,
    /// The tablet cannot decode anything before a keyframe, and on an idle desktop the
    /// next one can be seconds away.
    RequestKeyframe,
    SendCameraControl,
    /// Frames, cursor, pings and reports flow.
    RunTasks,
}

impl ConnectStage {
    /// What the user reads while a step is under way; a step without words of its own
    /// leaves the last ones.
    pub open spec fn words(self) -> Option<&'static str> {
        match self {
            ConnectStage::FindTablet => Some("Looking for your tablet…"),
            ConnectStage::ReadHello => Some("Waiting for the tablet to introduce itself…"),
            ConnectStage::OpenDisplay => Some("Creating the display…"),
            ConnectStage::BuildPipeline => Some("Starting the video pipeline…"),
            _ => None,
        }
    }

    pub fn step(self) -> (words: Option<&'static str>)
        ensures
            words == self.words(),
    {
        match self {
            ConnectStage::FindTablet => Some("Looking for your tablet…"),
            ConnectStage::ReadHello => Some("Waiting for the tablet to introduce itself…"),
            ConnectStage::OpenDisplay => Some("Creating the display…"),
            ConnectStage::BuildPipeline => Some("Starting the video pipeline…"),
            _ => None,
        }
    }

    /// The step after this one. The camera is switched on only where it is wanted.
    pub open spec fn following(self, camera: bool) -> Option<ConnectStage> {
        match self {
            ConnectStage::FindTablet => Some(ConnectStage::ReadHello),
            ConnectStage::ReadHello => Some(ConnectStage::OpenDisplay),
            ConnectStage::OpenDisplay => Some(ConnectStage::BuildPipeline),
            ConnectStage::BuildPipeline => Some(ConnectStage::StartPipeline),
            ConnectStage::StartPipeline => Some(ConnectStage::SendVideoConfig),
            ConnectStage::SendVideoConfig => Some(ConnectStage::RequestKeyframe),
            ConnectStage::RequestKeyframe => if camera {
                Some(ConnectStage::SendCameraControl)
            } else {
                Some(ConnectStage::RunTasks)
            },
            ConnectStage::SendCameraControl => Some(ConnectStage::RunTasks),
            ConnectStage::RunTasks => None,
        }
    }

    pub fn next(self, camera: bool) -> (stage: Option<ConnectStage>)
        ensures
            stage == self.following(camera),
    {
        match self {
            ConnectStage::FindTablet => Some(ConnectStage::ReadHello),
            ConnectStage::ReadHello => Some(ConnectStage::OpenDisplay),
            ConnectStage::OpenDisplay => Some(ConnectStage::BuildPipeline),
            ConnectStage::BuildPipeline => Some(ConnectStage::StartPipeline),
            ConnectStage::StartPipeline => Some(ConnectStage::SendVideoConfig),
            ConnectStage::SendVideoConfig => Some(ConnectStage::RequestKeyframe),
            ConnectStage::RequestKeyframe => {
                if camera {
                    Some(ConnectStage::SendCameraControl)
                } else {
                    Some(ConnectStage::RunTasks)
                }
            },
            ConnectStage::SendCameraControl => Some(ConnectStage::RunTasks),
            ConnectStage::RunTasks => None,
        }
    }
}

/// The stages of a connection up to its `n`th.
pub open spec fn stages(camera: bool, n: nat) -> Option<ConnectStage>
    decreases n,
{
    if n == 0 {
        Some(ConnectStage::FindTablet)
    } else {
        match stages(camera, (n - 1) as nat) {
            Some(stage) => stage.following(camera),
            None => None,
        }
    }
}

/// The tablet is told what is coming, and a keyframe is asked for, before any frame
/// flows; the camera is switched on exactly where it is wanted.
pub proof fn law_the_tablet_is_told_first(camera: bool)
    ensures
        stages(camera, 4) == Some(ConnectStage::StartPipeline),
        stages(camera, 5) == Some(ConnectStage::SendVideoConfig),
        stages(camera, 6) == Some(ConnectStage::RequestKeyframe),
        stages(camera, 7) == Some(
            if camera {
                ConnectStage::SendCameraControl
            } else {
                ConnectStage::RunTasks
            },
        ),
        camera ==> stages(camera, 8) == Some(ConnectStage::RunTasks),
{
    reveal_with_fuel(stages, 9);
}

/// The virtual monitor for a tablet of this size. The cursor is described beside the
/// frames: one that is painted into them freezes while nothing else changes.
pub open spec fn is_display_for(
    display: DisplayConfig,
    config: SessionConfig,
    panel_width: u32,
    panel_height: u32,
    monitors: Seq<String>,
) -> bool {
    &&& display.width == virtual_extent(panel_width, config.scale, LEAST_WIDTH)
    &&& display.height == virtual_extent(panel_height, config.scale, LEAST_HEIGHT)
    &&& display.refresh_rate.is_finite()
    &&& !display.refresh_rate.is_negative()
    &&& display.refresh_rate.units() == config.framerate as nat * vstd::arithmetic::power2::pow2(
        1074,
    )
    &&& display.cursor_mode == CursorMode::Metadata
    &&& mirrored(display.source) == config@.mirrored(
        if monitors.len() > 0 {
            Some(monitors[0]@)
        } else {
            None
        },
    )
}

/// What is asked of mutter for a tablet of this size.
pub fn display_for(
    config: &SessionConfig,
    panel_width: u32,
    panel_height: u32,
    monitors: &[String],
) -> (display: DisplayConfig)
    ensures
        is_display_for(display, *config, panel_width, panel_height, monitors@),
{
    let (width, height) = virtual_size_for(panel_width, panel_height, config.scale);
    DisplayConfig {
        width,
        height,
        refresh_rate: Binary64::whole(config.framerate),
        cursor_mode: CursorMode::Metadata,
        source: config.capture_source(monitors),
    }
}

/// The codec of the stream, as the tablet is told it.
pub fn codec() -> (name: &'static str)
    ensures
        name@ == "h264"@,
{
    "h264"
}

/// What the pipeline is started with.
pub fn video_for(config: &SessionConfig, width: u32, height: u32) -> (video: VideoConfig)
    requires
        config.bounds.ordered(),
    ensures
        video == (VideoConfig {
            width,
            height,
            framerate: config.framerate,
            bitrate_kbps: config.bounds.nearest(
                bitrate_for(width, height, config.framerate),
            ) as u32,
        }),
        config.bounds.contains(video.bitrate_kbps),
{
    VideoConfig {
        width,
        height,
        framerate: config.framerate,
        bitrate_kbps: starting_bitrate(width, height, config.framerate, config.bounds),
    }
}

/// The controller starts where the encoder starts.
pub fn controller_for(config: &SessionConfig, video: &VideoConfig) -> (controller:
    AdaptiveController)
    requires
        config.bounds.contains(video.bitrate_kbps),
    ensures
        controller.wf(),
        controller@ == (ControllerModel {
            bounds: config.bounds,
            current_kbps: video.bitrate_kbps,
            consecutive_bad: 0,
            consecutive_good: 0,
            last_change: None,
        }),
{
    AdaptiveController::new(config.bounds, video.bitrate_kbps)
}

/// How the tablet's camera is switched.
#[derive(Debug, Clone)]
pub struct CameraControl {
    pub enabled: bool,
    pub camera_id: String,
    pub width: u32,
    pub height: u32,
    pub framerate: u32,
    pub bitrate_kbps: u32,
}

/// Switches a camera on or off.
pub fn camera_control(enabled: bool, camera_id: &str) -> (control: CameraControl)
    ensures
        control.enabled == enabled,
        control.camera_id@ == camera_id@,
        control.width == 1920,
        control.height == 1080,
        control.framerate == 30,
        control.bitrate_kbps == 8_000,
{
    CameraControl {
        enabled,
        camera_id: owned(camera_id),
        width: 1920,
        height: 1080,
        framerate: 30,
        bitrate_kbps: 8_000,
    }
}

/// The greeting is taken whenever it comes; of the frames before it eight are read, and
/// with the eighth that is none the wait is over.
pub proof fn law_eight_frames_may_be_read(seen: u32)
    requires
        seen < 8,
    ensures
        ({
            let wait = HelloWait { frames_left: (8 - seen) as u32 };
            &&& wait.step(true) == HelloStep::Greeting
            &&& wait.step(false) == HelloStep::Next <==> seen < 7
            &&& wait.step(false) == HelloStep::GiveUp <==> seen == 7
        }),
{
}

/// A connection finds the tablet, hears its greeting, opens the display and builds the
/// pipeline, in this order, and is made once its tasks run.
pub proof fn law_a_connection_is_made_step_by_step(camera: bool)
    ensures
        stages(camera, 0) == Some(ConnectStage::FindTablet),
        stages(camera, 1) == Some(ConnectStage::ReadHello),
        stages(camera, 2) == Some(ConnectStage::OpenDisplay),
        stages(camera, 3) == Some(ConnectStage::BuildPipeline),
        camera ==> stages(camera, 9) is None,
        !camera ==> stages(camera, 8) is None,
{
    reveal_with_fuel(stages, 10);
}

/// The user is told of the steps that take time, each in its own words; the others leave
/// what was last told.
pub proof fn law_slow_steps_are_told(stage: ConnectStage)
    ensures
        stage.words() is Some <==> stage == ConnectStage::FindTablet || stage
            == ConnectStage::ReadHello || stage == ConnectStage::OpenDisplay || stage
            == ConnectStage::BuildPipeline,
        stage == ConnectStage::FindTablet ==> stage.words() == Some("Looking for your tablet…"),
        stage == ConnectStage::ReadHello ==> stage.words() == Some(
            "Waiting for the tablet to introduce itself…",
        ),
        stage == ConnectStage::OpenDisplay ==> stage.words() == Some("Creating the display…"),
        stage == ConnectStage::BuildPipeline ==> stage.words() == Some(
            "Starting the video pipeline…",
        ),
{
}

/// What is asked of mutter: a monitor of the panel's size over the scale, at the rate of
/// the session, with the cursor beside the frames; or a copy of an existing one.
pub proof fn law_the_display_suits_the_tablet(
    display: DisplayConfig,
    config: SessionConfig,
    panel_width: u32,
    panel_height: u32,
    monitors: Seq<String>,
)
    requires
        is_display_for(display, config, panel_width, panel_height, monitors),
    ensures
        crate::session::size::usual(config.scale) ==> {
            &&& crate::session::size::is_panel_over_scale(
                display.width as int,
                panel_width,
                config.scale,
                640,
            )
            &&& crate::session::size::is_panel_over_scale(
                display.height as int,
                panel_height,
                config.scale,
                480,
            )
        },
        display.refresh_rate.units() == config.framerate * vstd::arithmetic::power2::pow2(1074),
        display.cursor_mode == CursorMode::Metadata,
        config.mode == crate::session::config::DisplayMode::Extend ==> display.source is Virtual,
        config.mode == crate::session::config::DisplayMode::Mirror ==> match config.mirror_source {
            Some(connector) => mirrored(display.source) == Some(connector@),
            None => if monitors.len() > 0 {
                mirrored(display.source) == Some(monitors[0]@)
            } else {
                display.source is Virtual
            },
        },
{
    if crate::session::size::usual(config.scale) {
        crate::session::size::law_the_monitor_is_the_panel_over_the_scale(
            panel_width,
            config.scale,
            640,
        );
        crate::session::size::law_the_monitor_is_the_panel_over_the_scale(
            panel_height,
            config.scale,
            480,
        );
    }
}

} // verus!
