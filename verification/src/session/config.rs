//! What a session is started with.

use vstd::prelude::*;

use crate::adaptive::BitrateBounds;
use crate::binary64::Binary64;
use crate::mutter::session::CaptureSource;
use crate::text::{owned, text_of};

verus! {

/// The pattern of 1.5, the scale that suits a tablet best.
pub const ONE_AND_A_HALF: u64 = 0x3ff8_0000_0000_0000;

#[derive(Debug, Clone, Copy, PartialEq, Eq, Structural)]
pub enum DisplayMode {
    /// A new monitor: the desktop gets bigger.
    Extend,
    /// A copy of an existing monitor.
    Mirror,
}

#[derive(Debug, Clone)]
pub struct SessionConfig {
    pub mode: DisplayMode,
    /// How much larger the desktop is drawn.
    pub scale: Binary64,
    pub framerate: u32,
    pub bounds: BitrateBounds,
    /// Connector to mirror, e.g. `DP-3`.
    pub mirror_source: Option<String>,
    /// Companion app to push, if there is one at hand.
    pub apk_path: Option<String>,
    pub apk_version: u32,
    pub camera_enabled: bool,
    pub camera_id: String,
}

#[verifier::ext_equal]
pub struct ConfigModel {
    pub mode: DisplayMode,
    pub scale: Binary64,
    pub framerate: u32,
    pub bounds: BitrateBounds,
    pub mirror_source: Option<Seq<char>>,
    pub apk_path: Option<Seq<char>>,
    pub apk_version: u32,
    pub camera_enabled: bool,
    pub camera_id: Seq<char>,
}

impl View for SessionConfig {
    type V = ConfigModel;

    open spec fn view(&self) -> ConfigModel {
        ConfigModel {
            mode: self.mode,
            scale: self.scale,
            framerate: self.framerate,
            bounds: self.bounds,
            mirror_source: text_of(self.mirror_source),
            apk_path: text_of(self.apk_path),
            apk_version: self.apk_version,
            camera_enabled: self.camera_enabled,
            camera_id: self.camera_id@,
        }
    }
}

impl Default for SessionConfig {
    fn default() -> (config: SessionConfig)
        ensures
            config@ == (ConfigModel {
                mode: DisplayMode::Extend,
                scale: Binary64 { bits: ONE_AND_A_HALF },
                framerate: 60,
                bounds: BitrateBounds { min_kbps: 6_000, max_kbps: 50_000 },
                mirror_source: None,
                apk_path: None,
                apk_version: 1,
                camera_enabled: false,
                camera_id: "0"@,
            }),
    {
        SessionConfig {
            mode: DisplayMode::Extend,
            scale: Binary64 { bits: ONE_AND_A_HALF },
            framerate: 60,
            bounds: BitrateBounds::default(),
            mirror_source: None,
            apk_path: None,
            apk_version: 1,
            camera_enabled: false,
            camera_id: owned("0"),
        }
    }
}

impl ConfigModel {
    /// Which monitor is mirrored has to be looked up.
    pub open spec fn wants_first_monitor(self) -> bool {
        self.mode == DisplayMode::Mirror && self.mirror_source is None
    }

    /// The monitor that is mirrored. Where none was chosen it is the first one rather
    /// than a failure, and where there is none the desktop is extended.
    pub open spec fn mirrored(self, first_monitor: Option<Seq<char>>) -> Option<Seq<char>> {
        if self.mode == DisplayMode::Extend {
            None
        } else if self.mirror_source is Some {
            self.mirror_source
        } else {
            first_monitor
        }
    }
}

impl SessionConfig {
    /// Whether the list of monitors is needed to choose what is captured.
    pub fn wants_first_monitor(&self) -> (wants: bool)
        ensures
            wants == self@.wants_first_monitor(),
    {
        match self.mode {
            DisplayMode::Extend => false,
            DisplayMode::Mirror => self.mirror_source.is_none(),
        }
    }

    /// What is captured. `monitors` is only looked at where nothing was chosen.
    pub fn capture_source(&self, monitors: &[String]) -> (source: CaptureSource)
        ensures
            crate::mutter::session::mirrored(source) == self@.mirrored(
                if monitors@.len() > 0 {
                    Some(monitors@[0]@)
                } else {
                    None
                },
            ),
    {
        match self.mode {
            DisplayMode::Extend => CaptureSource::Virtual,
            DisplayMode::Mirror => match &self.mirror_source {
                Some(connector) => CaptureSource::Monitor(connector.clone()),
                None => {
                    if monitors.len() > 0 {
                        CaptureSource::Monitor(monitors[0].clone())
                    } else {
                        CaptureSource::Virtual
                    }
                },
            },
        }
    }
}

/// The desktop is extended, unless a monitor is mirrored: the one that was chosen, or else
/// the first one that there is.
pub proof fn law_what_is_mirrored(config: ConfigModel, first_monitor: Option<Seq<char>>)
    ensures
        config.mode == DisplayMode::Extend ==> config.mirrored(first_monitor) is None
            && !config.wants_first_monitor(),
        config.mode == DisplayMode::Mirror && config.mirror_source is Some ==> config.mirrored(
            first_monitor,
        ) == config.mirror_source && !config.wants_first_monitor(),
        config.mode == DisplayMode::Mirror && config.mirror_source is None ==> config.mirrored(
            first_monitor,
        ) == first_monitor && config.wants_first_monitor(),
{
}

} // verus!
