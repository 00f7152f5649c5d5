//! Persisted user settings.

use vstd::prelude::*;

use crate::adaptive::BitrateBounds;
use crate::binary64::{law_an_option_is_nearest_to_itself, nearest, nearest_of, Binary64};
use crate::mutter::patched::{DirVar, UserDir};
use crate::session::config::{ConfigModel, DisplayMode, SessionConfig, ONE_AND_A_HALF};
use crate::text::{owned, text_eq, text_of};

verus! {

#[derive(Debug, Clone)]
pub struct Config {
    /// How much larger the desktop is drawn. At 1 text is tiny.
    pub scale: Binary64,
    /// `"extend"` or `"mirror"`.
    pub mode: String,
    /// Connector to mirror, when mode is `"mirror"`.
    pub mirror_source: Option<String>,
    pub framerate: u32,
    pub min_bitrate_kbps: u32,
    pub max_bitrate_kbps: u32,
    pub camera_enabled: bool,
    pub camera_id: String,
    /// Start streaming as soon as a tablet is detected.
    pub auto_connect: bool,
}

#[verifier::ext_equal]
pub struct SettingsModel {
    pub scale: Binary64,
    pub mode: Seq<char>,
    pub mirror_source: Option<Seq<char>>,
    pub framerate: u32,
    pub min_bitrate_kbps: u32,
    pub max_bitrate_kbps: u32,
    pub camera_enabled: bool,
    pub camera_id: Seq<char>,
    pub auto_connect: bool,
}

impl View for Config {
    type V = SettingsModel;

    open spec fn view(&self) -> SettingsModel {
        SettingsModel {
            scale: self.scale,
            mode: self.mode@,
            mirror_source: text_of(self.mirror_source),
            framerate: self.framerate,
            min_bitrate_kbps: self.min_bitrate_kbps,
            max_bitrate_kbps: self.max_bitrate_kbps,
            camera_enabled: self.camera_enabled,
            camera_id: self.camera_id@,
            auto_connect: self.auto_connect,
        }
    }
}

impl SettingsModel {
    /// The settings of a user who has not changed any.
    pub open spec fn initial() -> SettingsModel {
        SettingsModel {
            scale: Binary64 { bits: ONE_AND_A_HALF },
            mode: "extend"@,
            mirror_source: None,
            framerate: 60,
            min_bitrate_kbps: 6_000,
            max_bitrate_kbps: 50_000,
            camera_enabled: false,
            camera_id: "0"@,
            auto_connect: true,
        }
    }

    /// The lower of the two bitrates is the least, whichever way round they stand.
    pub open spec fn bounds(self) -> BitrateBounds {
        if self.min_bitrate_kbps <= self.max_bitrate_kbps {
            BitrateBounds { min_kbps: self.min_bitrate_kbps, max_kbps: self.max_bitrate_kbps }
        } else {
            BitrateBounds { min_kbps: self.max_bitrate_kbps, max_kbps: self.min_bitrate_kbps }
        }
    }

    pub open spec fn display_mode(self) -> DisplayMode {
        if self.mode == "mirror"@ {
            DisplayMode::Mirror
        } else {
            DisplayMode::Extend
        }
    }
}

impl Default for Config {
    fn default() -> (config: Config)
        ensures
            config@ == SettingsModel::initial(),
    {
        let bounds = BitrateBounds::default();
        Config {
            scale: Binary64 { bits: ONE_AND_A_HALF },
            mode: owned("extend"),
            mirror_source: None,
            framerate: 60,
            min_bitrate_kbps: bounds.min_kbps,
            max_bitrate_kbps: bounds.max_kbps,
            camera_enabled: false,
            camera_id: owned("0"),
            auto_connect: true,
        }
    }
}

impl Config {
    /// The settings that were read, or the initial ones where nothing readable was
    /// found. A corrupt file must never stop the app: the user would have no way to fix
    /// it from within.
    pub fn load(read: Option<Config>) -> (config: Config)
        ensures
            match read {
                Some(c) => config@ == c@,
                None => config@ == SettingsModel::initial(),
            },
    {
        match read {
            Some(config) => config,
            None => Config::default(),
        }
    }

    /// The bitrates to stay within. Guards against a hand-edited file with the two the
    /// wrong way round.
    pub fn bounds(&self) -> (bounds: BitrateBounds)
        ensures
            bounds == self@.bounds(),
            bounds.ordered(),
    {
        if self.min_bitrate_kbps <= self.max_bitrate_kbps {
            BitrateBounds { min_kbps: self.min_bitrate_kbps, max_kbps: self.max_bitrate_kbps }
        } else {
            BitrateBounds { min_kbps: self.max_bitrate_kbps, max_kbps: self.min_bitrate_kbps }
        }
    }

    /// Any mode that is not known extends the desktop.
    pub fn display_mode(&self) -> (mode: DisplayMode)
        ensures
            mode == self@.display_mode(),
    {
        if text_eq(self.mode.as_str(), "mirror") {
            DisplayMode::Mirror
        } else {
            DisplayMode::Extend
        }
    }
}

/// The scales that are offered, as patterns: 1, 1.25, 1.5, 1.75 and 2.
pub const SCALE_OPTIONS: [u64; 5] = [
    0x3ff0_0000_0000_0000,
    0x3ff4_0000_0000_0000,
    0x3ff8_0000_0000_0000,
    0x3ffc_0000_0000_0000,
    0x4000_0000_0000_0000,
];

/// The scales that are offered.
pub open spec fn offered_scales() -> Seq<Binary64> {
    seq![
        Binary64 { bits: 0x3ff0_0000_0000_0000 },
        Binary64 { bits: 0x3ff4_0000_0000_0000 },
        Binary64 { bits: 0x3ff8_0000_0000_0000 },
        Binary64 { bits: 0x3ffc_0000_0000_0000 },
        Binary64 { bits: 0x4000_0000_0000_0000 },
    ]
}

pub fn scale_options() -> (options: Vec<Binary64>)
    ensures
        options@ == offered_scales(),
{
    let patterns = SCALE_OPTIONS;
    let mut options: Vec<Binary64> = Vec::new();
    options.push(Binary64 { bits: patterns[0] });
    options.push(Binary64 { bits: patterns[1] });
    options.push(Binary64 { bits: patterns[2] });
    options.push(Binary64 { bits: patterns[3] });
    options.push(Binary64 { bits: patterns[4] });
    assert(options@ =~= offered_scales());
    options
}

/// Index of the closest available scale, so a hand-edited value still selects
/// something sensible rather than nothing.
pub fn scale_index(scale: Binary64) -> (index: u32)
    ensures
        index == nearest_of(offered_scales(), scale, 5),
        index < 5,
{
    let options = scale_options();
    nearest(options.as_slice(), scale) as u32
}

/// A scale that is offered selects itself.
pub proof fn law_an_offered_scale_selects_itself(i: int)
    requires
        0 <= i < 5,
    ensures
        nearest_of(offered_scales(), offered_scales()[i], 5) == i,
{
    law_an_option_is_nearest_to_itself(offered_scales(), i);
}

/// Where settings are kept.
#[derive(Debug, Clone, Copy, PartialEq, Eq, Structural)]
pub enum SettingsBase {
    /// In the directory that the XDG variable names.
    Xdg,
    /// At its usual place under the home directory.
    UnderHome,
    /// In the current directory.
    Here,
}

/// Where settings are kept. An XDG variable that is set counts, even where it is empty.
pub fn settings_base(xdg_config_home: DirVar, home: DirVar) -> (base: SettingsBase)
    ensures
        base == if xdg_config_home != DirVar::Unset {
            SettingsBase::Xdg
        } else if home != DirVar::Unset {
            SettingsBase::UnderHome
        } else {
            SettingsBase::Here
        },
{
    if xdg_config_home != DirVar::Unset {
        SettingsBase::Xdg
    } else if home != DirVar::Unset {
        SettingsBase::UnderHome
    } else {
        SettingsBase::Here
    }
}

/// The version of the companion app that goes with this build; a tablet with an older
/// one gets a new one.
pub const APK_VERSION: u32 = 8;

/// What a session is started with under these settings.
pub fn session_config(config: &Config, apk_path: Option<String>) -> (session: SessionConfig)
    ensures
        session@ == (ConfigModel {
            mode: config@.display_mode(),
            scale: config.scale,
            framerate: config.framerate,
            bounds: config@.bounds(),
            mirror_source: config@.mirror_source,
            apk_path: text_of(apk_path),
            apk_version: APK_VERSION,
            camera_enabled: config.camera_enabled,
            camera_id: config.camera_id@,
        }),
        session.bounds.ordered(),
        session.apk_version == 8,
{
    SessionConfig {
        mode: config.display_mode(),
        scale: config.scale,
        framerate: config.framerate,
        bounds: config.bounds(),
        mirror_source: match &config.mirror_source {
            Some(connector) => Some(connector.clone()),
            None => None,
        },
        apk_path,
        apk_version: APK_VERSION,
        camera_enabled: config.camera_enabled,
        camera_id: config.camera_id.clone(),
    }
}

/// Where a copy of the companion app may lie.
#[derive(Debug, Clone, Copy, PartialEq, Eq, Structural)]
pub enum ApkPlace {
    /// A local release build.
    LocalRelease,
    /// A local debug build.
    LocalDebug,
    /// The copy of an installation for this user.
    UserData,
    Share,
    LocalShare,
}

/// The companion app that is pushed to the tablet.
#[derive(Debug, Clone, Copy, PartialEq, Eq, Structural)]
pub enum Apk {
    /// The one that the user names.
    Named,
    At(ApkPlace),
    /// None; the app is taken to be installed already.
    Absent,
}

/// The directory for a user's data. An XDG variable that is set counts, even where it
/// is empty.
pub fn data_home(xdg_data_home: DirVar, home: DirVar) -> (base: UserDir)
    ensures
        base == if xdg_data_home != DirVar::Unset {
            UserDir::Xdg
        } else if home != DirVar::Unset {
            UserDir::UnderHome
        } else {
            UserDir::Unknown
        },
{
    if xdg_data_home != DirVar::Unset {
        UserDir::Xdg
    } else if home != DirVar::Unset {
        UserDir::UnderHome
    } else {
        UserDir::Unknown
    }
}

/// Where to look, in order of how likely each place is to hold the wanted copy.
pub open spec fn places(data_home: UserDir) -> Seq<ApkPlace> {
    if data_home == UserDir::Unknown {
        seq![
            ApkPlace::LocalRelease,
            ApkPlace::LocalDebug,
            ApkPlace::Share,
            ApkPlace::LocalShare,
        ]
    } else {
        seq![
            ApkPlace::LocalRelease,
            ApkPlace::LocalDebug,
            ApkPlace::UserData,
            ApkPlace::Share,
            ApkPlace::LocalShare,
        ]
    }
}

pub fn apk_places(data_home: UserDir) -> (found: Vec<ApkPlace>)
    ensures
        found@ == places(data_home),
{
    let mut found: Vec<ApkPlace> = Vec::new();
    found.push(ApkPlace::LocalRelease);
    found.push(ApkPlace::LocalDebug);
    if data_home != UserDir::Unknown {
        found.push(ApkPlace::UserData);
    }
    found.push(ApkPlace::Share);
    found.push(ApkPlace::LocalShare);
    assert(found@ =~= places(data_home));
    found
}

/// Finds the companion app. `named` says whether a copy that the user names exists,
/// where the user names one: no other is looked for then. `exists` says the same of
/// each place.
pub fn bundled_apk(named: Option<bool>, candidates: &[ApkPlace], exists: &[bool]) -> (apk: Apk)
    requires
        candidates@.len() == exists@.len(),
    ensures
        named == Some(true) ==> apk == Apk::Named,
        named == Some(false) ==> apk == Apk::Absent,
        named is None ==> match apk {
            Apk::Named => false,
            Apk::At(place) => exists|i: int|
                0 <= i < candidates@.len() && #[trigger] candidates@[i] == place && exists@[i]
                    && forall|j: int| 0 <= j < i ==> !#[trigger] exists@[j],
            Apk::Absent => forall|j: int| 0 <= j < exists@.len() ==> !#[trigger] exists@[j],
        },
{
    match named {
        Some(there) => {
            return if there {
                Apk::Named
            } else {
                Apk::Absent
            };
        },
        None => {},
    }
    let mut i: usize = 0;
    while i < exists.len()
        invariant
            i <= exists@.len(),
            candidates@.len() == exists@.len(),
            named is None,
            forall|j: int| 0 <= j < i ==> !#[trigger] exists@[j],
        decreases exists@.len() - i,
    {
        if exists[i] {
            let place = candidates[i];
            assert(candidates@[i as int] == place);
            return Apk::At(place);
        }
        i += 1;
    }
    Apk::Absent
}

/// The bitrates that a session stays within are the two that are set, the lower one first.
pub proof fn law_the_lower_bitrate_is_the_least(settings: SettingsModel)
    ensures
        settings.bounds().min_kbps <= settings.bounds().max_kbps,
        settings.bounds().min_kbps <= settings.min_bitrate_kbps <= settings.bounds().max_kbps,
        settings.bounds().min_kbps <= settings.max_bitrate_kbps <= settings.bounds().max_kbps,
        settings.bounds().min_kbps + settings.bounds().max_kbps == settings.min_bitrate_kbps
            + settings.max_bitrate_kbps,
{
}

/// The desktop is mirrored where the settings say so, and extended for anything else.
pub proof fn law_any_other_mode_extends(settings: SettingsModel)
    ensures
        settings.display_mode() == DisplayMode::Mirror <==> settings.mode == "mirror"@,
        settings.display_mode() == DisplayMode::Extend <==> settings.mode != "mirror"@,
{
}

/// The scales that are offered go from 1 to 2 in quarters.
pub proof fn law_scales_go_up_in_quarters(i: int)
    requires
        0 <= i < 5,
    ensures
        offered_scales().len() == 5,
        offered_scales()[i].is_finite(),
        !offered_scales()[i].is_negative(),
        4 * offered_scales()[i].units() == (4 + i) * vstd::arithmetic::power2::pow2(1074),
{
    crate::binary64::law_quarters();
}

/// Without settings the desktop is extended at one and a half, at 60 frames per second and
/// from 6000 to 50000 kbit/s, without the camera, as soon as there is a tablet.
pub proof fn law_initial_settings()
    ensures
        ({
            let settings = SettingsModel::initial();
            &&& 2 * settings.scale.units() == 3 * vstd::arithmetic::power2::pow2(1074)
            &&& settings.display_mode() == DisplayMode::Extend
            &&& settings.mirror_source is None
            &&& settings.framerate == 60
            &&& settings.bounds().min_kbps == 6_000
            &&& settings.bounds().max_kbps == 50_000
            &&& !settings.camera_enabled
            &&& settings.auto_connect
        }),
{
    crate::binary64::law_quarters();
    reveal_strlit("mirror");
    reveal_strlit("extend");
    assert("mirror"@[0] != "extend"@[0]);
}

/// Local builds of the companion app come first, and the copy of an installation is looked
/// for where the user's directory is known.
pub proof fn law_local_builds_come_first(data_home: UserDir)
    ensures
        ({
            let all = places(data_home);
            &&& all[0] == ApkPlace::LocalRelease
            &&& all[1] == ApkPlace::LocalDebug
            &&& all[all.len() - 2] == ApkPlace::Share
            &&& all[all.len() - 1] == ApkPlace::LocalShare
            &&& data_home == UserDir::Unknown ==> all.len() == 4
            &&& data_home != UserDir::Unknown ==> all.len() == 5 && all[2] == ApkPlace::UserData
        }),
{
}

/// For any scale that is a number, the choice that is shown is one that no other is nearer
/// to, and of two that are equally near it is the smaller.
pub proof fn law_the_nearest_choice_is_shown(scale: Binary64, i: int)
    requires
        scale.is_finite(),
        0 <= i < 5,
    ensures
        ({
            let shown = nearest_of(offered_scales(), scale, 5);
            let best = crate::binary64::distance(offered_scales()[shown], scale)->0;
            let other = crate::binary64::distance(offered_scales()[i], scale)->0;
            &&& 0 <= shown < 5
            &&& best <= other
            &&& i < shown ==> best < other
        }),
{
    let all = offered_scales();
    assert forall|k: int| 0 <= k < 5 implies crate::binary64::distance(
        #[trigger] all[k],
        scale,
    ) is Some by {
        law_scales_go_up_in_quarters(k);
        crate::binary64::law_distances_are_right_to_53_bits(all[k], scale);
    }
    crate::binary64::law_no_option_is_nearer(all, scale, 5);
}

} // verus!
