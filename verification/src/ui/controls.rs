//! What the window's controls do to the settings and ask of the engine.

use vstd::prelude::*;

use crate::binary64::nearest_of;
use crate::session::config::DisplayMode;
use crate::session::engine::Command;
use crate::text::owned;
use crate::ui::config::{offered_scales, scale_index, scale_options, Config, SettingsModel};

verus! {

/// What the controls show for the settings.
#[derive(Debug, Clone, Copy, PartialEq, Eq, Structural)]
pub struct Selections {
    pub scale: u32,
    pub mode: u32,
    pub camera: bool,
    pub display: bool,
}

/// The controls as the stored settings have them.
pub fn selections(config: &Config) -> (shown: Selections)
    ensures
        shown.scale == nearest_of(offered_scales(), config.scale, 5),
        shown.mode == if config@.display_mode() == DisplayMode::Mirror {
            1u32
        } else {
            0u32
        },
        shown.camera == config.camera_enabled,
        shown.display,
{
    Selections {
        scale: scale_index(config.scale),
        mode: match config.display_mode() {
            DisplayMode::Mirror => 1,
            DisplayMode::Extend => 0,
        },
        camera: config.camera_enabled,
        display: true,
    }
}

/// The display was switched on or off.
pub fn on_display_switched(active: bool) -> (command: Command)
    ensures
        command == if active {
            Command::Connect
        } else {
            Command::Disconnect
        },
{
    if active {
        Command::Connect
    } else {
        Command::Disconnect
    }
}

/// A scale was selected. One that is not offered changes nothing.
pub fn on_scale_selected(config: &mut Config, selected: u32) -> (command: Option<Command>)
    ensures
        selected < 5 ==> {
            &&& command == Some(Command::SetScale(offered_scales()[selected as int]))
            &&& final(config)@ == (SettingsModel {
                scale: offered_scales()[selected as int],
                ..old(config)@
            })
        },
        selected >= 5 ==> command is None && final(config)@ == old(config)@,
{
    let options = scale_options();
    if selected >= 5 {
        return None;
    }
    let scale = options[selected as usize];
    config.scale = scale;
    Some(Command::SetScale(scale))
}

/// The mode that stands at a place of the list.
pub open spec fn mode_at(selected: u32) -> DisplayMode {
    if selected == 1 {
        DisplayMode::Mirror
    } else {
        DisplayMode::Extend
    }
}

/// The word for a mode in the settings.
pub open spec fn mode_word(mode: DisplayMode) -> Seq<char> {
    match mode {
        DisplayMode::Mirror => "mirror"@,
        DisplayMode::Extend => "extend"@,
    }
}

/// A mode was selected.
pub fn on_mode_selected(config: &mut Config, selected: u32) -> (command: Command)
    ensures
        command == Command::SetMode(mode_at(selected)),
        final(config)@ == (SettingsModel { mode: mode_word(mode_at(selected)), ..old(config)@ }),
{
    if selected == 1 {
        config.mode = owned("mirror");
        Command::SetMode(DisplayMode::Mirror)
    } else {
        config.mode = owned("extend");
        Command::SetMode(DisplayMode::Extend)
    }
}

/// The camera was switched on or off.
pub fn on_camera_switched(config: &mut Config, enabled: bool) -> (command: Command)
    ensures
        command matches Command::SetCamera { enabled: e, camera_id } && e == enabled && camera_id@
            == old(config)@.camera_id,
        final(config)@ == (SettingsModel { camera_enabled: enabled, ..old(config)@ }),
{
    config.camera_enabled = enabled;
    Command::SetCamera { enabled, camera_id: config.camera_id.clone() }
}

/// What is asked of the engine when the window opens: the user opened it to use it.
pub fn on_opened(config: &Config) -> (command: Option<Command>)
    ensures
        command == if config.auto_connect {
            Some(Command::Connect)
        } else {
            None
        },
{
    if config.auto_connect {
        Some(Command::Connect)
    } else {
        None
    }
}

/// The window closes at the second request: the first one waits for the engine. Whether
/// the window may close now.
pub fn on_close_request(closing: &mut bool) -> (proceed: bool)
    ensures
        proceed == *old(closing),
        *final(closing),
{
    let proceed = *closing;
    *closing = true;
    proceed
}

/// A mode that was selected is the one that a session gets, and is shown again.
pub proof fn law_a_selected_mode_is_kept(settings: SettingsModel, selected: u32)
    requires
        selected < 2,
    ensures
        ({
            let kept = SettingsModel { mode: mode_word(mode_at(selected)), ..settings };
            &&& kept.display_mode() == mode_at(selected)
            &&& (kept.display_mode() == DisplayMode::Mirror) == (selected == 1)
        }),
{
    reveal_strlit("mirror");
    reveal_strlit("extend");
    assert("mirror"@[0] != "extend"@[0]);
}

/// A scale that was selected is shown again.
pub proof fn law_a_selected_scale_is_kept(settings: SettingsModel, selected: u32)
    requires
        selected < 5,
    ensures
        ({
            let kept = SettingsModel { scale: offered_scales()[selected as int], ..settings };
            nearest_of(offered_scales(), kept.scale, 5) == selected
        }),
{
    crate::ui::config::law_an_offered_scale_selects_itself(selected as int);
}

/// The second of the two modes mirrors, every other choice extends, and each is written
/// down in its own word.
pub proof fn law_the_second_mode_mirrors(selected: u32)
    ensures
        mode_at(selected) == DisplayMode::Mirror <==> selected == 1,
        mode_word(DisplayMode::Mirror) == "mirror"@,
        mode_word(DisplayMode::Extend) == "extend"@,
{
}

} // verus!
