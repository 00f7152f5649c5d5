use extraspace::binary64::Binary64;
use extraspace::mutter::patched::{DirVar, UserDir};
use extraspace::session::config::DisplayMode;
use extraspace::session::engine::{Command, State};
use extraspace::ui::config::{
    apk_places, bundled_apk, data_home, scale_index, scale_options, session_config, settings_base,
    Apk, ApkPlace, Config, SettingsBase,
};
use extraspace::ui::content::{build_content, mode_labels, scale_labels, Row};
use extraspace::ui::controls::{
    on_camera_switched, on_close_request, on_display_switched, on_mode_selected, on_opened,
    on_scale_selected, selections,
};
use extraspace::ui::view::{apply_state, Face, StatusPage};

fn number(x: f64) -> Binary64 {
    Binary64 { bits: x.to_bits() }
}

fn value(x: Binary64) -> f64 {
    f64::from_bits(x.bits)
}

fn page(state: State) -> (String, StatusPage) {
    let view = apply_state(&state);
    match view.face {
        Face::Status(page) => (view.subtitle, page),
        other => panic!("{other:?}"),
    }
}

#[test]
fn defaults_are_sane() {
    let c = Config::default();
    assert!(value(c.scale) >= 1.0 && value(c.scale) <= 3.0);
    assert!(c.bounds().min_kbps < c.bounds().max_kbps);
    assert_eq!(c.display_mode(), DisplayMode::Extend);
}

#[test]
fn swapped_bitrate_bounds_are_corrected() {
    let c = Config {
        min_bitrate_kbps: 30_000,
        max_bitrate_kbps: 6_000,
        ..Default::default()
    };
    let b = c.bounds();
    assert_eq!(b.min_kbps, 6_000);
    assert_eq!(b.max_kbps, 30_000);
}

#[test]
fn unknown_mode_falls_back_to_extend() {
    let c = Config {
        mode: "nonsense".into(),
        ..Default::default()
    };
    assert_eq!(c.display_mode(), DisplayMode::Extend);
}

#[test]
fn scale_index_snaps_to_the_nearest_option() {
    assert_eq!(scale_index(number(1.0)), 0);
    assert_eq!(scale_index(number(1.5)), 2);
    assert_eq!(scale_index(number(2.0)), 4);
    assert_eq!(scale_index(number(1.6)), 2);
    assert_eq!(scale_index(number(1.7)), 3);
}

#[test]
fn every_offered_scale_selects_itself() {
    for (i, scale) in scale_options().iter().enumerate() {
        assert_eq!(scale_index(*scale), i as u32);
        assert_eq!(scale_labels()[i], format!("{}×", value(*scale)));
    }
    assert_eq!(scale_index(number(f64::NAN)), 0);
    assert_eq!(scale_index(number(-7.0)), 0);
    assert_eq!(scale_index(number(f64::INFINITY)), 0);
}

#[test]
fn unreadable_settings_are_the_initial_ones() {
    let c = Config::load(None);
    assert_eq!((c.framerate, c.camera_id.as_str(), c.mode.as_str()), (60, "0", "extend"));
    assert!(c.auto_connect && !c.camera_enabled && c.mirror_source.is_none());
    assert_eq!((c.min_bitrate_kbps, c.max_bitrate_kbps), (6_000, 50_000));
    let read = Config {
        framerate: 30,
        ..Default::default()
    };
    assert_eq!(Config::load(Some(read)).framerate, 30);
}

#[test]
fn settings_start_a_session() {
    let c = Config {
        mode: "mirror".into(),
        mirror_source: Some("DP-3".into()),
        min_bitrate_kbps: 9_000,
        max_bitrate_kbps: 8_000,
        camera_enabled: true,
        camera_id: "1".into(),
        scale: number(1.75),
        framerate: 50,
        ..Default::default()
    };
    let s = session_config(&c, Some("/x.apk".into()));
    assert_eq!(s.mode, DisplayMode::Mirror);
    assert_eq!((s.bounds.min_kbps, s.bounds.max_kbps), (8_000, 9_000));
    assert_eq!(s.mirror_source.as_deref(), Some("DP-3"));
    assert_eq!(s.apk_path.as_deref(), Some("/x.apk"));
    assert_eq!((s.apk_version, s.framerate), (8, 50));
    assert!(s.camera_enabled);
    assert_eq!(s.camera_id, "1");
    assert_eq!(value(s.scale), 1.75);
}

#[test]
fn settings_lie_under_the_home_directory() {
    assert_eq!(settings_base(DirVar::Empty, DirVar::Named), SettingsBase::Xdg);
    assert_eq!(settings_base(DirVar::Unset, DirVar::Named), SettingsBase::UnderHome);
    assert_eq!(settings_base(DirVar::Unset, DirVar::Unset), SettingsBase::Here);
    assert_eq!(data_home(DirVar::Empty, DirVar::Named), UserDir::Xdg);
    assert_eq!(data_home(DirVar::Unset, DirVar::Empty), UserDir::UnderHome);
    assert_eq!(data_home(DirVar::Unset, DirVar::Unset), UserDir::Unknown);
}

#[test]
fn the_first_app_that_exists_is_pushed() {
    let places = apk_places(UserDir::Xdg);
    assert_eq!(places.len(), 5);
    assert_eq!(apk_places(UserDir::Unknown).len(), 4);
    let there = [false, false, true, true, false];
    assert_eq!(bundled_apk(None, &places, &there), Apk::At(ApkPlace::UserData));
    assert_eq!(bundled_apk(None, &places, &[false; 5]), Apk::Absent);
    assert_eq!(bundled_apk(Some(true), &places, &there), Apk::Named);
    assert_eq!(bundled_apk(Some(false), &places, &there), Apk::Absent);
}

#[test]
fn controls_change_settings_and_ask_the_engine() {
    let mut c = Config::default();
    let shown = selections(&c);
    assert_eq!((shown.scale, shown.mode, shown.camera, shown.display), (2, 0, false, true));
    assert!(matches!(
        on_scale_selected(&mut c, 4),
        Some(Command::SetScale(s)) if value(s) == 2.0
    ));
    assert_eq!(value(c.scale), 2.0);
    assert!(on_scale_selected(&mut c, 5).is_none());
    assert_eq!(value(c.scale), 2.0);
    assert!(matches!(
        on_mode_selected(&mut c, 1),
        Command::SetMode(DisplayMode::Mirror)
    ));
    assert_eq!(c.mode, "mirror");
    assert_eq!(selections(&c).mode, 1);
    assert!(matches!(
        on_mode_selected(&mut c, 0),
        Command::SetMode(DisplayMode::Extend)
    ));
    assert_eq!(c.mode, "extend");
    match on_camera_switched(&mut c, true) {
        Command::SetCamera { enabled, camera_id } => {
            assert!(enabled);
            assert_eq!(camera_id, "0");
        }
        other => panic!("{other:?}"),
    }
    assert!(c.camera_enabled);
    assert!(matches!(on_display_switched(true), Command::Connect));
    assert!(matches!(on_display_switched(false), Command::Disconnect));
    assert!(matches!(on_opened(&c), Some(Command::Connect)));
    c.auto_connect = false;
    assert!(on_opened(&c).is_none());
}

#[test]
fn the_window_waits_for_the_engine_before_it_closes() {
    let mut closing = false;
    assert!(!on_close_request(&mut closing));
    assert!(on_close_request(&mut closing));
}

#[test]
fn every_row_stands_in_the_window_once() {
    let content = build_content();
    let rows: Vec<Row> = content.iter().flat_map(|g| g.rows.iter().map(|r| r.row)).collect();
    assert_eq!(
        rows,
        [
            Row::DisplaySwitch,
            Row::Mode,
            Row::Scale,
            Row::CameraSwitch,
            Row::Resolution,
            Row::Bitrate,
            Row::FrameRate,
            Row::Latency,
            Row::EncoderName
        ]
    );
    assert_eq!(content[0].title, "Display");
    assert_eq!(content[2].rows[0].subtitle, "—");
    assert_eq!(mode_labels(), ["Extend", "Mirror"]);
}

#[test]
fn each_state_has_its_page() {
    let (subtitle, idle) = page(State::Idle);
    assert_eq!((subtitle.as_str(), idle.title, idle.button), ("Not connected", "Ready", Some("Connect")));
    assert_eq!(
        idle.description,
        "Turn on Extra Display to start streaming to your tablet."
    );
    let (subtitle, none) = page(State::NoTablet);
    assert_eq!(subtitle, "No tablet");
    assert_eq!(
        none.description,
        "Connect your tablet over USB, then enable USB debugging:\n\n\
         1.  Settings → About tablet → tap “Build number” seven times\n\
         2.  Settings → System → Developer options → USB debugging"
    );
    assert_eq!(none.button, Some("Check Again"));
    let (subtitle, asked) = page(State::Unauthorized {
        device: "T Tablet".to_string(),
    });
    assert_eq!(subtitle, "Not authorised");
    assert_eq!(asked.icon, "dialog-password-symbolic");
    assert_eq!(
        asked.description,
        "T Tablet is connected but has not granted permission yet.\n\n\
         Unlock the tablet and tap “Allow” on the USB debugging prompt. \
         Tick “Always allow from this computer” so you are not asked again."
    );
    let (subtitle, busy) = page(State::Connecting {
        step: "Creating the display…".to_string(),
    });
    assert_eq!(subtitle, "Connecting…");
    assert!(busy.spinning && busy.button.is_none());
    assert_eq!(busy.description, "Creating the display…");
    let (subtitle, failed) = page(State::Failed {
        message: "no encoder".to_string(),
    });
    assert_eq!((subtitle.as_str(), failed.title), ("Error", "Something went wrong"));
    assert_eq!(failed.description, "no encoder");
    let view = apply_state(&State::Streaming {
        device: "T Tablet".to_string(),
        width: 1332,
        height: 800,
        encoder: "x264".to_string(),
    });
    assert_eq!(view.subtitle, "T Tablet");
    match view.face {
        Face::Running {
            width,
            height,
            encoder,
        } => assert_eq!((width, height, encoder.as_str()), (1332, 800, "x264")),
        other => panic!("{other:?}"),
    }
}
