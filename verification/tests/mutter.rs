use extraspace::binary64::Binary64;
use extraspace::mutter::display::{
    closest_scale, current_mode_size, enable_virtual_monitor, is_virtual, list_connectors,
    list_connectors_best_effort, logical_size, mode_flag, place_right_of_primary, prop_bool,
    prop_u32, transform_swaps_axes, virtual_monitor_state, CurrentState, EnablePlan,
    LogicalMonitor, Mode, Monitor, MonitorSpec, Prop, PropValue, VirtualWait, WaitStep,
    LAYOUT_LOGICAL,
};
use extraspace::mutter::layouts::{
    config_dir, plan_purge, purge_result, purge_saved_virtual_layouts, PurgePlan,
};
use extraspace::mutter::patched::{
    gnome_shell_pid, installed_version, marker_base, may_describe_mutter, parse_pid,
    patched_mutter_is_running, patched_version, running_shell_is_stale, scaled_modes_allowed,
    scaled_modes_verdict, version_of_mutter, DirVar, ModesVerdict, PackageEntry, ProcessEntry,
    ScaledModes, UserDir,
};
use extraspace::mutter::session::{
    chord_events, closing, open_failure, record_request, CaptureSource, Chord, CloseAction,
    CloseStep, CursorMode, DisplayConfig, Error, InputOnlySession, OpenAction, Opening, RecordRequest, Reply,
};

const MUTTER_DESC: &str = "%NAME%\nmutter\n\n%VERSION%\n50.4-2\n\n%DESC%\nWindow manager\n";

fn number(x: f64) -> Binary64 {
    Binary64 { bits: x.to_bits() }
}

fn value(x: Binary64) -> f64 {
    f64::from_bits(x.bits)
}

fn prop(name: &str, value: PropValue) -> Prop {
    Prop {
        name: name.to_string(),
        value,
    }
}

fn mode(id: &str, width: i32, height: i32, props: Vec<Prop>) -> Mode {
    Mode {
        id: id.to_string(),
        width,
        height,
        refresh_rate: number(60.0),
        preferred_scale: number(1.5),
        supported_scales: vec![number(1.0), number(1.3333333730697632), number(1.5), number(2.0)],
        props,
    }
}

fn spec(connector: &str, vendor: &str) -> MonitorSpec {
    MonitorSpec {
        connector: connector.to_string(),
        vendor: vendor.to_string(),
        product: "p".to_string(),
        serial: "s".to_string(),
    }
}

fn flag(name: &str) -> Vec<Prop> {
    vec![prop(name, PropValue::Bool(true))]
}

fn desk() -> CurrentState {
    CurrentState {
        serial: 7,
        monitors: vec![
            Monitor {
                spec: spec("DP-3", "DEL"),
                modes: vec![
                    mode("1280x720", 1280, 720, vec![]),
                    mode("1920x1080", 1920, 1080, flag("is-current")),
                ],
                props: vec![
                    prop("color-mode", PropValue::U32(1)),
                    prop("rgb-range", PropValue::Bool(true)),
                ],
            },
            Monitor {
                spec: spec("Meta-0", "MetaVendor"),
                modes: vec![
                    mode("a", 800, 600, vec![]),
                    mode("b", 1332, 800, flag("is-preferred")),
                ],
                props: vec![],
            },
        ],
        logical: vec![
            LogicalMonitor {
                x: -500,
                y: 30,
                scale: number(1.0),
                transform: 0,
                primary: false,
                specs: vec![spec("gone", "DEL")],
            },
            LogicalMonitor {
                x: 100,
                y: 20,
                scale: number(1.25),
                transform: 0,
                primary: true,
                specs: vec![spec("DP-3", "DEL")],
            },
        ],
        props: vec![],
    }
}

#[test]
fn ninety_degree_transform_swaps_logical_size() {
    assert_eq!(
        logical_size(1920, 1080, number(1.0), 1, LAYOUT_LOGICAL),
        (1080, 1920)
    );
    assert_eq!(
        logical_size(1920, 1080, number(1.25), 0, LAYOUT_LOGICAL),
        (1536, 864)
    );
    assert_eq!(logical_size(1920, 1080, number(1.25), 0, 2), (1920, 1080));
    for transform in 0..9 {
        assert_eq!(
            transform_swaps_axes(transform),
            matches!(transform, 1 | 3 | 5 | 7)
        );
    }
}

#[test]
fn closest_scale_picks_supported_neighbour() {
    let mode = Mode {
        id: "2304x1440@60.000".into(),
        width: 2304,
        height: 1440,
        refresh_rate: number(60.0),
        preferred_scale: number(1.5),
        supported_scales: vec![number(1.0), number(1.3333333730697632), number(1.5), number(2.0)],
        props: vec![],
    };
    assert!((value(closest_scale(&mode, number(1.5))) - 1.5).abs() < f64::EPSILON);
    assert!((value(closest_scale(&mode, number(1.4))) - 1.3333333730697632).abs() < 0.01);
    let silent = Mode {
        supported_scales: vec![],
        ..mode
    };
    assert_eq!(value(closest_scale(&silent, number(9.0))), 1.5);
}

#[test]
fn properties_have_to_be_of_the_right_kind() {
    let props = vec![
        prop("a", PropValue::U32(3)),
        prop("b", PropValue::Bool(true)),
        prop("c", PropValue::Other),
        prop("a", PropValue::U32(4)),
    ];
    assert_eq!(prop_u32(&props, "a"), Some(3));
    assert_eq!(prop_u32(&props, "b"), None);
    assert_eq!(prop_u32(&props, "z"), None);
    assert!(prop_bool(&props, "b"));
    assert!(!prop_bool(&props, "a") && !prop_bool(&props, "c") && !prop_bool(&props, "z"));
    assert!(mode_flag(&mode("m", 1, 1, flag("is-current")), "is-current"));
    assert!(is_virtual(&spec("Meta-0", "MetaVendor")));
    assert!(!is_virtual(&spec("MetaVendor", "DEL")));
}

#[test]
fn connectors_are_listed_in_order() {
    let state = desk();
    assert_eq!(list_connectors(&state), ["DP-3", "Meta-0"]);
    assert_eq!(list_connectors_best_effort(Some(&state)).len(), 2);
    assert!(list_connectors_best_effort(None).is_empty());
}

#[test]
fn the_virtual_monitor_is_read_back() {
    let mut state = desk();
    assert!(virtual_monitor_state(&state).is_none());
    state.monitors[1].modes[0].props = flag("is-current");
    let found = virtual_monitor_state(&state).unwrap();
    assert_eq!((found.width, found.height, value(found.scale)), (800, 600, 1.0));
    state.logical[0].specs = vec![spec("DP-3", "DEL"), spec("Meta-0", "MetaVendor")];
    state.logical[0].scale = number(1.75);
    state.monitors[1].modes[0].width = -5;
    let found = virtual_monitor_state(&state).unwrap();
    assert_eq!((found.width, value(found.scale)), (0, 1.75));
    state.monitors.truncate(1);
    assert!(virtual_monitor_state(&state).is_none());
}

#[test]
fn the_virtual_monitor_goes_right_of_the_primary_one() {
    let state = desk();
    assert_eq!(current_mode_size(&state.monitors, "DP-3"), Some((1920, 1080)));
    assert_eq!(current_mode_size(&state.monitors, "Meta-0"), Some((1332, 800)));
    assert_eq!(current_mode_size(&state.monitors, "gone"), None);
    assert_eq!(
        place_right_of_primary(&state.monitors, &state.logical, LAYOUT_LOGICAL),
        (100 + 1536, 20)
    );
    assert_eq!(
        place_right_of_primary(&state.monitors, &state.logical, 2),
        (100 + 1920, 20)
    );
    assert_eq!(place_right_of_primary(&state.monitors, &[], 1), (0, 0));
    // Without a primary region the first one counts, here one of no known width.
    let mut state = desk();
    state.logical[1].primary = false;
    assert_eq!(
        place_right_of_primary(&state.monitors, &state.logical, 1),
        (-500, 30)
    );
}

#[test]
fn enabling_adds_one_region_and_moves_nothing() {
    let state = desk();
    let plan = match enable_virtual_monitor(&state, number(1.4)) {
        EnablePlan::Apply(plan) => plan,
        other => panic!("{other:?}"),
    };
    assert_eq!((plan.serial, plan.layout_mode, plan.logical.len()), (7, None, 2));
    let kept = &plan.logical[0];
    assert_eq!((kept.x, kept.y, kept.primary, kept.transform), (100, 20, true, 0));
    assert_eq!(value(kept.scale), 1.25);
    assert_eq!(kept.members.len(), 1);
    assert_eq!(kept.members[0].connector, "DP-3");
    assert_eq!(kept.members[0].mode, "1920x1080");
    assert_eq!(kept.members[0].color_mode, Some(1));
    assert_eq!(kept.members[0].rgb_range, None);
    let added = &plan.logical[1];
    assert_eq!((added.x, added.y, added.primary, added.transform), (1636, 20, false, 0));
    assert_eq!(value(added.scale), 1.3333333730697632);
    assert_eq!(added.members[0].connector, "Meta-0");
    assert_eq!(added.members[0].mode, "b");
}

#[test]
fn the_layout_mode_is_sent_where_it_may_change() {
    let mut state = desk();
    state.props = vec![
        prop("layout-mode", PropValue::U32(2)),
        prop("supports-changing-layout-mode", PropValue::Bool(true)),
    ];
    match enable_virtual_monitor(&state, number(1.5)) {
        EnablePlan::Apply(plan) => {
            assert_eq!(plan.layout_mode, Some(2));
            assert_eq!(plan.logical[1].x, 100 + 1920);
        }
        other => panic!("{other:?}"),
    }
}

#[test]
fn there_may_be_nothing_to_enable() {
    let mut state = desk();
    state.logical[0].specs = vec![spec("Meta-0", "MetaVendor")];
    assert!(matches!(
        enable_virtual_monitor(&state, number(1.5)),
        EnablePlan::AlreadyOn
    ));
    let mut state = desk();
    state.monitors[1].modes = vec![];
    assert!(matches!(
        enable_virtual_monitor(&state, number(1.5)),
        EnablePlan::NoModes
    ));
    state.monitors.truncate(1);
    assert!(matches!(
        enable_virtual_monitor(&state, number(1.5)),
        EnablePlan::Absent
    ));
}

#[test]
fn the_virtual_monitor_is_looked_for_twenty_times() {
    assert_eq!(VirtualWait::begin(false), None);
    let mut state = desk();
    state.monitors.truncate(1);
    let mut wait = VirtualWait::begin(true).unwrap();
    for _ in 0..19 {
        assert_eq!(wait.look(&state), WaitStep::Again);
    }
    assert_eq!(wait.look(&state), WaitStep::GiveUp);
    let mut wait = VirtualWait::begin(true).unwrap();
    assert_eq!(wait.look(&desk()), WaitStep::Found);
}

#[test]
fn virtual_layouts_are_dropped_and_real_ones_kept() {
    let real = "<configuration>\n    <vendor>DEL</vendor>\n  </configuration>";
    let meta = "<configuration><vendor>MetaVendor</vendor></configuration>";
    let remote = "<configuration>Virtual remote monitor</configuration>";
    let text = format!("<monitors>\n  {real}\n  {meta}\n \t{remote}\n  {real}\n</monitors>\n");
    let purged = purge_saved_virtual_layouts(&text);
    assert_eq!(purged.removed, 2);
    assert_eq!(
        purged.text,
        format!("<monitors>\n  {real}\n  {real}\n</monitors>\n")
    );
    let again = purge_saved_virtual_layouts(&purged.text);
    assert_eq!(again.removed, 0);
    assert_eq!(again.text, purged.text);
}

#[test]
fn texts_without_virtual_layouts_stay_as_they_are() {
    for text in [
        "",
        "\n",
        "MetaVendor",
        "<configuration>MetaVendor",
        "</configuration><configuration>MetaVendor",
        "ä<configuration>ö</configuration>MetaVendor",
    ] {
        let purged = purge_saved_virtual_layouts(text);
        assert_eq!((purged.text.as_str(), purged.removed), (text, 0));
    }
    // Two halves of a tag that come together make a layout that is left.
    let text = "<confi<configuration>MetaVendor</configuration>guration>MetaVendor</configuration>";
    let once = purge_saved_virtual_layouts(text);
    assert_eq!(once.removed, 1);
    assert_eq!(
        once.text,
        "<configuration>MetaVendor</configuration>"
    );
}

#[test]
fn only_leftovers_are_written() {
    let plan = |removed, exists| plan_purge(removed, exists);
    let keep = PurgePlan { backup: false, write: false };
    assert_eq!((plan(0, false), plan(0, true)), (keep, keep));
    assert_eq!(plan(2, false), PurgePlan { backup: true, write: true });
    assert_eq!(plan(2, true), PurgePlan { backup: false, write: true });
    assert_eq!((purge_result(2, true), purge_result(2, false), purge_result(0, false)), (2, 0, 0));
    let text = "<monitors>\n  <configuration>MetaVendor</configuration>\n</monitors>\n";
    let once = purge_saved_virtual_layouts(text);
    let twice = purge_saved_virtual_layouts(&once.text);
    assert_eq!((once.removed, once.text.as_str()), (1, "<monitors>\n</monitors>\n"));
    assert_eq!((twice.removed, twice.text), (0, once.text));
}

#[test]
fn the_first_answer_lasts() {
    let one = Some("1".to_string());
    let v = Some("50.4-2".to_string());
    let mut modes = ScaledModes::default();
    assert_eq!(modes.answer(), None);
    assert!(modes.decide(&one, &v, &v, false));
    assert_eq!(modes.answer(), Some(true));
    assert!(modes.decide(&None, &None, &v, true));
    let mut modes = ScaledModes::default();
    assert!(!modes.decide(&one, &v, &v, true));
    assert!(!modes.decide(&one, &v, &v, false));
    assert_eq!(modes.answer(), Some(false));
}

#[test]
fn the_screen_cast_is_stopped_only_where_the_desktop_cannot_be() {
    let desktop = CloseAction::StopRemoteDesktop;
    let cast = CloseAction::StopScreenCast;
    assert_eq!(closing(desktop, true), CloseStep::Closed);
    assert_eq!(closing(desktop, false), CloseStep::Try(cast));
    assert_eq!(closing(cast, true), CloseStep::Closed);
    assert_eq!(closing(cast, false), CloseStep::Failed);
}

#[test]
fn a_service_that_cannot_be_reached_means_no_mutter() {
    let fail = |action| open_failure(action, "gone".to_string());
    assert!(matches!(fail(OpenAction::ReachRemoteDesktop), Error::NoMutter));
    assert!(matches!(fail(OpenAction::ReachScreenCast), Error::NoMutter));
    for action in [OpenAction::ConnectToBus, OpenAction::StartRemoteDesktopSession] {
        assert!(matches!(fail(action), Error::DBus(reason) if reason == "gone"));
    }
}

#[test]
fn an_input_session_is_stopped_once() {
    let mut session = InputOnlySession::new();
    assert!(session.close());
    assert!(!session.close());
}

#[test]
fn directories_come_from_the_environment() {
    assert_eq!(config_dir(DirVar::Named, DirVar::Named), UserDir::Xdg);
    assert_eq!(config_dir(DirVar::Empty, DirVar::Named), UserDir::UnderHome);
    assert_eq!(config_dir(DirVar::Unset, DirVar::Unset), UserDir::Unknown);
    assert_eq!(marker_base(DirVar::Named, DirVar::Unset), UserDir::Xdg);
    assert_eq!(marker_base(DirVar::Empty, DirVar::Empty), UserDir::UnderHome);
    assert_eq!(marker_base(DirVar::Unset, DirVar::Unset), UserDir::Unknown);
}

#[test]
fn reads_the_version_of_mutter_itself() {
    assert_eq!(version_of_mutter(MUTTER_DESC).as_deref(), Some("50.4-2"));
}

#[test]
fn ignores_packages_that_merely_start_with_mutter() {
    let devkit = MUTTER_DESC.replace("mutter\n", "mutter-devkit\n");
    assert_eq!(version_of_mutter(&devkit), None);
}

#[test]
fn a_stock_upgrade_stops_matching_the_patched_build() {
    assert_ne!(
        version_of_mutter(MUTTER_DESC),
        version_of_mutter(&MUTTER_DESC.replace("50.4-2", "50.5-1"))
    );
}

#[test]
fn the_installed_version_is_that_of_the_first_entry() {
    let entry = |name: &str, desc: Option<&str>| PackageEntry {
        name: name.to_string(),
        desc: desc.map(|d| d.to_string()),
    };
    let devkit = MUTTER_DESC.replace("mutter\n", "mutter-devkit\n");
    let entries = vec![
        entry("bash-5", Some(MUTTER_DESC)),
        entry("mutter-devkit-50", Some(&devkit)),
        entry("mutter-broken", None),
        entry("mutter-50.4-2", Some(MUTTER_DESC)),
    ];
    assert_eq!(installed_version(&entries).as_deref(), Some("50.4-2"));
    assert_eq!(installed_version(&entries[..3].to_vec()), None);
    assert!(may_describe_mutter("mutter-50") && !may_describe_mutter("mutter"));
    assert_eq!(version_of_mutter("%NAME%\r\n mutter \r\n%VERSION%\r\n 1 \r\n").as_deref(), Some("1"));
    assert_eq!(version_of_mutter("%NAME%\nmutter\n%VERSION%"), None);
}

#[test]
fn a_record_of_blanks_records_nothing() {
    assert_eq!(patched_version(" 50.4-2\n").as_deref(), Some("50.4-2"));
    assert_eq!(patched_version(" \n"), None);
}

#[test]
fn a_shell_with_a_deleted_library_is_stale() {
    let fresh = "7f00 r-xp /usr/lib/libmutter-16.so.0\n7f01 /tmp/x (deleted)\n";
    let stale = "7f00 r-xp /usr/lib/libmutter-16.so.0 (deleted)  \n";
    assert!(!running_shell_is_stale(fresh));
    assert!(running_shell_is_stale(stale));
    assert!(!running_shell_is_stale(""));
}

#[test]
fn the_shell_is_found_by_its_name() {
    let entry = |name: &str, comm: &str| ProcessEntry {
        name: name.to_string(),
        comm: comm.to_string(),
    };
    let entries = vec![
        entry("self", "gnome-shell\n"),
        entry("12", "bash\n"),
        entry("345", "gnome-shell\n"),
        entry("346", "gnome-shell\n"),
    ];
    assert_eq!(gnome_shell_pid(&entries), Some(345));
    assert_eq!(gnome_shell_pid(&entries[..2].to_vec()), None);
    for text in ["0", "+7", "4294967295", "4294967296", "-1", "", "+", "1a", "007", "١"] {
        assert_eq!(parse_pid(text), text.parse::<u32>().ok(), "{text}");
    }
}

#[test]
fn scaled_modes_take_a_request_and_a_patched_mutter() {
    let some = |s: &str| Some(s.to_string());
    let one = some("1");
    let v = some("50.4-2");
    assert!(scaled_modes_allowed(&one, &v, &v, false));
    assert_eq!(
        scaled_modes_verdict(&one, &v, &v, false),
        ModesVerdict::Allowed
    );
    assert_eq!(
        scaled_modes_verdict(&some("0"), &v, &v, false),
        ModesVerdict::NotRequested
    );
    assert_eq!(
        scaled_modes_verdict(&one, &v, &v, true),
        ModesVerdict::ShellIsStale
    );
    assert_eq!(
        scaled_modes_verdict(&one, &v, &some("50.5-1"), false),
        ModesVerdict::MutterChanged
    );
    assert!(!scaled_modes_allowed(&one, &None, &v, false));
    assert!(!scaled_modes_allowed(&one, &v, &None, false));
    assert!(patched_mutter_is_running(&v, &v, false));
    assert!(!patched_mutter_is_running(&None, &None, false));
    assert!(!patched_mutter_is_running(&v, &v, true));
}

#[test]
fn a_virtual_monitor_is_pinned_to_one_mode() {
    let config = DisplayConfig::default();
    assert_eq!(value(config.refresh_rate), 60.0);
    match record_request(&config) {
        RecordRequest::RecordVirtual {
            width,
            height,
            is_preferred,
            is_platform,
            cursor_mode,
            ..
        } => {
            assert_eq!((width, height, cursor_mode), (1920, 1080, 1));
            assert!(is_preferred && is_platform);
        }
        other => panic!("{other:?}"),
    }
    let mirror = DisplayConfig {
        source: CaptureSource::Monitor("DP-3".to_string()),
        cursor_mode: CursorMode::Metadata,
        ..DisplayConfig::default()
    };
    match record_request(&mirror) {
        RecordRequest::RecordMonitor {
            connector,
            cursor_mode,
        } => assert_eq!((connector.as_str(), cursor_mode), ("DP-3", 2)),
        other => panic!("{other:?}"),
    }
    assert_eq!(CursorMode::Hidden.to_u32(), 0);
}

fn replies(opening: &mut Opening, all: Vec<Reply>) -> Vec<OpenAction> {
    let mut actions = vec![opening.action()];
    for reply in all {
        opening.on_reply(reply);
        actions.push(opening.action());
    }
    actions
}

fn up_to_start() -> Vec<Reply> {
    vec![
        Reply::Done,
        Reply::Done,
        Reply::Done,
        Reply::Version(4),
        Reply::DeviceTypes(7),
        Reply::Done,
        Reply::Done,
        Reply::SessionId("u1".to_string()),
        Reply::Done,
        Reply::Done,
        Reply::Stream("/stream/1".to_string()),
        Reply::Done,
        Reply::Done,
        Reply::Done,
    ]
}

#[test]
fn a_session_opens_in_order() {
    let mut opening = Opening::new(DisplayConfig::default());
    let mut all = up_to_start();
    all.push(Reply::Node(42));
    let actions = replies(&mut opening, all);
    let at = |a: OpenAction| actions.iter().position(|x| *x == a).unwrap();
    assert!(at(OpenAction::ReadSessionId) < at(OpenAction::CreateScreenCastSession));
    assert!(at(OpenAction::SubscribeToStream) < at(OpenAction::StartRemoteDesktopSession));
    assert_eq!(actions.len(), 16);
    assert_eq!(opening.session_id(), "u1");
    assert!(opening.touch());
    assert!(matches!(opening.request(), RecordRequest::RecordVirtual { .. }));
    let mut session = opening.outcome().unwrap().unwrap();
    assert_eq!(session.node_id(), 42);
    assert_eq!(session.stream_path(), "/stream/1");
    assert_eq!(session.config().width, 1920);
    assert_eq!(session.close(), Some(CloseAction::StopRemoteDesktop));
    assert_eq!(session.close(), None);
}

#[test]
fn a_stream_that_never_appears_is_stopped() {
    let mut opening = Opening::new(DisplayConfig::default());
    let mut all = up_to_start();
    all.push(Reply::NoNode);
    let actions = replies(&mut opening, all);
    assert_eq!(
        *actions.last().unwrap(),
        OpenAction::StopRemoteDesktopSession
    );
    opening.on_reply(Reply::Failed("gone".to_string()));
    let error = opening.outcome().unwrap().unwrap_err();
    assert!(matches!(error, Error::NegotiationTimeout));
    assert_eq!(
        error.message(),
        "PipeWire stream negotiation timed out after 10s -- mutter never emitted \
         PipeWireStreamAdded"
    );
}

#[test]
fn a_session_that_cannot_open_says_why() {
    let mut opening = Opening::new(DisplayConfig::default());
    opening.on_reply(Reply::Failed("no bus".to_string()));
    let error = opening.outcome().unwrap().unwrap_err();
    assert_eq!(error.message(), "D-Bus error: no bus");

    let mut opening = Opening::new(DisplayConfig::default());
    opening.on_reply(Reply::Done);
    opening.on_reply(Reply::Failed("no service".to_string()));
    let error = opening.outcome().unwrap().unwrap_err();
    assert_eq!(
        error.message(),
        "this needs a GNOME/mutter session on the session bus -- is GNOME running?"
    );

    let mut opening = Opening::new(DisplayConfig::default());
    for _ in 0..3 {
        opening.on_reply(Reply::Done);
    }
    opening.on_reply(Reply::Version(2));
    let error = opening.outcome().unwrap().unwrap_err();
    assert_eq!(
        error.message(),
        "mutter's ScreenCast API is version 2, but virtual monitors with pinned modes need \
         version 3 (GNOME 46+)"
    );

    let mut opening = Opening::new(DisplayConfig::default());
    opening.on_reply(Reply::Node(1));
    assert_eq!(
        opening.outcome().unwrap().unwrap_err().message(),
        "D-Bus error: unexpected reply"
    );
    assert!(Opening::new(DisplayConfig::default()).outcome().is_none());
    assert_eq!(
        Error::NoTouchSupport(3).message(),
        "mutter reports no touchscreen support (SupportedDeviceTypes = 0b11)"
    );
}

#[test]
fn a_chord_is_let_go_in_reverse() {
    let chord = Chord {
        modifiers: vec![29, 56],
        key: 20,
    };
    let events: Vec<(u32, bool)> = chord_events(&chord)
        .iter()
        .map(|e| (e.keycode, e.pressed))
        .collect();
    assert_eq!(
        events,
        [
            (29, true),
            (56, true),
            (20, true),
            (20, false),
            (56, false),
            (29, false)
        ]
    );
}
