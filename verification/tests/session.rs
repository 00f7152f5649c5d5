use extraspace::adaptive::{AdaptiveController, BitrateBounds, HealthSample};
use extraspace::binary64::Binary64;
use extraspace::mutter::session::{CaptureSource, CursorMode};
use extraspace::session::config::{DisplayMode, SessionConfig};
use extraspace::session::connect::{
    camera_control, check_protocol, codec, controller_for, display_for, no_hello, video_for,
    ConnectStage, HelloStep, HelloWait,
};
use extraspace::session::engine::{
    camera_warning, state_for_error, teardown, Command, ConnectError, Engine, State, Streaming,
    Teardown,
};
use extraspace::session::fps::{FpsCounter, FrameRate};
use extraspace::session::health::{
    ControlAction, ControlFrame, ControlTask, DeviceStats, EncoderCounts, TouchAction, TouchCall,
    TouchEvent, WritePace,
};
use extraspace::session::size::{starting_bitrate, virtual_size_for};

fn number(x: f64) -> Binary64 {
    Binary64 { bits: x.to_bits() }
}

fn size(w: u32, h: u32, scale: f64) -> (u32, u32) {
    virtual_size_for(w, h, number(scale))
}

fn fps(counter: &FpsCounter) -> f64 {
    match counter.fps() {
        Some(rate) => rate.intervals as f64 / (rate.span_ns as f64 / 1e9),
        None => 0.0,
    }
}

fn streaming() -> Streaming {
    Streaming {
        device: "T Tablet".to_string(),
        encoder: "x264".to_string(),
        width: 1332,
        height: 800,
    }
}

#[test]
fn native_scale_streams_the_full_panel() {
    assert_eq!(size(2000, 1200, 1.0), (2000, 1200));
}

#[test]
fn scaling_shrinks_the_monitor_so_ui_looks_bigger() {
    assert_eq!(size(2000, 1200, 1.5), (1332, 800));
    assert_eq!(size(2000, 1200, 2.0), (1000, 600));
}

#[test]
fn dimensions_are_always_even_for_h264() {
    for scale in [1.0, 1.1, 1.25, 1.3, 1.5, 1.75, 2.0, 2.3, 3.0] {
        let (w, h) = size(2000, 1200, scale);
        assert_eq!(w % 2, 0, "width {w} odd at scale {scale}");
        assert_eq!(h % 2, 0, "height {h} odd at scale {scale}");
    }
}

#[test]
fn absurd_scales_are_clamped_rather_than_producing_a_useless_monitor() {
    let (w, h) = size(2000, 1200, 99.0);
    assert!(w >= 640 && h >= 480, "got {w}x{h}");
    assert_eq!(size(2000, 1200, 0.1), (2000, 1200));
}

#[test]
fn odd_panels_lose_one_row() {
    assert_eq!(size(2001, 1201, 1.0), (2000, 1200));
    assert_eq!(size(2001, 1201, -4.0), (2000, 1200));
    // What is no number gives the smallest monitor.
    assert_eq!(size(2000, 1200, f64::NAN), (640, 480));
    assert_eq!(size(100, 100, 1.0), (640, 480));
}

#[test]
fn a_higher_scale_never_streams_more() {
    let mut last = u32::MAX;
    for i in 0..400 {
        let (w, _) = size(2560, 1600, 0.9 + i as f64 * 0.006);
        assert!(w <= last);
        last = w;
    }
}

#[test]
fn starting_bitrate_is_reasonable_and_bounded() {
    let bounds = BitrateBounds::default();
    let kbps = starting_bitrate(1332, 800, 60, bounds);
    assert!(
        (bounds.min_kbps..=bounds.max_kbps).contains(&kbps),
        "got {kbps}"
    );
    assert_eq!(starting_bitrate(640, 480, 30, bounds), bounds.min_kbps);
    assert_eq!(starting_bitrate(3840, 2160, 60, bounds), bounds.max_kbps);
}

#[test]
fn starting_bitrate_is_a_fifth_of_a_bit_per_pixel() {
    let wide = BitrateBounds {
        min_kbps: 0,
        max_kbps: u32::MAX,
    };
    assert_eq!(starting_bitrate(1332, 800, 60, wide), 12_787);
    for (w, h, f) in [
        (1332u32, 800u32, 60u32),
        (640, 480, 30),
        (1000, 600, 60),
        (2000, 1200, 120),
        (0, 9, 9),
        (65_536, 65_536, 1000),
        (u32::MAX, u32::MAX, u32::MAX),
    ] {
        let expected = (w as f64 * h as f64 * f as f64 * 0.2 / 1000.0) as u32;
        assert_eq!(starting_bitrate(w, h, f, wide), expected, "{w}x{h}@{f}");
    }
}

#[test]
fn fps_counter_measures_a_steady_stream() {
    let mut c = FpsCounter::new();
    let t0: u64 = 5_000_000_000;
    for i in 0..60 {
        c.tick(t0 + 16_667_000 * i);
    }
    assert!((fps(&c) - 60.0).abs() < 1.0, "got {}", fps(&c));
    assert_eq!(
        c.fps(),
        Some(FrameRate {
            intervals: 59,
            span_ns: 59 * 16_667_000
        })
    );
}

#[test]
fn fps_counter_is_zero_before_it_has_evidence() {
    let mut c = FpsCounter::new();
    assert_eq!(fps(&c), 0.0);
    c.tick(5_000_000_000);
    assert_eq!(fps(&c), 0.0);
    // Two frames at the same time show nothing either.
    c.tick(5_000_000_000);
    assert_eq!(c.fps(), None);
}

#[test]
fn fps_counter_forgets_old_ticks() {
    let mut c = FpsCounter::new();
    let t0: u64 = 5_000_000_000;
    for i in 0..60 {
        c.tick(t0 + 16_667_000 * i);
    }
    c.tick(t0 + 10_000_000_000);
    assert_eq!(fps(&c), 0.0);
}

#[test]
fn a_tick_at_the_edge_of_the_window_still_counts() {
    let mut c = FpsCounter::new();
    c.tick(1_000_000_000);
    c.tick(3_000_000_000);
    assert_eq!(
        c.fps(),
        Some(FrameRate {
            intervals: 1,
            span_ns: 2_000_000_000
        })
    );
    c.tick(3_000_000_001);
    assert_eq!(
        c.fps(),
        Some(FrameRate {
            intervals: 1,
            span_ns: 1
        })
    );
}

#[test]
fn a_session_extends_the_desktop_by_default() {
    let config = SessionConfig::default();
    assert_eq!(config.mode, DisplayMode::Extend);
    assert_eq!(f64::from_bits(config.scale.bits), 1.5);
    assert_eq!(config.framerate, 60);
    assert_eq!(config.apk_version, 1);
    assert_eq!(config.camera_id, "0");
    assert!(config.mirror_source.is_none() && config.apk_path.is_none());
    assert!(!config.camera_enabled && !config.wants_first_monitor());
    let monitors = vec!["DP-3".to_string()];
    assert_eq!(config.capture_source(&monitors), CaptureSource::Virtual);
}

#[test]
fn mirroring_falls_back_to_the_first_monitor_and_then_to_extending() {
    let mut config = SessionConfig {
        mode: DisplayMode::Mirror,
        ..SessionConfig::default()
    };
    let monitors = vec!["DP-3".to_string(), "HDMI-1".to_string()];
    assert!(config.wants_first_monitor());
    assert_eq!(
        config.capture_source(&monitors),
        CaptureSource::Monitor("DP-3".to_string())
    );
    assert_eq!(config.capture_source(&[]), CaptureSource::Virtual);
    config.mirror_source = Some("HDMI-1".to_string());
    assert!(!config.wants_first_monitor());
    assert_eq!(
        config.capture_source(&monitors),
        CaptureSource::Monitor("HDMI-1".to_string())
    );
}

#[test]
fn the_tablet_has_eight_frames_to_introduce_itself() {
    let mut wait = HelloWait::new();
    for _ in 0..7 {
        assert_eq!(wait.on_frame(false), HelloStep::Next);
    }
    assert_eq!(wait.on_frame(false), HelloStep::GiveUp);
    let mut wait = HelloWait::new();
    for _ in 0..7 {
        wait.on_frame(false);
    }
    assert_eq!(wait.on_frame(true), HelloStep::Greeting);
    assert_eq!(no_hello(), "tablet never sent a Hello message");
}

#[test]
fn both_sides_speak_the_same_protocol() {
    assert_eq!(check_protocol(3, 3), Ok(()));
    assert_eq!(
        check_protocol(2, 3),
        Err("the tablet app speaks protocol v2 but this build speaks v3. \
             Reinstall the companion app."
            .to_string())
    );
}

#[test]
fn a_connection_goes_through_its_stages() {
    let mut stage = ConnectStage::FindTablet;
    let mut words = Vec::new();
    let mut all = vec![stage];
    words.extend(stage.step());
    while let Some(next) = stage.next(true) {
        words.extend(next.step());
        all.push(next);
        stage = next;
    }
    assert_eq!(
        words,
        [
            "Looking for your tablet…",
            "Waiting for the tablet to introduce itself…",
            "Creating the display…",
            "Starting the video pipeline…"
        ]
    );
    assert_eq!(all.len(), 9);
    assert_eq!(all[7], ConnectStage::SendCameraControl);
    assert_eq!(
        ConnectStage::RequestKeyframe.next(false),
        Some(ConnectStage::RunTasks)
    );
}

#[test]
fn a_tablet_gets_a_monitor_and_a_bitrate() {
    let config = SessionConfig::default();
    let display = display_for(&config, 2000, 1200, &[]);
    assert_eq!((display.width, display.height), (1332, 800));
    assert_eq!(f64::from_bits(display.refresh_rate.bits), 60.0);
    assert_eq!(display.cursor_mode, CursorMode::Metadata);
    assert_eq!(display.source, CaptureSource::Virtual);
    let video = video_for(&config, 1332, 800);
    assert_eq!(
        (video.width, video.height, video.framerate, video.bitrate_kbps),
        (1332, 800, 60, 12_787)
    );
    assert_eq!(controller_for(&config, &video).current_kbps(), 12_787);
}

#[test]
fn the_stream_is_h264() {
    assert_eq!(codec(), "h264");
}

#[test]
fn the_camera_is_asked_for_full_hd() {
    let control = camera_control(true, "1");
    assert!(control.enabled);
    assert_eq!(control.camera_id, "1");
    assert_eq!((control.width, control.height), (1920, 1080));
    assert_eq!((control.framerate, control.bitrate_kbps), (30, 8_000));
    assert_eq!(camera_warning("busy"), "Camera: busy");
}

#[test]
fn failures_the_user_can_fix_have_states_of_their_own() {
    assert_eq!(
        state_for_error(&ConnectError::Unauthorized("T Tablet".to_string())),
        State::Unauthorized {
            device: "T Tablet".to_string()
        }
    );
    assert_eq!(state_for_error(&ConnectError::NoDevice), State::NoTablet);
    assert_eq!(
        state_for_error(&ConnectError::Other("no usable encoder".to_string())),
        State::Failed {
            message: "no usable encoder".to_string()
        }
    );
}

#[test]
fn the_engine_keeps_one_session() {
    let (mut engine, state) = Engine::new(SessionConfig::default());
    assert_eq!(state, State::Idle);
    let plan = engine.on_command(Command::Connect);
    assert!(plan.connect && !plan.shut_down && !plan.idle && !plan.exit);
    assert_eq!(
        engine.on_connection(Ok(streaming())),
        State::Streaming {
            device: "T Tablet".to_string(),
            width: 1332,
            height: 800,
            encoder: "x264".to_string()
        }
    );
    assert!(engine.is_active());
    let plan = engine.on_command(Command::Connect);
    assert!(!plan.connect && !plan.shut_down);

    let plan = engine.on_command(Command::SetScale(number(2.0)));
    assert!(plan.connect && plan.shut_down);
    assert!(!engine.is_active());
    assert_eq!(f64::from_bits(engine.config().scale.bits), 2.0);
    assert_eq!(
        engine.on_connection(Err(ConnectError::NoDevice)),
        State::NoTablet
    );
    assert!(!engine.is_active());
}

#[test]
fn settings_without_a_session_are_only_remembered() {
    let (mut engine, _) = Engine::new(SessionConfig::default());
    let bounds = BitrateBounds {
        min_kbps: 1_000,
        max_kbps: 2_000,
    };
    let plan = engine.on_command(Command::SetBitrateBounds(bounds));
    assert!(plan.retune.is_none());
    let plan = engine.on_command(Command::SetCamera {
        enabled: true,
        camera_id: "1".to_string(),
    });
    assert!(plan.camera.is_none());
    let plan = engine.on_command(Command::SetMode(DisplayMode::Mirror));
    assert!(!plan.connect && !plan.shut_down);
    assert_eq!(engine.config().bounds.max_kbps, 2_000);
    assert!(engine.config().camera_enabled);
    assert_eq!(engine.config().camera_id, "1");
    assert_eq!(engine.config().mode, DisplayMode::Mirror);
}

#[test]
fn a_running_session_is_retuned_in_place() {
    let (mut engine, _) = Engine::new(SessionConfig::default());
    engine.on_command(Command::Connect);
    engine.on_connection(Ok(streaming()));
    let bounds = BitrateBounds {
        min_kbps: 1_000,
        max_kbps: 2_000,
    };
    let plan = engine.on_command(Command::SetBitrateBounds(bounds));
    assert_eq!(plan.retune.map(|b| b.max_kbps), Some(2_000));
    assert!(!plan.shut_down && engine.is_active());
    let plan = engine.on_command(Command::SetCamera {
        enabled: false,
        camera_id: "3".to_string(),
    });
    assert_eq!(plan.camera, Some((false, "3".to_string())));
    let plan = engine.on_command(Command::SetMode(DisplayMode::Mirror));
    assert!(plan.shut_down && plan.connect);
}

#[test]
fn disconnecting_and_shutting_down_end_the_session() {
    let (mut engine, _) = Engine::new(SessionConfig::default());
    let plan = engine.on_command(Command::Disconnect);
    assert!(plan.idle && !plan.shut_down && !plan.exit);
    engine.on_command(Command::Connect);
    engine.on_connection(Ok(streaming()));
    let plan = engine.on_command(Command::Disconnect);
    assert!(plan.idle && plan.shut_down);
    let plan = engine.on_command(Command::Shutdown);
    assert!(plan.exit && !plan.shut_down && !plan.idle);
    assert_eq!(teardown()[0], Teardown::Tasks);
    assert_eq!(teardown().len(), 4);
}

#[test]
fn touches_become_calls() {
    let mut task = ControlTask::new(0);
    let mut controller = AdaptiveController::new(BitrateBounds::default(), 15_000);
    let counts = EncoderCounts {
        encoded: 0,
        dropped: 0,
        bytes: 0,
    };
    let touch = TouchEvent {
        action: TouchAction::Down,
        slot: 2,
        x: number(3.5),
        y: number(4.0),
    };
    assert_eq!(
        task.on_frame(ControlFrame::Touch(Some(touch)), 1, counts, &mut controller),
        ControlAction::Inject(TouchCall::Down {
            slot: 2,
            x: number(3.5),
            y: number(4.0)
        })
    );
    let up = TouchEvent {
        action: TouchAction::Up,
        ..touch
    };
    assert_eq!(
        task.on_frame(ControlFrame::Touch(Some(up)), 1, counts, &mut controller),
        ControlAction::Inject(TouchCall::Up { slot: 2 })
    );
    let motion = TouchEvent {
        action: TouchAction::Motion,
        ..touch
    };
    assert_eq!(
        motion.to_call(),
        TouchCall::Motion {
            slot: 2,
            x: number(3.5),
            y: number(4.0)
        }
    );
    assert_eq!(
        task.on_frame(ControlFrame::Touch(None), 1, counts, &mut controller),
        ControlAction::Malformed
    );
    assert_eq!(
        task.on_frame(ControlFrame::Other, 1, counts, &mut controller),
        ControlAction::Nothing
    );
    assert_eq!(
        task.on_frame(ControlFrame::Report(None), 1, counts, &mut controller),
        ControlAction::Nothing
    );
}

#[test]
fn reports_feed_the_controller_and_the_window() {
    let mut task = ControlTask::new(1_000_000_000);
    let mut controller = AdaptiveController::new(BitrateBounds::default(), 15_000);
    let counts = EncoderCounts {
        encoded: 50,
        dropped: 3,
        bytes: 1_000_000,
    };
    // The round trip took 250 ms.
    let pong = ControlFrame::Pong { sent_us: 1_000_000 };
    task.on_frame(pong, 1_250_000_000, counts, &mut controller);
    let device = DeviceStats {
        frames_dropped: 4,
        decode_queue_depth: 1,
    };
    let report = ControlFrame::Report(Some(device));
    let (stats, sample, new_kbps) = match task.on_frame(
        report,
        1_500_000_000,
        counts,
        &mut controller,
    ) {
        ControlAction::Report {
            stats,
            sample,
            new_kbps,
        } => (stats, sample, new_kbps),
        other => panic!("{other:?}"),
    };
    assert_eq!(
        sample,
        HealthSample {
            decode_queue_depth: 1,
            dropped_delta: 7,
            rtt_us: 250_000
        }
    );
    assert_eq!(new_kbps, None);
    assert_eq!(stats.produced.bytes, 1_000_000);
    assert_eq!(stats.produced.elapsed_ns, 500_000_000);
    assert_eq!(stats.latency_us, 250_000);
    assert_eq!((stats.frames_encoded, stats.frames_dropped), (50, 7));
    assert_eq!(stats.fps, None);

    // The second report in a row of the same kind lowers the bitrate.
    let counts = EncoderCounts {
        encoded: 60,
        dropped: 3,
        bytes: 1_400_000,
    };
    match task.on_frame(report, 2_000_000_000, counts, &mut controller) {
        ControlAction::Report {
            stats,
            sample,
            new_kbps,
        } => {
            assert_eq!(sample.dropped_delta, 0);
            assert_eq!(new_kbps, Some(11_250));
            assert_eq!(stats.produced.bytes, 400_000);
            assert_eq!(
                stats.fps,
                Some(FrameRate {
                    intervals: 1,
                    span_ns: 500_000_000
                })
            );
        }
        other => panic!("{other:?}"),
    }
    // A report at the same instant is still measured over a millisecond.
    match task.on_frame(report, 2_000_000_000, counts, &mut controller) {
        ControlAction::Report { stats, .. } => assert_eq!(stats.produced.elapsed_ns, 1_000_000),
        other => panic!("{other:?}"),
    }
}

#[test]
fn a_pong_from_the_future_means_no_delay() {
    let mut task = ControlTask::new(0);
    let mut controller = AdaptiveController::new(BitrateBounds::default(), 15_000);
    let counts = EncoderCounts {
        encoded: 0,
        dropped: 0,
        bytes: 0,
    };
    let pong = ControlFrame::Pong { sent_us: 10 };
    assert_eq!(
        task.on_frame(pong, 9_000, counts, &mut controller),
        ControlAction::Nothing
    );
    let report = ControlFrame::Report(Some(DeviceStats {
        frames_dropped: 0,
        decode_queue_depth: 0,
    }));
    match task.on_frame(report, 10_000, counts, &mut controller) {
        ControlAction::Report { sample, .. } => assert_eq!(sample.rtt_us, 0),
        other => panic!("{other:?}"),
    }
}

#[test]
fn slow_writes_and_long_pauses_are_worth_a_warning() {
    let mut pace = WritePace::default();
    assert!(!pace.observe(49_999, 19_999));
    assert!(pace.observe(10, 20_000));
    assert!(pace.observe(50_000, 10));
    let window = pace.take();
    assert_eq!((window.max_write_us, window.max_inter_us), (20_000, 50_000));
    let window = pace.take();
    assert_eq!((window.max_write_us, window.max_inter_us), (0, 0));
}
