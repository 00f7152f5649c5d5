use extraspace::adaptive::{
    AdaptiveController, BitrateBounds, HealthSample, DROPS_TOLERATED, GOOD_SAMPLES_BEFORE_INCREASE,
};

fn secs(n: u64) -> u64 {
    n * 1_000_000_000
}

fn millis(n: u64) -> u64 {
    n * 1_000_000
}

fn good() -> HealthSample {
    HealthSample {
        decode_queue_depth: 0,
        dropped_delta: 0,
        rtt_us: 20_000,
    }
}

fn bad() -> HealthSample {
    HealthSample {
        decode_queue_depth: 5,
        dropped_delta: 3,
        rtt_us: 200_000,
    }
}

fn controller() -> AdaptiveController {
    AdaptiveController::new(BitrateBounds::default(), 15_000)
}

#[test]
fn backs_off_after_sustained_trouble() {
    let mut c = controller();
    let t0 = secs(5);
    assert_eq!(c.observe(bad(), t0), None);
    let changed = c.observe(bad(), t0 + secs(2));
    assert_eq!(changed, Some(11_250));
}

#[test]
fn a_single_bad_sample_is_ignored() {
    let mut c = controller();
    let t0 = secs(5);
    assert_eq!(c.observe(bad(), t0), None);
    assert_eq!(c.observe(good(), t0 + secs(2)), None);
    assert_eq!(c.observe(bad(), t0 + secs(3)), None);
    assert_eq!(c.current_kbps(), 15_000);
}

#[test]
fn recovers_slowly_and_only_after_many_good_samples() {
    let mut c = AdaptiveController::new(BitrateBounds::default(), 10_000);
    let t0 = secs(5);
    for i in 0..(GOOD_SAMPLES_BEFORE_INCREASE - 1) {
        assert_eq!(
            c.observe(good(), t0 + secs(2 + i as u64)),
            None,
            "should not raise bitrate after only {} good samples",
            i + 1
        );
    }
    let t = t0 + secs(60);
    assert_eq!(c.observe(good(), t), Some(11_000));
}

#[test]
fn never_leaves_the_configured_bounds() {
    let bounds = BitrateBounds {
        min_kbps: 5_000,
        max_kbps: 20_000,
    };
    let mut c = AdaptiveController::new(bounds, 6_000);
    let mut t = secs(5);
    for _ in 0..200 {
        t += secs(2);
        c.observe(bad(), t);
    }
    assert_eq!(c.current_kbps(), bounds.min_kbps);

    for _ in 0..2000 {
        t += secs(2);
        c.observe(good(), t);
    }
    assert_eq!(c.current_kbps(), bounds.max_kbps);
}

#[test]
fn respects_the_minimum_change_interval() {
    let mut c = controller();
    let t0 = secs(5);
    c.observe(bad(), t0);
    assert!(c.observe(bad(), t0 + secs(2)).is_some());
    c.observe(bad(), t0 + secs(2));
    assert_eq!(c.observe(bad(), t0 + millis(2100)), None);
}

#[test]
fn an_occasional_dropped_frame_is_not_treated_as_congestion() {
    let mut c = AdaptiveController::new(BitrateBounds::default(), 12_000);
    let noisy = HealthSample {
        decode_queue_depth: 0,
        dropped_delta: DROPS_TOLERATED,
        rtt_us: 20_000,
    };
    let t0 = secs(5);
    for i in 0..20 {
        let t = t0 + secs(2 + i);
        assert!(
            c.observe(noisy, t).is_none_or(|kbps| kbps >= 12_000),
            "must not back off on tolerated drops"
        );
    }
    assert_eq!(c.current_kbps(), 12_000, "should have held steady");
}

#[test]
fn sustained_heavy_drops_still_back_off() {
    let mut c = AdaptiveController::new(BitrateBounds::default(), 12_000);
    let heavy = HealthSample {
        decode_queue_depth: 0,
        dropped_delta: DROPS_TOLERATED + 1,
        rtt_us: 20_000,
    };
    let t0 = secs(5);
    c.observe(heavy, t0);
    assert!(c.observe(heavy, t0 + secs(2)).is_some());
}

#[test]
fn high_rtt_alone_is_enough_to_back_off() {
    let mut c = controller();
    let laggy = HealthSample {
        decode_queue_depth: 0,
        dropped_delta: 0,
        rtt_us: 300_000,
    };
    let t0 = secs(5);
    c.observe(laggy, t0);
    assert!(c.observe(laggy, t0 + secs(2)).is_some());
}

#[test]
fn tightening_bounds_pulls_current_bitrate_into_range() {
    let mut c = AdaptiveController::new(BitrateBounds::default(), 25_000);
    c.set_bounds(BitrateBounds {
        min_kbps: 4_000,
        max_kbps: 8_000,
    });
    assert_eq!(c.current_kbps(), 8_000);
    assert_eq!(c.bounds().max_kbps, 8_000);
}

#[test]
fn the_first_change_may_come_at_once() {
    let mut c = controller();
    assert_eq!(c.observe(bad(), 0), None);
    assert_eq!(c.observe(bad(), 0), Some(11_250));
}

#[test]
fn backing_off_rounds_down() {
    // Three quarters of 6001 is 4500.75.
    let bounds = BitrateBounds {
        min_kbps: 1,
        max_kbps: 50_000,
    };
    let mut c = AdaptiveController::new(bounds, 6_001);
    c.observe(bad(), 0);
    assert_eq!(c.observe(bad(), secs(2)), Some(4_500));
}

#[test]
fn nothing_is_reported_at_the_floor() {
    let mut c = AdaptiveController::new(BitrateBounds::default(), 6_000);
    c.observe(bad(), 0);
    assert_eq!(c.observe(bad(), secs(2)), None);
    assert_eq!(c.current_kbps(), 6_000);
}

#[test]
fn a_queue_of_three_is_trouble_and_one_is_health() {
    let at = |depth: u32| HealthSample {
        decode_queue_depth: depth,
        dropped_delta: 0,
        rtt_us: 0,
    };
    let mut c = controller();
    c.observe(at(3), 0);
    assert_eq!(c.observe(at(3), secs(2)), Some(11_250));
    let mut c = controller();
    for i in 0..30 {
        assert_eq!(c.observe(at(2), secs(2 * i)), None);
    }
    let mut c = controller();
    for i in 0..(GOOD_SAMPLES_BEFORE_INCREASE - 1) {
        assert_eq!(c.observe(at(1), secs(2 * i as u64)), None);
    }
    assert_eq!(c.observe(at(1), secs(60)), Some(16_000));
}

#[test]
fn the_rails_are_reached_in_as_many_samples_as_the_steps_take() {
    let bounds = BitrateBounds::default();
    let mut c = AdaptiveController::new(bounds, 50_000);
    for i in 0..15 {
        c.observe(bad(), secs(2 * i));
        assert!(c.current_kbps() > bounds.min_kbps);
    }
    assert_eq!(c.observe(bad(), secs(30)), Some(bounds.min_kbps));
    for i in 0..439 {
        c.observe(good(), secs(40 + 2 * i));
        assert!(c.current_kbps() < bounds.max_kbps);
    }
    assert_eq!(c.observe(good(), secs(1000)), Some(bounds.max_kbps));
}
