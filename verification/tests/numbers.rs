use extraspace::binary64::{divide_i32, divide_u32, measure, nearest, Binary64, ONE, THREE};
use extraspace::format::format_bitrate;
use extraspace::text::{
    chars_of, find, lines, owned, push_binary, push_decimal, push_hex, push_signed, text_eq, trim,
    white_space,
};

fn number(x: f64) -> Binary64 {
    Binary64 { bits: x.to_bits() }
}

fn samples() -> Vec<f64> {
    let mut all = vec![
        0.0,
        -0.0,
        1.0,
        -1.0,
        0.1,
        0.3,
        1.1,
        1.25,
        1.3,
        1.3333333730697632,
        1.5,
        1.6,
        1.7,
        1.75,
        2.0,
        2.3,
        3.0,
        99.0,
        1e-3,
        1e-9,
        1e9,
        1e18,
        1e300,
        1e-300,
        5e-324,
        f64::MAX,
        f64::MIN_POSITIVE,
        f64::INFINITY,
        f64::NEG_INFINITY,
        f64::NAN,
        -2.5,
        -1e300,
    ];
    // A simple generator over all patterns, and one over ordinary scales.
    let mut seed: u64 = 0x9e37_79b9_7f4a_7c15;
    for _ in 0..400 {
        seed = seed.wrapping_mul(6364136223846793005).wrapping_add(1442695040888963407);
        all.push(f64::from_bits(seed));
        all.push(0.5 + (seed >> 11) as f64 / (1u64 << 51) as f64);
    }
    all
}

#[test]
fn quotients_are_those_of_the_hardware() {
    for by in samples() {
        for n in [0u32, 1, 2, 3, 7, 639, 640, 1200, 1999, 2000, 65_535, 1_000_003, u32::MAX] {
            assert_eq!(
                divide_u32(n, number(by)),
                (n as f64 / by).round() as u32,
                "{n} / {by}"
            );
        }
        for n in [0i32, 1, -1, 5, -5, 1080, -1080, 1920, i32::MAX, i32::MIN] {
            assert_eq!(
                divide_i32(n, number(by)),
                (n as f64 / by).round() as i32,
                "{n} / {by}"
            );
        }
    }
}

#[test]
fn clamping_is_that_of_the_hardware() {
    for x in samples() {
        let clamped = number(x).clamp(Binary64 { bits: ONE }, Binary64 { bits: THREE });
        let expected = x.clamp(1.0, 3.0);
        if expected.is_nan() {
            assert!(f64::from_bits(clamped.bits).is_nan());
        } else {
            assert_eq!(f64::from_bits(clamped.bits), expected, "{x}");
        }
    }
}

#[test]
fn distances_are_those_of_the_hardware() {
    let all = samples();
    for (i, a) in all.iter().enumerate() {
        for b in all.iter().skip(i % 7).step_by(7) {
            let expected = (a - b).abs();
            match measure(number(*a), number(*b)) {
                Some(d) => assert_eq!(f64::from_bits(d.bits), expected, "{a} {b}"),
                None => assert!(expected.is_nan(), "{a} {b}"),
            }
        }
    }
}

#[test]
fn the_nearest_option_is_the_one_an_iterator_finds() {
    let options = [1.0, 1.25, 1.5, 1.75, 2.0, f64::NAN, 1.6];
    let patterns: Vec<Binary64> = options.iter().map(|x| number(*x)).collect();
    for wanted in samples() {
        let expected = options
            .iter()
            .enumerate()
            .min_by(|(_, a), (_, b)| {
                (*a - wanted)
                    .abs()
                    .partial_cmp(&(*b - wanted).abs())
                    .unwrap_or(std::cmp::Ordering::Equal)
            })
            .map(|(i, _)| i)
            .unwrap();
        assert_eq!(nearest(&patterns, number(wanted)), expected, "{wanted}");
    }
}

#[test]
fn whole_numbers_keep_their_value() {
    for n in [0u32, 1, 2, 3, 24, 30, 60, 144, 1_000_003, u32::MAX] {
        assert_eq!(f64::from_bits(Binary64::whole(n).bits), n as f64);
    }
}

#[test]
fn infinities_and_what_is_no_number_are_told_apart() {
    assert!(number(f64::NAN).nan());
    assert!(!number(f64::INFINITY).nan());
    assert!(number(f64::NEG_INFINITY).infinite());
    assert!(!number(1.0).infinite());
}

#[test]
fn formats_bitrate_readably() {
    assert_eq!(format_bitrate(15_000), "15.0 Mbps");
    assert_eq!(format_bitrate(6_500), "6.5 Mbps");
    assert_eq!(format_bitrate(800), "800 kbps");
}

#[test]
fn bitrates_are_rounded_as_the_hardware_rounds_them() {
    let mut kbps: Vec<u32> = (0..30_000).collect();
    kbps.extend([123_450, 999_950, 1_000_050, 4_294_967_250, u32::MAX]);
    for k in kbps {
        let expected = if k >= 1000 {
            format!("{:.1} Mbps", k as f64 / 1000.0)
        } else {
            format!("{k} kbps")
        };
        assert_eq!(format_bitrate(k), expected);
    }
}

#[test]
fn numbers_are_written_in_every_base() {
    let mut text = String::new();
    push_decimal(&mut text, 18_446_744_073_709_551_615);
    text.push(' ');
    push_decimal(&mut text, 0);
    text.push(' ');
    push_signed(&mut text, -2_147_483_648);
    text.push(' ');
    push_hex(&mut text, 0x0100_0000_0000_0002, 16);
    text.push(' ');
    push_binary(&mut text, 5);
    assert_eq!(
        text,
        "18446744073709551615 0 -2147483648 0100000000000002 101"
    );
}

#[test]
fn white_space_is_what_unicode_says() {
    for n in 0..=0x10_ffff {
        if let Some(c) = char::from_u32(n) {
            assert_eq!(white_space(c), c.is_whitespace(), "{n:x}");
        }
    }
}

#[test]
fn texts_are_searched_and_split() {
    let text = chars_of("  a\nbc\n\n d ");
    let kept: String = trim(&text).iter().collect();
    assert_eq!(kept, "a\nbc\n\n d");
    let split: Vec<String> = lines(&text).iter().map(|l| l.iter().collect()).collect();
    assert_eq!(split, "  a\nbc\n\n d ".lines().collect::<Vec<_>>());
    assert_eq!(find(&text, &chars_of("bc")), Some(4));
    assert_eq!(find(&text, &chars_of("cb")), None);
    assert_eq!(find(&text, &[]), Some(0));
    assert!(text_eq("ä…", "ä…"));
    assert!(!text_eq("a", "ab"));
    assert_eq!(owned("…"), "…");
}
