//! The resolution that is streamed, and the bitrate it starts at.

use vstd::arithmetic::power2::{lemma_pow2_pos, pow2};
use vstd::prelude::*;

use crate::adaptive::BitrateBounds;
use crate::binary64::{
    divide_u32, law_named_patterns, law_quotients_are_the_nearest_integers, lemma_dividing_by_one,
    lemma_larger_divisor, lemma_patterns_are_ordered, quotient_within, Binary64, ONE, SIGN, THREE,
};

verus! {

/// The smallest monitor that is of use.
pub const LEAST_WIDTH: u32 = 640;

pub const LEAST_HEIGHT: u32 = 480;

/// The scale that is applied: at least 1, at most 3.
pub open spec fn applied_scale(scale: Binary64) -> Binary64 {
    scale.clamped(Binary64 { bits: ONE }, Binary64 { bits: THREE })
}

/// One dimension of the monitor: that of the panel divided by the scale, not below
/// `least`, and rounded down to an even number.
pub open spec fn virtual_extent(panel: u32, scale: Binary64, least: u32) -> int {
    let scaled = quotient_within(panel as int, applied_scale(scale), 0, u32::MAX as int);
    let extent = if scaled < least {
        least as int
    } else {
        scaled
    };
    extent - extent % 2
}

fn extent(panel: u32, scale: Binary64, least: u32) -> (extent: u32)
    ensures
        extent == virtual_extent(panel, scale, least),
{
    let scale = scale.clamp(Binary64 { bits: ONE }, Binary64 { bits: THREE });
    let scaled: u32 = divide_u32(panel, scale);
    let e: u32 = if scaled < least {
        least
    } else {
        scaled
    };
    assert(e & !1u32 == e - e % 2) by (bit_vector);
    e & !1u32
}

/// Turns a panel size and a scale into the resolution to actually stream.
///
/// The virtual monitor is created smaller than the panel and the tablet scales it up
/// to fill the panel, so that everything on it is drawn larger. A panel of 2000x1200
/// at a scale of 1.5 becomes a monitor of 1332x800.
///
/// Dimensions are even because 4:2:0 chroma cannot represent an odd width or height.
pub fn virtual_size_for(panel_width: u32, panel_height: u32, scale: Binary64) -> (size: (u32, u32))
    ensures
        size.0 == virtual_extent(panel_width, scale, LEAST_WIDTH),
        size.1 == virtual_extent(panel_height, scale, LEAST_HEIGHT),
        size.0 % 2 == 0,
        size.1 % 2 == 0,
        size.0 >= LEAST_WIDTH,
        size.1 >= LEAST_HEIGHT,
        size.0 >= 640,
        size.1 >= 480,
        usual(scale) ==> is_panel_over_scale(size.0 as int, panel_width, scale, 640)
            && is_panel_over_scale(size.1 as int, panel_height, scale, 480),
{
    proof {
        if usual(scale) {
            law_the_monitor_is_the_panel_over_the_scale(panel_width, scale, LEAST_WIDTH);
            law_the_monitor_is_the_panel_over_the_scale(panel_height, scale, LEAST_HEIGHT);
        }
    }
    (extent(panel_width, scale, LEAST_WIDTH), extent(panel_height, scale, LEAST_HEIGHT))
}

proof fn lemma_applied_scale(scale: Binary64)
    requires
        !scale.is_nan(),
    ensures
        ONE <= applied_scale(scale).bits <= THREE,
        applied_scale(scale).units() >= (Binary64 { bits: ONE }).units() > 0,
        !applied_scale(scale).is_nan(),
        !applied_scale(scale).is_infinite(),
{
    let one = Binary64 { bits: ONE };
    let three = Binary64 { bits: THREE };
    lemma_dividing_by_one(0);
    lemma_patterns_are_ordered(one, three);
    if scale.bits < ONE {
        lemma_patterns_are_ordered(scale, one);
    } else if THREE < scale.bits < SIGN {
        lemma_patterns_are_ordered(three, scale);
    }
}

/// The monitor is never larger than the panel, nor than the smallest monitor.
pub proof fn law_no_more_pixels_than_the_panel_has(panel: u32, scale: Binary64, least: u32)
    ensures
        virtual_extent(panel, scale, least) <= panel || virtual_extent(panel, scale, least)
            <= least,
{
    if !scale.is_nan() {
        lemma_applied_scale(scale);
        lemma_dividing_by_one(panel as nat);
        lemma_larger_divisor(panel as nat, Binary64 { bits: ONE }, applied_scale(scale));
    }
}

/// A scale of at most 1 streams the whole panel, up to one odd row or column.
pub proof fn law_native_scale_streams_the_full_panel(panel: u32, scale: Binary64, least: u32)
    requires
        !scale.is_nan(),
        scale.is_negative() || scale.units() <= (Binary64 { bits: ONE }).units(),
        panel >= least,
    ensures
        virtual_extent(panel, scale, least) == panel - panel % 2,
{
    lemma_dividing_by_one(panel as nat);
    let one = Binary64 { bits: ONE };
    lemma_patterns_are_ordered(one, Binary64 { bits: THREE });
    if scale.bits < ONE {
        lemma_patterns_are_ordered(scale, one);
    } else if ONE < scale.bits < SIGN {
        lemma_patterns_are_ordered(one, scale);
    }
}

/// A higher scale never streams more pixels.
pub proof fn law_higher_scale_costs_no_more_pixels(
    panel: u32,
    low: Binary64,
    high: Binary64,
    least: u32,
)
    requires
        !low.is_nan(),
        !high.is_nan(),
        low.signed_units() <= high.signed_units(),
    ensures
        virtual_extent(panel, high, least) <= virtual_extent(panel, low, least),
{
    let a = applied_scale(low);
    let b = applied_scale(high);
    lemma_applied_scale(low);
    lemma_applied_scale(high);
    lemma_patterns_are_ordered(Binary64 { bits: ONE }, Binary64 { bits: THREE });
    assert(a.units() <= b.units());
    lemma_larger_divisor(panel as nat, a, b);
    lemma_even_floor(panel, low, high, least);
}

proof fn lemma_even_floor(panel: u32, low: Binary64, high: Binary64, least: u32)
    requires
        quotient_within(panel as int, applied_scale(high), 0, u32::MAX as int) <= quotient_within(
            panel as int,
            applied_scale(low),
            0,
            u32::MAX as int,
        ),
    ensures
        virtual_extent(panel, high, least) <= virtual_extent(panel, low, least),
{
}

/// The scale is a number from 1 to 3.
pub open spec fn usual(scale: Binary64) -> bool {
    &&& scale.is_finite()
    &&& !scale.is_negative()
    &&& pow2(1074) <= scale.units() <= 3 * pow2(1074)
}

/// The extent is the panel's over the scale, to the nearest whole number and then down to
/// an even one: what is missing is at most a pixel and a half, and what is too much at
/// most a half and a millionth. Where the panel over the scale falls short of `least`,
/// the extent is that.
pub open spec fn is_panel_over_scale(extent: int, panel: u32, scale: Binary64, least: int) -> bool {
    let exact = panel as nat * pow2(1074);
    &&& extent % 2 == 0
    &&& exact >= least * scale.units() ==> {
        &&& 2 * exact <= (2 * extent + 3) * scale.units()
        &&& 0x10_0000 * (2 * (extent * scale.units()) - 2 * exact - scale.units())
            <= scale.units()
    }
    &&& exact <= least * scale.units() ==> extent == least - least % 2
}

/// A scale from 1 to 3 is applied as it is: the monitor is the panel over the very scale
/// that was asked for.
pub proof fn law_the_monitor_is_the_panel_over_the_scale(panel: u32, scale: Binary64, least: u32)
    requires
        usual(scale),
    ensures
        is_panel_over_scale(virtual_extent(panel, scale, least), panel, scale, least as int),
{
    law_named_patterns();
    lemma_pow2_pos(1074);
    let u = scale.units();
    let exact = panel as nat * pow2(1074);
    assert(exact <= u32::MAX * u) by (nonlinear_arith)
        requires
            exact == panel as nat * pow2(1074),
            panel <= u32::MAX,
            0 < pow2(1074) <= u,
    ;
    law_quotients_are_the_nearest_integers(panel as int, scale, 0, u32::MAX as int);
    let q = quotient_within(panel as int, scale, 0, u32::MAX as int);
    let e = virtual_extent(panel, scale, least);
    if exact >= least * u {
        assert(q >= least) by (nonlinear_arith)
            requires
                2 * exact <= (2 * q + 1) * u,
                exact >= least * u,
                u > 0,
        ;
        assert(2 * exact <= (2 * e + 3) * u) by (nonlinear_arith)
            requires
                2 * exact <= (2 * q + 1) * u,
                e >= q - 1,
                u > 0,
        ;
        assert(e * u <= q * u) by (nonlinear_arith)
            requires
                e <= q,
                u > 0,
        ;
    }
    if exact <= least * u {
        assert(q <= least) by (nonlinear_arith)
            requires
                0x10_0000 * (2 * (q * u) - 2 * exact - u) <= u,
                exact <= least * u,
                u > 0,
        {
            if q >= least + 1 {
                assert(q * u >= (least + 1) * u);
                assert((least + 1) * u == least * u + u);
            }
        }
    }
}

/// All scales from 3 on do the same, and so do all scales up to 1.
pub proof fn law_extreme_scales_are_alike(panel: u32, a: Binary64, b: Binary64, least: u32)
    requires
        !a.is_nan(),
        !b.is_nan(),
        (a.signed_units() >= 3 * pow2(1074) && b.signed_units() >= 3 * pow2(1074)) || (
        a.signed_units() <= pow2(1074) && b.signed_units() <= pow2(1074)),
    ensures
        virtual_extent(panel, a, least) == virtual_extent(panel, b, least),
{
    law_named_patterns();
    lemma_pow2_pos(1074);
    let one = Binary64 { bits: ONE };
    let three = Binary64 { bits: THREE };
    lemma_same_number(a, one);
    lemma_same_number(b, one);
    lemma_same_number(a, three);
    lemma_same_number(b, three);
}

/// Numbers without a sign bit that are equal have the same pattern.
proof fn lemma_same_number(a: Binary64, b: Binary64)
    ensures
        !a.is_negative() && !b.is_negative() && a.units() == b.units() ==> a == b,
{
    if !a.is_negative() && !b.is_negative() {
        if a.bits < b.bits {
            lemma_patterns_are_ordered(a, b);
        } else if b.bits < a.bits {
            lemma_patterns_are_ordered(b, a);
        }
    }
}

/// What is no number gives the smallest monitor.
pub proof fn law_no_number_gives_the_smallest_monitor(panel: u32, scale: Binary64, least: u32)
    requires
        scale.is_nan(),
    ensures
        virtual_extent(panel, scale, least) == least - least % 2,
{
}

/// The opening bitrate is a fifth of a bit for every pixel of every frame, in whole
/// kbit/s, wherever the bounds allow that.
pub proof fn law_a_fifth_of_a_bit_per_pixel(
    width: u32,
    height: u32,
    framerate: u32,
    bounds: BitrateBounds,
)
    requires
        bounds.min_kbps <= bounds.max_kbps,
    ensures
        ({
            let kbps = bounds.nearest(bitrate_for(width, height, framerate));
            let pixels = (width as int) * (height as int) * (framerate as int);
            &&& bounds.min_kbps <= kbps <= bounds.max_kbps
            &&& kbps > bounds.min_kbps ==> 5000 * kbps <= pixels
            &&& kbps < bounds.max_kbps ==> pixels < 5000 * (kbps + 1)
        }),
{
    let pixels = (width as int) * (height as int) * (framerate as int);
    assert(pixels >= 0) by (nonlinear_arith)
        requires
            pixels == (width as int) * (height as int) * (framerate as int),
            width >= 0,
            height >= 0,
            framerate >= 0,
    ;
}

/// The bitrate for 0.2 bits per pixel per frame, in kbit/s, as far as it can be
/// represented.
pub open spec fn bitrate_for(width: u32, height: u32, framerate: u32) -> int {
    let kbps = (width as int) * (height as int) * (framerate as int) / 5000;
    if kbps > u32::MAX {
        u32::MAX as int
    } else {
        kbps
    }
}

/// A sensible opening bitrate, so the first second does not look terrible while
/// the controller finds its level.
///
/// 0.2 bits per pixel per frame: text and sharp edges are what suffers from less, and
/// USB has the headroom.
pub fn starting_bitrate(width: u32, height: u32, framerate: u32, bounds: BitrateBounds) -> (kbps:
    u32)
    requires
        bounds.ordered(),
    ensures
        kbps == bounds.nearest(bitrate_for(width, height, framerate)),
        bounds.contains(kbps),
        kbps > bounds.min_kbps ==> 5000 * kbps <= (width as int) * (height as int) * (
        framerate as int),
        kbps < bounds.max_kbps ==> (width as int) * (height as int) * (framerate as int) < 5000 * (
        kbps + 1),
{
    proof {
        law_a_fifth_of_a_bit_per_pixel(width, height, framerate, bounds);
    }
    assert(0 <= (width as int) * (height as int) <= 0xffff_ffff * 0xffff_ffff) by (nonlinear_arith)
        requires
            0 <= width <= 0xffff_ffff,
            0 <= height <= 0xffff_ffff,
    ;
    let pixels: u128 = width as u128 * height as u128;
    assert(0 <= pixels * framerate <= 0xffff_ffff_ffff_ffff * 0xffff_ffff) by (nonlinear_arith)
        requires
            0 <= pixels <= 0xffff_ffff_ffff_ffff,
            0 <= framerate <= 0xffff_ffff,
    ;
    let rate: u128 = pixels * framerate as u128 / 5000;
    let kbps: u32 = if rate > u32::MAX as u128 {
        u32::MAX
    } else {
        rate as u32
    };
    bounds.clamp(kbps)
}

} // verus!
