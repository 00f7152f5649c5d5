//! Picking and configuring an H.264 encoder.
//!
//! There is no single encoder that can be relied on, and they disagree on the units
//! of their `bitrate` property: an easy way to ship a stream of 1000 times the
//! intended size.

use vstd::prelude::*;

verus! {

/// An H.264 encoder we know how to drive.
#[derive(Debug, Clone, Copy, PartialEq, Eq, Structural)]
pub enum Encoder {
    /// Preferred: fastest, most accurate rate control, best quality per bit.
    X264,
    /// Fallback that is found on more machines.
    OpenH264,
}

/// The value of an element's property.
#[derive(Debug, Clone, Copy)]
pub enum Setting {
    Bool(bool),
    I32(i32),
    U32(u32),
    U64(u64),
    /// A whole number over 1.
    Fraction(i32),
    /// One of the words that the property understands.
    Word(&'static str),
}

/// A property that an element is given.
#[derive(Debug, Clone, Copy)]
pub struct Property {
    pub name: &'static str,
    pub value: Setting,
}

/// The frame rate of a desktop on which nothing happens, rounded up.
pub const IDLE_FRAMERATE: u32 = 12;

/// Two seconds of frames at the rate of an idle desktop, or at the nominal rate where
/// that is lower; at least 2.
pub open spec fn keyframe_interval(nominal_framerate: u32) -> int {
    if nominal_framerate == 0 {
        2
    } else if nominal_framerate < IDLE_FRAMERATE {
        2 * nominal_framerate
    } else {
        2 * IDLE_FRAMERATE
    }
}

/// Keyframe interval, in frames, targeting roughly two seconds of *wall clock*.
///
/// Both encoders count this in frames, but the real frame rate depends entirely
/// on how much of the screen is changing: about 11 fps on a still desktop
/// versus the nominal 60. Sizing against the nominal rate would mean a keyframe
/// only every ten seconds while idle, which is exactly when a tablet is most
/// likely to attach and need one.
pub fn keyframe_interval_frames(nominal_framerate: u32) -> (frames: u32)
    ensures
        frames == keyframe_interval(nominal_framerate),
{
    if nominal_framerate == 0 {
        2
    } else if nominal_framerate < IDLE_FRAMERATE {
        2 * nominal_framerate
    } else {
        2 * IDLE_FRAMERATE
    }
}

impl Encoder {
    /// Encoders in descending order of preference.
    pub const PREFERENCE: [Encoder; 2] = [Encoder::X264, Encoder::OpenH264];

    pub open spec fn element(self) -> &'static str {
        match self {
            Encoder::X264 => "x264enc",
            Encoder::OpenH264 => "openh264enc",
        }
    }

    pub open spec fn title(self) -> &'static str {
        match self {
            Encoder::X264 => "x264 (software, recommended)",
            Encoder::OpenH264 => "OpenH264 (software, fallback)",
        }
    }

    pub fn element_name(self) -> (name: &'static str)
        ensures
            name == self.element(),
    {
        match self {
            Encoder::X264 => "x264enc",
            Encoder::OpenH264 => "openh264enc",
        }
    }

    pub fn human_name(self) -> (name: &'static str)
        ensures
            name == self.title(),
    {
        match self {
            Encoder::X264 => "x264 (software, recommended)",
            Encoder::OpenH264 => "OpenH264 (software, fallback)",
        }
    }

    /// x264 wherever it is present, OpenH264 as the fallback.
    pub open spec fn preferred(x264_available: bool, openh264_available: bool) -> Option<Encoder> {
        if x264_available {
            Some(Encoder::X264)
        } else if openh264_available {
            Some(Encoder::OpenH264)
        } else {
            None
        }
    }

    /// Best encoder among those that are present.
    pub fn detect(x264_available: bool, openh264_available: bool) -> (found: Option<Encoder>)
        ensures
            found == Encoder::preferred(x264_available, openh264_available),
    {
        let mut i: usize = 0;
        let preference = Encoder::PREFERENCE;
        while i < 2
            invariant
                i <= 2,
                preference@ == seq![Encoder::X264, Encoder::OpenH264],
                i > 0 ==> !x264_available,
                i > 1 ==> !openh264_available,
            decreases 2 - i,
        {
            let encoder = preference[i];
            let available = match encoder {
                Encoder::X264 => x264_available,
                Encoder::OpenH264 => openh264_available,
            };
            if available {
                return Some(encoder);
            }
            i += 1;
        }
        None
    }

    /// What the `bitrate` property is set to for a rate in kbit/s, in the unit of this
    /// encoder, as far as it can be represented.
    pub open spec fn bitrate_value(self, kbps: u32) -> int {
        match self {
            Encoder::X264 => kbps as int,
            Encoder::OpenH264 => if kbps * 1000 > u32::MAX {
                u32::MAX as int
            } else {
                kbps * 1000
            },
        }
    }

    /// `bitrate` is kbit/s for x264enc but bit/s for openh264enc. Getting this
    /// wrong is a 1000x error, so the conversion lives in exactly one place.
    pub fn bitrate_property_value(self, kbps: u32) -> (value: u32)
        ensures
            value == self.bitrate_value(kbps),
    {
        match self {
            Encoder::X264 => kbps,
            Encoder::OpenH264 => match kbps.checked_mul(1000) {
                Some(bits) => bits,
                None => u32::MAX,
            },
        }
    }

    /// How the encoder is configured for low-latency streaming.
    pub open spec fn configured(self, kbps: u32, framerate: u32) -> Seq<Property> {
        let bitrate = Property {
            name: "bitrate",
            value: Setting::U32(self.bitrate_value(kbps) as u32),
        };
        let interval = Setting::U32(keyframe_interval(framerate) as u32);
        match self {
            Encoder::X264 => seq![
                bitrate,
                Property { name: "tune", value: Setting::Word("zerolatency") },
                Property { name: "speed-preset", value: Setting::Word("veryfast") },
                Property { name: "byte-stream", value: Setting::Word("true") },
                Property { name: "key-int-max", value: interval },
            ],
            Encoder::OpenH264 => seq![
                bitrate,
                Property { name: "rate-control", value: Setting::Word("bitrate") },
                Property { name: "complexity", value: Setting::Word("low") },
                Property { name: "gop-size", value: interval },
            ],
        }
    }

    /// The properties of the encoder's element for low-latency streaming.
    ///
    /// `zerolatency` disables lookahead and B-frames; without it the encoder buffers
    /// frames and adds tens of milliseconds. A byte stream can be fed straight to the
    /// tablet's decoder.
    pub fn build(self, kbps: u32, framerate: u32) -> (properties: Vec<Property>)
        ensures
            properties@ == self.configured(kbps, framerate),
    {
        let bitrate = Property {
            name: "bitrate",
            value: Setting::U32(self.bitrate_property_value(kbps)),
        };
        let interval = Setting::U32(keyframe_interval_frames(framerate));
        let mut properties: Vec<Property> = Vec::new();
        properties.push(bitrate);
        match self {
            Encoder::X264 => {
                properties.push(Property { name: "tune", value: Setting::Word("zerolatency") });
                properties.push(Property { name: "speed-preset", value: Setting::Word("veryfast") });
                properties.push(Property { name: "byte-stream", value: Setting::Word("true") });
                properties.push(Property { name: "key-int-max", value: interval });
            },
            Encoder::OpenH264 => {
                properties.push(Property { name: "rate-control", value: Setting::Word("bitrate") });
                properties.push(Property { name: "complexity", value: Setting::Word("low") });
                properties.push(Property { name: "gop-size", value: interval });
            },
        }
        assert(properties@ =~= self.configured(kbps, framerate));
        properties
    }
}

/// Bits per second that a setting of the `bitrate` property stands for.
pub open spec fn bits_per_second(encoder: Encoder, value: int) -> int {
    match encoder {
        Encoder::X264 => value * 1000,
        Encoder::OpenH264 => value,
    }
}

/// Both encoders are set to the rate that was asked for. The one that counts in bits
/// reaches its limit first.
pub proof fn law_encoders_agree_on_the_bitrate(encoder: Encoder, kbps: u32)
    requires
        encoder == Encoder::X264 || kbps * 1000 <= u32::MAX,
    ensures
        bits_per_second(encoder, encoder.bitrate_value(kbps)) == kbps * 1000,
{
}

/// A higher rate never sets a lower one.
pub proof fn law_bitrate_setting_is_monotone(encoder: Encoder, low: u32, high: u32)
    requires
        low <= high,
    ensures
        0 <= encoder.bitrate_value(low) <= encoder.bitrate_value(high) <= u32::MAX,
{
}

/// Keyframes come at least every other frame's time and at most two idle seconds
/// apart, whatever the nominal rate.
pub proof fn law_keyframes_are_never_far_apart(framerate: u32)
    ensures
        2 <= keyframe_interval(framerate) <= 2 * IDLE_FRAMERATE,
        framerate > 0 ==> keyframe_interval(framerate) <= 2 * framerate,
{
}

/// The property of this name is set to this value.
pub open spec fn sets(properties: Seq<Property>, name: &'static str, value: Setting) -> bool {
    properties.contains(Property { name, value })
}

/// Each encoder is named as GStreamer knows it and set for low latency: the rate that was
/// asked for in its own unit, no lookahead, and a keyframe at least every two seconds of
/// an idle desktop.
pub proof fn law_encoders_are_set_for_low_latency(encoder: Encoder, kbps: u32, framerate: u32)
    requires
        kbps * 1000 <= u32::MAX,
    ensures
        ({
            let properties = encoder.configured(kbps, framerate);
            let interval = Setting::U32(
                if framerate == 0 {
                    2
                } else if framerate <= 12 {
                    (2 * framerate) as u32
                } else {
                    24
                },
            );
            match encoder {
                Encoder::X264 => {
                    &&& encoder.element()@ == "x264enc"@
                    &&& sets(properties, "bitrate", Setting::U32(kbps))
                    &&& sets(properties, "tune", Setting::Word("zerolatency"))
                    &&& sets(properties, "speed-preset", Setting::Word("veryfast"))
                    &&& sets(properties, "byte-stream", Setting::Word("true"))
                    &&& sets(properties, "key-int-max", interval)
                    &&& properties.len() == 5
                },
                Encoder::OpenH264 => {
                    &&& encoder.element()@ == "openh264enc"@
                    &&& sets(properties, "bitrate", Setting::U32((kbps * 1000) as u32))
                    &&& sets(properties, "rate-control", Setting::Word("bitrate"))
                    &&& sets(properties, "complexity", Setting::Word("low"))
                    &&& sets(properties, "gop-size", interval)
                    &&& properties.len() == 4
                },
            }
        }),
{
    let properties = encoder.configured(kbps, framerate);
    assert(properties.contains(properties[0]));
    assert(properties.contains(properties[1]));
    assert(properties.contains(properties[2]));
    assert(properties.contains(properties[3]));
    if encoder == Encoder::X264 {
        assert(properties.contains(properties[4]));
    }
}

/// x264 is taken wherever it is there, OpenH264 only where it is not, and an encoder that
/// is not there never.
pub proof fn law_x264_comes_first(x264: bool, openh264: bool)
    ensures
        Encoder::preferred(x264, openh264) == Some(Encoder::X264) <==> x264,
        Encoder::preferred(x264, openh264) == Some(Encoder::OpenH264) <==> !x264 && openh264,
        Encoder::preferred(x264, openh264) is None <==> !x264 && !openh264,
{
}

/// x264 is told kbit/s and OpenH264 bit/s, as far as the number goes.
pub proof fn law_the_bitrate_is_told_in_the_right_unit(kbps: u32)
    ensures
        Encoder::X264.bitrate_value(kbps) == kbps,
        kbps <= 4_294_967 ==> Encoder::OpenH264.bitrate_value(kbps) == 1000 * kbps,
        kbps > 4_294_967 ==> Encoder::OpenH264.bitrate_value(kbps) == 0xffff_ffff,
{
}

/// A keyframe comes every two seconds of the nominal rate up to 12 frames per second, and
/// every 24 frames above that.
pub proof fn law_two_seconds_between_keyframes(framerate: u32)
    ensures
        0 < framerate <= 12 ==> keyframe_interval(framerate) == 2 * framerate,
        framerate > 12 ==> keyframe_interval(framerate) == 24,
        framerate == 0 ==> keyframe_interval(framerate) == 2,
{
}

} // verus!
