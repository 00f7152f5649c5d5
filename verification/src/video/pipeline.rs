//! The video pipeline: what it is made of, and what happens to each encoded frame.
//!
//! Captured frames go through a rate limiter, a colour conversion, the encoder and a
//! parser. The rate limiter only ever drops: one that fills holes builds seconds of
//! latency on a desktop that is mostly idle. Encoded frames leave through a bounded
//! channel; a frame that finds it full is dropped, for a stale frame has no value.

use bytes::Bytes;
use vstd::prelude::*;

use crate::text::text_eq;
use crate::video::encoder::{Encoder, Property, Setting};
use crate::video::pacing::{PaceModel, StagePace, GAP_WARN_US};

verus! {

/// `bytes::Bytes`: a cheaply cloneable piece of memory.
#[verifier::external_type_specification]
#[verifier::external_body]
pub struct ExBytes(Bytes);

/// The bytes that a `bytes::Bytes` holds.
pub uninterp spec fn contents(data: Bytes) -> Seq<u8>;

/// `bytes::Bytes::copy_from_slice`: holds a copy of exactly the bytes of the slice.
#[verifier::external_body]
fn copy_bytes(data: &[u8]) -> (copy: Bytes)
    ensures
        contents(copy) == data@,
{
    Bytes::copy_from_slice(data)
}

/// `bytes::Bytes::len`: the number of bytes held.
#[verifier::external_body]
fn byte_count(data: &Bytes) -> (n: usize)
    ensures
        n == contents(*data).len(),
{
    data.len()
}

/// `<bytes::Bytes as Clone>::clone`: another handle to the same bytes.
pub assume_specification[ <Bytes as Clone>::clone ](data: &Bytes) -> (copy: Bytes)
    ensures
        contents(copy) == contents(*data),
;

/// Encoded frames buffered before frames are dropped. One on purpose: a stale
/// frame has no value, and a deeper queue is how a short stall becomes a hitch.
pub const FRAME_QUEUE_DEPTH: usize = 1;

/// What keeps a pipeline from running.
#[derive(Debug, Clone)]
pub enum Error {
    Init(String),
    NoEncoder,
    ElementMissing { element: &'static str },
    Pipeline(String),
    Capture(String),
    Link(String),
}

impl Error {
    /// What the user is told.
    pub open spec fn text(self) -> Seq<char> {
        match self {
            Error::Init(e) => "GStreamer init failed: "@ + e@,
            Error::NoEncoder =>
                "no usable H.264 encoder found. Install gstreamer1-plugins-ugly (for x264enc) or gstreamer1-plugin-openh264."@,
            Error::ElementMissing { element } => "could not build the '"@ + element@
                + "' element -- is its GStreamer plugin installed?"@,
            Error::Pipeline(e) => "GStreamer pipeline error: "@ + e@,
            Error::Capture(e) => "PipeWire capture failed: "@ + e@,
            Error::Link(e) => "failed to link the pipeline: "@ + e@,
        }
    }

    pub fn message(&self) -> (message: String)
        ensures
            message@ == self.text(),
    {
        let mut message = String::new();
        match self {
            Error::Init(e) => {
                message.append("GStreamer init failed: ");
                message.append(e.as_str());
            },
            Error::NoEncoder => {
                message.append(
                    "no usable H.264 encoder found. Install gstreamer1-plugins-ugly (for x264enc) or gstreamer1-plugin-openh264.",
                );
            },
            Error::ElementMissing { element } => {
                message.append("could not build the '");
                message.append(element);
                message.append("' element -- is its GStreamer plugin installed?");
            },
            Error::Pipeline(e) => {
                message.append("GStreamer pipeline error: ");
                message.append(e.as_str());
            },
            Error::Capture(e) => {
                message.append("PipeWire capture failed: ");
                message.append(e.as_str());
            },
            Error::Link(e) => {
                message.append("failed to link the pipeline: ");
                message.append(e.as_str());
            },
        }
        assert(message@ =~= self.text());
        message
    }
}

/// Without an encoder there is no pipeline.
pub fn require_encoder(found: Option<Encoder>) -> (encoder: Result<Encoder, Error>)
    ensures
        match found {
            Some(e) => encoder == Ok::<Encoder, Error>(e),
            None => encoder == Err::<Encoder, Error>(Error::NoEncoder),
        },
{
    match found {
        Some(e) => Ok(e),
        None => Err(Error::NoEncoder),
    }
}

/// The failure that an element which cannot be built amounts to. The encoder is known
/// to be installed, so its own reason is kept.
pub fn build_failure(encoder: Encoder, factory: &'static str, reason: String) -> (error: Error)
    ensures
        error == if factory@ == encoder.element()@ {
            Error::Link(reason)
        } else {
            Error::ElementMissing { element: factory }
        },
{
    if text_eq(factory, encoder.element_name()) {
        Error::Link(reason)
    } else {
        Error::ElementMissing { element: factory }
    }
}

#[derive(Debug, Clone, Copy, PartialEq, Eq, Structural)]
pub struct VideoConfig {
    pub width: u32,
    pub height: u32,
    pub framerate: u32,
    pub bitrate_kbps: u32,
}

impl Default for VideoConfig {
    fn default() -> (config: VideoConfig)
        ensures
            config == (VideoConfig {
                width: 1920,
                height: 1080,
                framerate: 60,
                bitrate_kbps: 15_000,
            }),
    {
        VideoConfig { width: 1920, height: 1080, framerate: 60, bitrate_kbps: 15_000 }
    }
}

/// A media type with the fields that are fixed.
#[derive(Debug, Clone)]
pub struct CapsPlan {
    pub media: &'static str,
    pub fields: Vec<Property>,
}

/// One element of the pipeline.
#[derive(Debug, Clone)]
pub struct ElementPlan {
    pub factory: &'static str,
    pub settings: Vec<Property>,
    pub caps: Option<CapsPlan>,
}

#[verifier::ext_equal]
pub struct ElementModel {
    pub factory: &'static str,
    pub settings: Seq<Property>,
    pub caps: Option<(&'static str, Seq<Property>)>,
}

impl View for ElementPlan {
    type V = ElementModel;

    open spec fn view(&self) -> ElementModel {
        ElementModel {
            factory: self.factory,
            settings: self.settings@,
            caps: match self.caps {
                Some(caps) => Some((caps.media, caps.fields@)),
                None => None,
            },
        }
    }
}

impl DeepView for ElementPlan {
    type V = ElementModel;

    open spec fn deep_view(&self) -> ElementModel {
        self@
    }
}

/// The source of captured frames.
pub open spec fn source_element(config: VideoConfig) -> ElementModel {
    ElementModel {
        factory: "appsrc",
        settings: seq![
            Property { name: "format", value: Setting::Word("time") },
            Property { name: "is-live", value: Setting::Bool(true) },
            Property { name: "block", value: Setting::Bool(false) },
            Property { name: "max-buffers", value: Setting::U64(1) },
            Property { name: "leaky-type", value: Setting::Word("downstream") },
            Property { name: "name", value: Setting::Word("cursor-overlay") },
        ],
        caps: Some(
            (
                "video/x-raw",
                seq![
                    Property { name: "format", value: Setting::Word("BGRx") },
                    Property { name: "width", value: Setting::I32(config.width as i32) },
                    Property { name: "height", value: Setting::I32(config.height as i32) },
                    Property {
                        name: "framerate",
                        value: Setting::Fraction(config.framerate as i32),
                    },
                ],
            ),
        ),
    }
}

/// The rate limiter.
pub open spec fn rate_element() -> ElementModel {
    ElementModel {
        factory: "videorate",
        settings: seq![
            Property { name: "drop-only", value: Setting::Bool(true) },
            Property { name: "skip-to-first", value: Setting::Bool(true) },
        ],
        caps: None,
    }
}

/// A filter that lets one media type pass.
pub open spec fn filter_element(media: &'static str, fields: Seq<Property>) -> ElementModel {
    ElementModel { factory: "capsfilter", settings: Seq::empty(), caps: Some((media, fields)) }
}

/// The end of the pipeline. It hands frames on as fast as they are encoded and does
/// not pace them to the clock.
pub open spec fn sink_element() -> ElementModel {
    ElementModel {
        factory: "appsink",
        settings: seq![
            Property { name: "max-buffers", value: Setting::U32(FRAME_QUEUE_DEPTH as u32) },
            Property { name: "drop", value: Setting::Bool(true) },
            Property { name: "sync", value: Setting::Bool(false) },
            Property { name: "name", value: Setting::Word("frames") },
        ],
        caps: None,
    }
}

/// The elements of the pipeline, in the order in which they are linked.
pub open spec fn pipeline_elements(encoder: Encoder, config: VideoConfig) -> Seq<ElementModel> {
    seq![
        source_element(config),
        rate_element(),
        filter_element(
            "video/x-raw",
            seq![
                Property {
                    name: "framerate",
                    value: Setting::Fraction(config.framerate as i32),
                },
            ],
        ),
        ElementModel { factory: "videoconvert", settings: Seq::empty(), caps: None },
        filter_element(
            "video/x-raw",
            seq![Property { name: "format", value: Setting::Word("I420") }],
        ),
        ElementModel {
            factory: encoder.element(),
            settings: encoder.configured(config.bitrate_kbps, config.framerate),
            caps: None,
        },
        ElementModel {
            factory: "h264parse",
            settings: seq![Property { name: "config-interval", value: Setting::I32(-1i32) }],
            caps: None,
        },
        filter_element(
            "video/x-h264",
            seq![
                Property { name: "stream-format", value: Setting::Word("byte-stream") },
                Property { name: "alignment", value: Setting::Word("au") },
            ],
        ),
        sink_element(),
    ]
}

fn filter(media: &'static str, fields: Vec<Property>) -> (plan: ElementPlan)
    ensures
        plan@ == filter_element(media, fields@),
{
    let plan = ElementPlan {
        factory: "capsfilter",
        settings: Vec::new(),
        caps: Some(CapsPlan { media, fields }),
    };
    assert(plan@ =~= filter_element(media, fields@));
    plan
}

fn source(config: VideoConfig) -> (plan: ElementPlan)
    ensures
        plan@ == source_element(config),
{
    let plan = ElementPlan {
        factory: "appsrc",
        settings: vec![
            Property { name: "format", value: Setting::Word("time") },
            Property { name: "is-live", value: Setting::Bool(true) },
            Property { name: "block", value: Setting::Bool(false) },
            Property { name: "max-buffers", value: Setting::U64(1) },
            Property { name: "leaky-type", value: Setting::Word("downstream") },
            Property { name: "name", value: Setting::Word("cursor-overlay") },
        ],
        caps: Some(
            CapsPlan {
                media: "video/x-raw",
                fields: vec![
                    Property { name: "format", value: Setting::Word("BGRx") },
                    Property { name: "width", value: Setting::I32(config.width as i32) },
                    Property { name: "height", value: Setting::I32(config.height as i32) },
                    Property {
                        name: "framerate",
                        value: Setting::Fraction(config.framerate as i32),
                    },
                ],
            },
        ),
    };
    assert(plan@.settings =~= source_element(config).settings);
    assert((plan@.caps->0).1 =~= (source_element(config).caps->0).1);
    plan
}

fn limiter() -> (plan: ElementPlan)
    ensures
        plan@ == rate_element(),
{
    let plan = ElementPlan {
        factory: "videorate",
        settings: vec![
            Property { name: "drop-only", value: Setting::Bool(true) },
            Property { name: "skip-to-first", value: Setting::Bool(true) },
        ],
        caps: None,
    };
    assert(plan@ =~= rate_element());
    plan
}

fn sink() -> (plan: ElementPlan)
    ensures
        plan@ == sink_element(),
{
    let plan = ElementPlan {
        factory: "appsink",
        settings: vec![
            Property { name: "max-buffers", value: Setting::U32(FRAME_QUEUE_DEPTH as u32) },
            Property { name: "drop", value: Setting::Bool(true) },
            Property { name: "sync", value: Setting::Bool(false) },
            Property { name: "name", value: Setting::Word("frames") },
        ],
        caps: None,
    };
    assert(plan@ =~= sink_element());
    plan
}

/// What the pipeline is made of.
///
/// Headers are repeated on every keyframe: the tablet may attach late or reconnect,
/// and without them its decoder cannot start.
pub fn pipeline_plan(encoder: Encoder, config: VideoConfig) -> (elements: Vec<ElementPlan>)
    ensures
        elements.deep_view() == pipeline_elements(encoder, config),
{
    let mut elements: Vec<ElementPlan> = Vec::new();
    elements.push(source(config));
    elements.push(limiter());
    let rate = vec![
        Property { name: "framerate", value: Setting::Fraction(config.framerate as i32) },
    ];
    let ghost rate_fields = rate@;
    elements.push(filter("video/x-raw", rate));
    elements.push(ElementPlan { factory: "videoconvert", settings: Vec::new(), caps: None });
    let planar = vec![Property { name: "format", value: Setting::Word("I420") }];
    let ghost planar_fields = planar@;
    elements.push(filter("video/x-raw", planar));
    elements.push(
        ElementPlan {
            factory: encoder.element_name(),
            settings: encoder.build(config.bitrate_kbps, config.framerate),
            caps: None,
        },
    );
    elements.push(
        ElementPlan {
            factory: "h264parse",
            settings: vec![Property { name: "config-interval", value: Setting::I32(-1) }],
            caps: None,
        },
    );
    let stream = vec![
        Property { name: "stream-format", value: Setting::Word("byte-stream") },
        Property { name: "alignment", value: Setting::Word("au") },
    ];
    let ghost stream_fields = stream@;
    elements.push(filter("video/x-h264", stream));
    elements.push(sink());
    proof {
        let expected = pipeline_elements(encoder, config);
        assert(rate_fields =~= (expected[2].caps->0).1);
        assert(planar_fields =~= (expected[4].caps->0).1);
        assert(stream_fields =~= (expected[7].caps->0).1);
        assert(elements@[3]@ =~= expected[3]);
        assert(elements@[6]@ =~= expected[6]);
        assert(elements.deep_view() =~= expected);
    }
    elements
}

/// The pipeline never invents a frame: its rate limiter only drops.
pub proof fn law_the_pipeline_never_invents_frames(encoder: Encoder, config: VideoConfig, i: int)
    requires
        0 <= i < pipeline_elements(encoder, config).len(),
        pipeline_elements(encoder, config)[i].factory == "videorate",
    ensures
        pipeline_elements(encoder, config)[i].settings.contains(
            Property { name: "drop-only", value: Setting::Bool(true) },
        ),
{
    let elements = pipeline_elements(encoder, config);
    reveal_strlit("videorate");
    reveal_strlit("appsrc");
    reveal_strlit("capsfilter");
    reveal_strlit("videoconvert");
    reveal_strlit("x264enc");
    reveal_strlit("openh264enc");
    reveal_strlit("h264parse");
    reveal_strlit("appsink");
    assert("videorate"@[8] == 'e');
    assert("h264parse"@[0] == 'h');
    assert("videorate"@[0] == 'v');
    assert(i == 1);
    assert(elements[1].settings[0] == (Property { name: "drop-only", value: Setting::Bool(true) }));
}

/// One encoded access unit.
#[derive(Debug)]
pub struct EncodedFrame {
    pub data: Bytes,
    pub pts_us: u64,
    pub keyframe: bool,
}

#[verifier::ext_equal]
pub struct FrameModel {
    pub data: Seq<u8>,
    pub pts_us: u64,
    pub keyframe: bool,
}

impl View for EncodedFrame {
    type V = FrameModel;

    open spec fn view(&self) -> FrameModel {
        FrameModel {
            data: contents(self.data),
            pts_us: self.pts_us,
            keyframe: self.keyframe,
        }
    }
}

impl Clone for EncodedFrame {
    fn clone(&self) -> (copy: EncodedFrame)
        ensures
            copy@ == self@,
    {
        EncodedFrame { data: self.data.clone(), pts_us: self.pts_us, keyframe: self.keyframe }
    }
}

impl EncodedFrame {
    /// The size of the access unit.
    pub fn size(&self) -> (bytes: usize)
        ensures
            bytes == self@.data.len(),
    {
        byte_count(&self.data)
    }
}

/// Counters for the UI's statistics panel and the adaptive controller. They wrap
/// around.
#[derive(Debug, Clone, Copy, PartialEq, Eq, Structural)]
pub struct VideoStats {
    pub frames_encoded: u64,
    pub frames_dropped: u64,
    pub bytes_encoded: u64,
    pub last_au_bytes: u64,
    pub last_keyframe_bytes: u64,
}

impl Default for VideoStats {
    fn default() -> (stats: VideoStats)
        ensures
            stats == (VideoStats {
                frames_encoded: 0,
                frames_dropped: 0,
                bytes_encoded: 0,
                last_au_bytes: 0,
                last_keyframe_bytes: 0,
            }),
    {
        VideoStats {
            frames_encoded: 0,
            frames_dropped: 0,
            bytes_encoded: 0,
            last_au_bytes: 0,
            last_keyframe_bytes: 0,
        }
    }
}

/// What became of a frame that was offered to the transport.
#[derive(Debug, Clone, Copy, PartialEq, Eq, Structural)]
pub enum Delivery {
    Taken,
    /// The transport is behind.
    Full,
    /// Nobody is listening any more.
    Closed,
}

impl VideoStats {
    /// `(encoded, dropped, bytes)`
    pub fn snapshot(&self) -> (counts: (u64, u64, u64))
        ensures
            counts == (self.frames_encoded, self.frames_dropped, self.bytes_encoded),
    {
        (self.frames_encoded, self.frames_dropped, self.bytes_encoded)
    }

    /// Once a frame of this size was encoded.
    pub open spec fn with_frame(self, bytes: u64, keyframe: bool) -> VideoStats {
        VideoStats {
            bytes_encoded: self.bytes_encoded.wrapping_add(bytes),
            last_au_bytes: bytes,
            last_keyframe_bytes: if keyframe {
                bytes
            } else {
                self.last_keyframe_bytes
            },
            ..self
        }
    }

    /// Once a frame was offered to the transport.
    pub open spec fn with_delivery(self, delivery: Delivery) -> VideoStats {
        match delivery {
            Delivery::Taken => VideoStats {
                frames_encoded: self.frames_encoded.wrapping_add(1),
                ..self
            },
            Delivery::Full => VideoStats {
                frames_dropped: self.frames_dropped.wrapping_add(1),
                ..self
            },
            Delivery::Closed => self,
        }
    }

    /// Notes what became of a frame. Whether the stream goes on.
    ///
    /// Dropping a frame when the transport is behind keeps latency bounded; the
    /// adaptive controller sees it and lowers the bitrate.
    pub fn settle(&mut self, delivery: Delivery) -> (flowing: bool)
        ensures
            *final(self) == old(self).with_delivery(delivery),
            flowing == (delivery != Delivery::Closed),
    {
        match delivery {
            Delivery::Taken => {
                self.frames_encoded = self.frames_encoded.wrapping_add(1);
                true
            },
            Delivery::Full => {
                self.frames_dropped = self.frames_dropped.wrapping_add(1);
                true
            },
            Delivery::Closed => false,
        }
    }
}

/// Takes an encoded access unit from the encoder at `now`: copies it, counts it and
/// notes its pace. A unit that does not depend on others is a keyframe. The second
/// part is a gap worth a warning, in microseconds.
pub fn take_access_unit(
    unit: &[u8],
    pts_us: Option<u64>,
    delta: bool,
    now: u64,
    stats: &mut VideoStats,
    pace: &mut StagePace,
) -> (taken: (EncodedFrame, Option<u64>))
    ensures
        taken.0@ == (FrameModel {
            data: unit@,
            pts_us: match pts_us {
                Some(us) => us,
                None => 0,
            },
            keyframe: !delta,
        }),
        *final(stats) == old(stats).with_frame(unit@.len() as u64, !delta),
        final(pace)@ == old(pace)@.observed(now),
        taken.1 == match old(pace)@.gap(now) {
            Some(gap) => if gap >= GAP_WARN_US {
                Some(gap)
            } else {
                None
            },
            None => None,
        },
{
    let keyframe = !delta;
    let bytes: u64 = unit.len() as u64;
    let frame = EncodedFrame {
        data: copy_bytes(unit),
        pts_us: match pts_us {
            Some(us) => us,
            None => 0,
        },
        keyframe,
    };
    stats.bytes_encoded = stats.bytes_encoded.wrapping_add(bytes);
    stats.last_au_bytes = bytes;
    if keyframe {
        stats.last_keyframe_bytes = bytes;
    }
    let gap = pace.observe(now);
    (frame, gap)
}

impl VideoStats {
    /// After all of these deliveries.
    pub open spec fn with_deliveries(self, deliveries: Seq<Delivery>) -> VideoStats
        decreases deliveries.len(),
    {
        if deliveries.len() == 0 {
            self
        } else {
            self.with_deliveries(deliveries.drop_last()).with_delivery(deliveries.last())
        }
    }
}

/// Every frame that is offered while the stream goes on is counted once: as encoded or
/// as dropped.
pub proof fn law_frames_are_encoded_or_dropped(stats: VideoStats, deliveries: Seq<Delivery>)
    requires
        stats.frames_encoded + stats.frames_dropped + deliveries.len() <= u64::MAX,
        forall|i: int| 0 <= i < deliveries.len() ==> deliveries[i] != Delivery::Closed,
    ensures
        ({
            let end = stats.with_deliveries(deliveries);
            end.frames_encoded + end.frames_dropped == stats.frames_encoded + stats.frames_dropped
                + deliveries.len()
        }),
        stats.with_deliveries(deliveries).bytes_encoded == stats.bytes_encoded,
    decreases deliveries.len(),
{
    if deliveries.len() > 0 {
        let before = deliveries.drop_last();
        assert forall|i: int| 0 <= i < before.len() implies before[i] != Delivery::Closed by {
            assert(deliveries[i] != Delivery::Closed);
        }
        assert(deliveries.last() != Delivery::Closed);
        law_frames_are_encoded_or_dropped(stats, before);
    }
}

/// The queue between the encoder and the transport.
#[verifier::ext_equal]
pub struct Outlet {
    /// What the transport has yet to take.
    pub waiting: Seq<FrameModel>,
    /// The transport is listening.
    pub open: bool,
}

impl Outlet {
    /// No more frames wait than the queue is deep.
    pub open spec fn wf(self) -> bool {
        self.waiting.len() <= FRAME_QUEUE_DEPTH
    }

    /// What becomes of a frame that is offered now.
    pub open spec fn delivery(self) -> Delivery {
        if !self.open {
            Delivery::Closed
        } else if self.waiting.len() < FRAME_QUEUE_DEPTH {
            Delivery::Taken
        } else {
            Delivery::Full
        }
    }

    /// The queue after a frame was offered.
    pub open spec fn offered(self, frame: FrameModel) -> Outlet {
        match self.delivery() {
            Delivery::Taken => Outlet { waiting: self.waiting.push(frame), ..self },
            _ => self,
        }
    }
}

impl VideoStats {
    /// Once a frame was encoded and offered to the transport.
    pub open spec fn with_offer(self, frame: FrameModel, outlet: Outlet) -> VideoStats {
        self.with_frame(frame.data.len() as u64, frame.keyframe).with_delivery(outlet.delivery())
    }
}

/// While the transport listens, the size of every frame is counted, and the frame either
/// goes to the transport and counts as encoded, or, where one waits already, is dropped
/// and counts as dropped. The frame that waits is never replaced.
pub proof fn law_a_frame_is_sent_or_dropped(stats: VideoStats, outlet: Outlet, frame: FrameModel)
    requires
        outlet.open,
        outlet.wf(),
    ensures
        outlet.offered(frame).wf(),
        ({
            let after = stats.with_offer(frame, outlet);
            &&& after.bytes_encoded == stats.bytes_encoded.wrapping_add(frame.data.len() as u64)
            &&& outlet.waiting.len() == 0 ==> {
                &&& outlet.offered(frame).waiting == seq![frame]
                &&& after.frames_encoded == stats.frames_encoded.wrapping_add(1)
                &&& after.frames_dropped == stats.frames_dropped
            }
            &&& outlet.waiting.len() > 0 ==> {
                &&& outlet.offered(frame) == outlet
                &&& after.frames_encoded == stats.frames_encoded
                &&& after.frames_dropped == stats.frames_dropped.wrapping_add(1)
            }
        }),
{
    assert(outlet.waiting.len() == 0 ==> outlet.waiting.push(frame) =~= seq![frame]);
}

/// A pipeline encodes with the encoder that is preferred among those that are present,
/// and with the settings that are made for it.
pub proof fn law_the_preferred_encoder_runs(x264: bool, openh264: bool, config: VideoConfig)
    ensures
        match Encoder::preferred(x264, openh264) {
            Some(encoder) => {
                let element = pipeline_elements(encoder, config)[5];
                &&& element.factory == encoder.element()
                &&& element.settings == encoder.configured(config.bitrate_kbps, config.framerate)
                &&& (x264 ==> encoder == Encoder::X264)
                &&& (!x264 ==> encoder == Encoder::OpenH264 && openh264)
            },
            None => !x264 && !openh264,
        },
{
}

/// An element of this name with this setting.
pub open spec fn is_set(element: ElementModel, name: &'static str, value: Setting) -> bool {
    exists|i: int| 0 <= i < element.settings.len() && #[trigger] element.settings[i] == (Property {
        name,
        value,
    })
}

/// The media type that an element fixes has this field.
pub open spec fn is_fixed(element: ElementModel, name: &'static str, value: Setting) -> bool {
    &&& element.caps is Some
    &&& exists|i: int|
        0 <= i < (element.caps->0).1.len() && #[trigger] (element.caps->0).1[i] == (Property {
            name,
            value,
        })
}

/// The pipeline takes live BGRx frames of the configured size without blocking and keeps
/// one at most, lowers their rate, converts them for the encoder, repeats the headers for a
/// decoder that attaches late, and hands out whole access units as they come, again one at
/// most.
pub proof fn law_the_pipeline_holds_nothing_back(encoder: Encoder, config: VideoConfig)
    requires
        config.width <= i32::MAX,
        config.height <= i32::MAX,
        config.framerate <= i32::MAX,
    ensures
        ({
            let all = pipeline_elements(encoder, config);
            let rate = Setting::Fraction(config.framerate as i32);
            &&& all.len() == 9
            &&& all[0].factory == "appsrc"
            &&& is_set(all[0], "is-live", Setting::Bool(true))
            &&& is_set(all[0], "block", Setting::Bool(false))
            &&& is_set(all[0], "max-buffers", Setting::U64(1))
            &&& is_set(all[0], "leaky-type", Setting::Word("downstream"))
            &&& is_set(all[0], "format", Setting::Word("time"))
            &&& is_fixed(all[0], "format", Setting::Word("BGRx"))
            &&& is_fixed(all[0], "width", Setting::I32(config.width as i32))
            &&& is_fixed(all[0], "height", Setting::I32(config.height as i32))
            &&& is_fixed(all[0], "framerate", rate)
            &&& all[1].factory == "videorate"
            &&& is_set(all[1], "drop-only", Setting::Bool(true))
            &&& is_set(all[1], "skip-to-first", Setting::Bool(true))
            &&& all[2].factory == "capsfilter" && is_fixed(all[2], "framerate", rate)
            &&& all[3].factory == "videoconvert"
            &&& all[4].factory == "capsfilter" && is_fixed(all[4], "format", Setting::Word("I420"))
            &&& all[5].factory == encoder.element()
            &&& all[6].factory == "h264parse"
            &&& is_set(all[6], "config-interval", Setting::I32(-1i32))
            &&& all[7].factory == "capsfilter"
            &&& (all[7].caps->0).0 == "video/x-h264"
            &&& is_fixed(all[7], "stream-format", Setting::Word("byte-stream"))
            &&& is_fixed(all[7], "alignment", Setting::Word("au"))
            &&& all[8].factory == "appsink"
            &&& is_set(all[8], "max-buffers", Setting::U32(1))
            &&& is_set(all[8], "drop", Setting::Bool(true))
            &&& is_set(all[8], "sync", Setting::Bool(false))
        }),
{
    let all = pipeline_elements(encoder, config);
    let source = all[0].settings;
    let fields = (all[0].caps->0).1;
    let sink = all[8].settings;
    assert(source[0].value == Setting::Word("time") && source[1].value == Setting::Bool(true));
    assert(source[2].value == Setting::Bool(false) && source[3].value == Setting::U64(1));
    assert(source[4].value == Setting::Word("downstream"));
    assert(fields[0].value == Setting::Word("BGRx"));
    assert(fields[1].value == Setting::I32(config.width as i32));
    assert(fields[2].value == Setting::I32(config.height as i32));
    assert(fields[3].value == Setting::Fraction(config.framerate as i32));
    assert(all[1].settings[0].value == Setting::Bool(true));
    assert(all[1].settings[1].value == Setting::Bool(true));
    assert((all[2].caps->0).1[0].value == Setting::Fraction(config.framerate as i32));
    assert((all[4].caps->0).1[0].value == Setting::Word("I420"));
    assert(all[6].settings[0].value == Setting::I32(-1i32));
    assert((all[7].caps->0).1[0].value == Setting::Word("byte-stream"));
    assert((all[7].caps->0).1[1].value == Setting::Word("au"));
    assert(sink[0].value == Setting::U32(1) && sink[1].value == Setting::Bool(true));
    assert(sink[2].value == Setting::Bool(false));
}

/// The size of every frame is added up and noted as that of the last one, and that of a
/// keyframe is noted beside it; how many frames there are is not touched.
pub proof fn law_sizes_are_noted(stats: VideoStats, bytes: u64, keyframe: bool)
    requires
        stats.bytes_encoded + bytes <= u64::MAX,
    ensures
        ({
            let after = stats.with_frame(bytes, keyframe);
            &&& after.bytes_encoded == stats.bytes_encoded + bytes
            &&& after.last_au_bytes == bytes
            &&& keyframe ==> after.last_keyframe_bytes == bytes
            &&& !keyframe ==> after.last_keyframe_bytes == stats.last_keyframe_bytes
            &&& after.frames_encoded == stats.frames_encoded
            &&& after.frames_dropped == stats.frames_dropped
        }),
        stats.with_delivery(Delivery::Closed) == stats,
        stats.with_delivery(Delivery::Taken).last_au_bytes == stats.last_au_bytes,
        stats.with_delivery(Delivery::Full).last_keyframe_bytes == stats.last_keyframe_bytes,
{
}

} // verus!
