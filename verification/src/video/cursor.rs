//! The cursor, split out of the screen-cast.
//!
//! Cursor motion is not republished as a video frame: it goes out on the control
//! channel so that the tablet can draw an overlay. A buffer that carries only the
//! cursor therefore costs a message, not a frame.

use vstd::prelude::*;
use vstd::slice::slice_to_vec;

verus! {

/// The cursor as the compositor last described it.
#[derive(Debug, Clone)]
pub struct Sprite {
    pub visible: bool,
    pub x: i32,
    pub y: i32,
    pub hot_x: i32,
    pub hot_y: i32,
    pub width: u32,
    pub height: u32,
    /// Packed BGRA, `width * 4` bytes per row.
    pub pixels: Vec<u8>,
}

#[verifier::ext_equal]
pub struct SpriteModel {
    pub visible: bool,
    pub x: i32,
    pub y: i32,
    pub hot_x: i32,
    pub hot_y: i32,
    pub width: u32,
    pub height: u32,
    pub pixels: Seq<u8>,
}

impl View for Sprite {
    type V = SpriteModel;

    open spec fn view(&self) -> SpriteModel {
        SpriteModel {
            visible: self.visible,
            x: self.x,
            y: self.y,
            hot_x: self.hot_x,
            hot_y: self.hot_y,
            width: self.width,
            height: self.height,
            pixels: self.pixels@,
        }
    }
}

impl SpriteModel {
    /// Nothing is shown and no shape is known.
    pub open spec fn blank() -> SpriteModel {
        SpriteModel {
            visible: false,
            x: 0,
            y: 0,
            hot_x: 0,
            hot_y: 0,
            width: 0,
            height: 0,
            pixels: Seq::empty(),
        }
    }

    pub open spec fn same_shape(self, other: SpriteModel) -> bool {
        &&& self.width == other.width
        &&& self.height == other.height
        &&& self.hot_x == other.hot_x
        &&& self.hot_y == other.hot_y
        &&& self.pixels == other.pixels
    }

    pub open spec fn shown_at(self, x: i32, y: i32) -> bool {
        self.visible && self.x == x && self.y == y
    }

    /// The shape as it is sent: dimensions are limited to 16 bits.
    pub open spec fn bitmap(self) -> BitmapModel {
        BitmapModel {
            width: limited(self.width),
            height: limited(self.height),
            pixels: self.pixels,
        }
    }
}

impl Default for Sprite {
    fn default() -> (sprite: Sprite)
        ensures
            sprite@ == SpriteModel::blank(),
    {
        let sprite = Sprite {
            visible: false,
            x: 0,
            y: 0,
            hot_x: 0,
            hot_y: 0,
            width: 0,
            height: 0,
            pixels: Vec::new(),
        };
        assert(sprite@ =~= SpriteModel::blank());
        sprite
    }
}

/// A dimension as far as 16 bits go.
pub open spec fn limited(n: u32) -> u16 {
    if n > u16::MAX {
        u16::MAX
    } else {
        n as u16
    }
}

fn limit(n: u32) -> (limited_to: u16)
    ensures
        limited_to == limited(n),
{
    if n > u16::MAX as u32 {
        u16::MAX
    } else {
        n as u16
    }
}

/// What the compositor says of the cursor.
#[derive(Debug, Clone)]
pub enum CursorUpdate {
    /// It is not on this monitor.
    Hidden,
    /// It moved and kept its shape.
    Move { x: i32, y: i32 },
    /// It has this shape and position.
    Bitmap(Sprite),
}

pub enum UpdateModel {
    Hidden,
    Move { x: i32, y: i32 },
    Bitmap(SpriteModel),
}

impl View for CursorUpdate {
    type V = UpdateModel;

    open spec fn view(&self) -> UpdateModel {
        match self {
            CursorUpdate::Hidden => UpdateModel::Hidden,
            CursorUpdate::Move { x, y } => UpdateModel::Move { x: *x, y: *y },
            CursorUpdate::Bitmap(sprite) => UpdateModel::Bitmap(sprite@),
        }
    }
}

/// A cursor shape on its way to the tablet: packed BGRA.
#[derive(Debug, Clone)]
pub struct CursorBitmap {
    pub width: u16,
    pub height: u16,
    pub pixels: Vec<u8>,
}

#[verifier::ext_equal]
pub struct BitmapModel {
    pub width: u16,
    pub height: u16,
    pub pixels: Seq<u8>,
}

impl View for CursorBitmap {
    type V = BitmapModel;

    open spec fn view(&self) -> BitmapModel {
        BitmapModel { width: self.width, height: self.height, pixels: self.pixels@ }
    }
}

/// What the tablet is told of the cursor. A part that is missing has not changed.
#[derive(Debug, Clone)]
pub struct CursorMessage {
    pub visible: bool,
    pub position: Option<(i32, i32)>,
    pub hotspot: Option<(i16, i16)>,
    pub bitmap: Option<CursorBitmap>,
}

#[verifier::ext_equal]
pub struct MessageModel {
    pub visible: bool,
    pub position: Option<(i32, i32)>,
    pub hotspot: Option<(i16, i16)>,
    pub bitmap: Option<BitmapModel>,
}

impl View for CursorMessage {
    type V = MessageModel;

    open spec fn view(&self) -> MessageModel {
        MessageModel {
            visible: self.visible,
            position: self.position,
            hotspot: self.hotspot,
            bitmap: match self.bitmap {
                Some(bitmap) => Some(bitmap@),
                None => None,
            },
        }
    }
}

impl MessageModel {
    pub open spec fn hidden() -> MessageModel {
        MessageModel { visible: false, position: None, hotspot: None, bitmap: None }
    }
}

impl CursorMessage {
    /// The cursor is not shown.
    pub fn hidden() -> (message: CursorMessage)
        ensures
            message@ == MessageModel::hidden(),
    {
        CursorMessage { visible: false, position: None, hotspot: None, bitmap: None }
    }
}

/// What has happened since the last message.
#[derive(Debug)]
pub struct PendingCursor {
    pub visible: bool,
    pub x: i32,
    pub y: i32,
    pub hot_x: i32,
    pub hot_y: i32,
    pub bitmap: Option<CursorBitmap>,
    pub pos_changed: bool,
    pub shape_changed: bool,
    pub vis_changed: bool,
}

#[verifier::ext_equal]
pub struct PendingModel {
    pub visible: bool,
    pub x: i32,
    pub y: i32,
    pub hot_x: i32,
    pub hot_y: i32,
    pub bitmap: Option<BitmapModel>,
    pub pos_changed: bool,
    pub shape_changed: bool,
    pub vis_changed: bool,
}

impl View for PendingCursor {
    type V = PendingModel;

    open spec fn view(&self) -> PendingModel {
        PendingModel {
            visible: self.visible,
            x: self.x,
            y: self.y,
            hot_x: self.hot_x,
            hot_y: self.hot_y,
            bitmap: match self.bitmap {
                Some(bitmap) => Some(bitmap@),
                None => None,
            },
            pos_changed: self.pos_changed,
            shape_changed: self.shape_changed,
            vis_changed: self.vis_changed,
        }
    }
}

impl PendingModel {
    pub open spec fn nothing() -> PendingModel {
        PendingModel {
            visible: false,
            x: 0,
            y: 0,
            hot_x: 0,
            hot_y: 0,
            bitmap: None,
            pos_changed: false,
            shape_changed: false,
            vis_changed: false,
        }
    }

    pub open spec fn changed(self) -> bool {
        self.pos_changed || self.shape_changed || self.vis_changed
    }

    /// Once the cursor was hidden.
    pub open spec fn hidden(self) -> PendingModel {
        PendingModel { visible: false, vis_changed: true, ..self }
    }

    /// Once the cursor was moved.
    pub open spec fn moved(self, x: i32, y: i32) -> PendingModel {
        PendingModel { visible: true, x, y, pos_changed: true, ..self }
    }

    /// Once the cursor took on the shape of `sprite`.
    pub open spec fn reshaped(self, sprite: SpriteModel) -> PendingModel {
        PendingModel {
            visible: sprite.visible,
            x: sprite.x,
            y: sprite.y,
            hot_x: sprite.hot_x,
            hot_y: sprite.hot_y,
            bitmap: Some(sprite.bitmap()),
            pos_changed: true,
            shape_changed: true,
            vis_changed: true,
        }
    }

    /// What the tablet has to be told.
    pub open spec fn message(self) -> Option<MessageModel> {
        if !self.changed() {
            None
        } else if !self.visible {
            Some(MessageModel::hidden())
        } else {
            Some(
                MessageModel {
                    visible: true,
                    position: if self.pos_changed || self.shape_changed {
                        Some((self.x, self.y))
                    } else {
                        None
                    },
                    hotspot: if self.shape_changed {
                        Some((self.hot_x as i16, self.hot_y as i16))
                    } else {
                        None
                    },
                    bitmap: if self.shape_changed {
                        self.bitmap
                    } else {
                        None
                    },
                },
            )
        }
    }

    /// Once the tablet has been told.
    pub open spec fn taken(self) -> PendingModel {
        if !self.changed() {
            self
        } else {
            PendingModel {
                bitmap: if self.shape_changed {
                    None
                } else {
                    self.bitmap
                },
                pos_changed: false,
                shape_changed: false,
                vis_changed: false,
                ..self
            }
        }
    }
}

impl PendingCursor {
    fn new() -> (pending: PendingCursor)
        ensures
            pending@ == PendingModel::nothing(),
    {
        PendingCursor {
            visible: false,
            x: 0,
            y: 0,
            hot_x: 0,
            hot_y: 0,
            bitmap: None,
            pos_changed: false,
            shape_changed: false,
            vis_changed: false,
        }
    }

    fn queue_hide(&mut self)
        ensures
            final(self)@ == old(self)@.hidden(),
    {
        self.visible = false;
        self.vis_changed = true;
    }

    fn queue_move(&mut self, x: i32, y: i32)
        ensures
            final(self)@ == old(self)@.moved(x, y),
    {
        self.visible = true;
        self.x = x;
        self.y = y;
        self.pos_changed = true;
    }

    fn queue_shape(&mut self, sprite: &Sprite)
        ensures
            final(self)@ == old(self)@.reshaped(sprite@),
    {
        self.visible = sprite.visible;
        self.x = sprite.x;
        self.y = sprite.y;
        self.hot_x = sprite.hot_x;
        self.hot_y = sprite.hot_y;
        self.bitmap = Some(
            CursorBitmap {
                width: limit(sprite.width),
                height: limit(sprite.height),
                pixels: slice_to_vec(sprite.pixels.as_slice()),
            },
        );
        self.pos_changed = true;
        self.shape_changed = true;
        self.vis_changed = true;
        assert(self@.bitmap->0 =~= sprite@.bitmap());
    }

    /// The message for the tablet, if there is anything to tell.
    fn take(&mut self) -> (message: Option<CursorMessage>)
        ensures
            match message {
                Some(m) => old(self)@.message() == Some(m@),
                None => old(self)@.message() is None,
            },
            final(self)@ == old(self)@.taken(),
    {
        if !self.pos_changed && !self.shape_changed && !self.vis_changed {
            return None;
        }
        let bitmap = if self.shape_changed {
            self.bitmap.take()
        } else {
            None
        };
        let hotspot = if self.shape_changed {
            Some((self.hot_x as i16, self.hot_y as i16))
        } else {
            None
        };
        let position = if self.pos_changed || self.shape_changed {
            Some((self.x, self.y))
        } else {
            None
        };
        let message = if self.visible {
            CursorMessage { visible: true, position, hotspot, bitmap }
        } else {
            CursorMessage::hidden()
        };
        self.pos_changed = false;
        self.shape_changed = false;
        self.vis_changed = false;
        Some(message)
    }
}

/// What the tablet has to hear of an update.
#[derive(Debug, Clone, Copy, PartialEq, Eq, Structural)]
pub enum CursorEmit {
    Hide,
    Move { x: i32, y: i32 },
    Shape,
}

impl SpriteModel {
    /// What is worth telling of an update; nothing, where it repeats what is known.
    pub open spec fn emits(self, update: UpdateModel) -> Option<CursorEmit> {
        match update {
            UpdateModel::Hidden => if !self.visible && self.pixels.len() == 0 {
                None
            } else {
                Some(CursorEmit::Hide)
            },
            UpdateModel::Move { x, y } => if self.shown_at(x, y) {
                None
            } else if self.pixels.len() == 0 {
                Some(CursorEmit::Hide)
            } else {
                Some(CursorEmit::Move { x, y })
            },
            UpdateModel::Bitmap(next) => if !self.same_shape(next) {
                Some(CursorEmit::Shape)
            } else if self.shown_at(next.x, next.y) {
                None
            } else {
                Some(CursorEmit::Move { x: next.x, y: next.y })
            },
        }
    }

    /// The cursor after an update. One that moves without ever having had a shape
    /// stays out of sight.
    pub open spec fn updated(self, update: UpdateModel) -> SpriteModel {
        match update {
            UpdateModel::Hidden => SpriteModel { visible: false, ..self },
            UpdateModel::Move { x, y } => if self.shown_at(x, y) {
                self
            } else {
                SpriteModel { x, y, visible: self.pixels.len() > 0, ..self }
            },
            UpdateModel::Bitmap(next) => if self.same_shape(next) {
                SpriteModel { x: next.x, y: next.y, visible: true, ..self }
            } else {
                next
            },
        }
    }
}

impl Sprite {
    fn update(&mut self, update: CursorUpdate) -> (emit: Option<CursorEmit>)
        ensures
            emit == old(self)@.emits(update@),
            final(self)@ == old(self)@.updated(update@),
    {
        match update {
            CursorUpdate::Hidden => {
                if !self.visible && self.pixels.len() == 0 {
                    None
                } else {
                    self.visible = false;
                    Some(CursorEmit::Hide)
                }
            },
            CursorUpdate::Move { x, y } => {
                if self.x == x && self.y == y && self.visible {
                    None
                } else {
                    self.x = x;
                    self.y = y;
                    self.visible = self.pixels.len() > 0;
                    if self.visible {
                        Some(CursorEmit::Move { x, y })
                    } else {
                        Some(CursorEmit::Hide)
                    }
                }
            },
            CursorUpdate::Bitmap(next) => {
                let same_pixels: bool = self.pixels == next.pixels;
                assert(same_pixels ==> self.pixels@ =~= next.pixels@);
                let same_shape = self.width == next.width && self.height == next.height
                    && self.hot_x == next.hot_x && self.hot_y == next.hot_y && same_pixels;
                if same_shape {
                    if self.x == next.x && self.y == next.y && self.visible {
                        None
                    } else {
                        self.x = next.x;
                        self.y = next.y;
                        self.visible = true;
                        Some(CursorEmit::Move { x: next.x, y: next.y })
                    }
                } else {
                    *self = next;
                    Some(CursorEmit::Shape)
                }
            },
        }
    }
}

/// The layout of captured frames, as it is announced before the first of them.
#[derive(Debug, Clone)]
pub struct CaptureCaps {
    /// The layout of a frame that stays on the GPU; others are packed BGRx.
    pub drm_format: Option<String>,
    pub width: i32,
    pub height: i32,
    pub framerate: i32,
}

pub struct CapsModel {
    pub drm_format: Option<Seq<char>>,
    pub width: i32,
    pub height: i32,
    pub framerate: i32,
}

impl View for CaptureCaps {
    type V = CapsModel;

    open spec fn view(&self) -> CapsModel {
        CapsModel {
            drm_format: match self.drm_format {
                Some(layout) => Some(layout@),
                None => None,
            },
            width: self.width,
            height: self.height,
            framerate: self.framerate,
        }
    }
}

/// How a captured frame is handed to the encoder.
#[derive(Debug, Clone)]
pub struct FramePlan {
    /// To be announced before this frame.
    pub caps: Option<CaptureCaps>,
    pub duration_ns: u64,
}

/// A frame rate at which every frame has a duration.
struct NominalRate {
    framerate: u32,
}

impl NominalRate {
    #[verifier::type_invariant]
    spec fn is_positive(self) -> bool {
        self.framerate > 0
    }

    /// A rate of 0 counts as 1.
    fn new(framerate: u32) -> (rate: NominalRate)
        ensures
            rate.framerate == if framerate == 0 {
                1
            } else {
                framerate
            },
    {
        NominalRate {
            framerate: if framerate == 0 {
                1
            } else {
                framerate
            },
        }
    }

    fn frame_ns(&self) -> (ns: u64)
        ensures
            self.framerate > 0,
            ns == 1_000_000_000int / self.framerate as int,
    {
        proof {
            use_type_invariant(self);
        }
        1_000_000_000 / self.framerate as u64
    }
}

/// The cursor and the counters of one capture.
pub struct CursorHub {
    sprite: Sprite,
    pending: PendingCursor,
    rate: NominalRate,
    seen_cursor: bool,
    seen_video: bool,
    /// Buffers that carried a video chunk.
    mutter_frames: u64,
    /// Frames that the encoder took.
    pushed_frames: u64,
    /// Frames that the encoder refused.
    push_fail: u64,
    copy_max_us: u64,
}

#[verifier::ext_equal]
pub struct HubModel {
    pub sprite: SpriteModel,
    pub pending: PendingModel,
    pub framerate: u32,
    pub seen_cursor: bool,
    pub seen_video: bool,
    pub mutter_frames: u64,
    pub pushed_frames: u64,
    pub push_fail: u64,
    pub copy_max_us: u64,
}

impl View for CursorHub {
    type V = HubModel;

    closed spec fn view(&self) -> HubModel {
        HubModel {
            sprite: self.sprite@,
            pending: self.pending@,
            framerate: self.rate.framerate,
            seen_cursor: self.seen_cursor,
            seen_video: self.seen_video,
            mutter_frames: self.mutter_frames,
            pushed_frames: self.pushed_frames,
            push_fail: self.push_fail,
            copy_max_us: self.copy_max_us,
        }
    }
}

impl HubModel {
    pub open spec fn fresh(framerate: u32) -> HubModel {
        HubModel {
            sprite: SpriteModel::blank(),
            pending: PendingModel::nothing(),
            framerate: if framerate == 0 {
                1
            } else {
                framerate
            },
            seen_cursor: false,
            seen_video: false,
            mutter_frames: 0,
            pushed_frames: 0,
            push_fail: 0,
            copy_max_us: 0,
        }
    }

    /// What is pending agrees with the cursor as it was last described.
    pub open spec fn wf(self) -> bool {
        &&& self.framerate > 0
        &&& self.pending.visible == self.sprite.visible
        &&& self.sprite.visible ==> self.pending.x == self.sprite.x && self.pending.y
            == self.sprite.y
        &&& self.pending.hot_x == self.sprite.hot_x
        &&& self.pending.hot_y == self.sprite.hot_y
        &&& self.pending.bitmap == if self.pending.shape_changed {
            Some(self.sprite.bitmap())
        } else {
            None
        }
    }

    pub open spec fn stored(self, update: UpdateModel) -> HubModel {
        let sprite = self.sprite.updated(update);
        let emit = self.sprite.emits(update);
        HubModel {
            sprite,
            pending: match emit {
                None => self.pending,
                Some(CursorEmit::Hide) => self.pending.hidden(),
                Some(CursorEmit::Move { x, y }) => self.pending.moved(x, y),
                Some(CursorEmit::Shape) => self.pending.reshaped(sprite),
            },
            seen_cursor: self.seen_cursor || emit is Some,
            ..self
        }
    }

    pub open spec fn taken(self) -> HubModel {
        HubModel { pending: self.pending.taken(), ..self }
    }

    /// Once a buffer carried a video chunk.
    pub open spec fn counted(self) -> HubModel {
        HubModel { mutter_frames: self.mutter_frames.wrapping_add(1), ..self }
    }

    /// The announcement that a frame needs: only the first frame needs one.
    pub open spec fn announced(self, width: u32, height: u32, drm_format: Option<Seq<char>>) -> Option<
        CapsModel,
    > {
        if self.seen_video {
            None
        } else {
            Some(
                CapsModel {
                    drm_format,
                    width: width as i32,
                    height: height as i32,
                    framerate: self.framerate as i32,
                },
            )
        }
    }
}

impl FramePlan {
    pub open spec fn follows(self, hub: HubModel, caps: Option<CapsModel>) -> bool {
        &&& hub.framerate > 0
        &&& self.duration_ns == 1_000_000_000int / hub.framerate as int
        &&& match self.caps {
            Some(c) => caps == Some(c@),
            None => caps is None,
        }
    }
}

impl CursorHub {
    /// A capture for frames at this rate; a rate of 0 counts as 1.
    pub fn new(framerate: u32) -> (hub: CursorHub)
        ensures
            hub@ == HubModel::fresh(framerate),
            hub@.wf(),
    {
        let hub = CursorHub {
            sprite: Sprite::default(),
            pending: PendingCursor::new(),
            rate: NominalRate::new(framerate),
            seen_cursor: false,
            seen_video: false,
            mutter_frames: 0,
            pushed_frames: 0,
            push_fail: 0,
            copy_max_us: 0,
        };
        assert(hub@ =~= HubModel::fresh(framerate));
        hub
    }

    /// Mutter frames, frames pushed, frames refused and the longest copy in
    /// microseconds since the previous take.
    pub fn take_capture_counts(&mut self) -> (counts: (u64, u64, u64, u64))
        ensures
            counts == (
                old(self)@.mutter_frames,
                old(self)@.pushed_frames,
                old(self)@.push_fail,
                old(self)@.copy_max_us,
            ),
            final(self)@ == (HubModel {
                mutter_frames: 0,
                pushed_frames: 0,
                push_fail: 0,
                copy_max_us: 0,
                ..old(self)@
            }),
    {
        let counts = (self.mutter_frames, self.pushed_frames, self.push_fail, self.copy_max_us);
        self.mutter_frames = 0;
        self.pushed_frames = 0;
        self.push_fail = 0;
        self.copy_max_us = 0;
        counts
    }

    /// Notes how long a copy took.
    pub fn observe_copy_us(&mut self, copy_us: u64)
        ensures
            final(self)@ == (HubModel {
                copy_max_us: if copy_us > old(self)@.copy_max_us {
                    copy_us
                } else {
                    old(self)@.copy_max_us
                },
                ..old(self)@
            }),
    {
        if copy_us > self.copy_max_us {
            self.copy_max_us = copy_us;
        }
    }

    /// Notes a buffer that carried a video chunk. The counter wraps around.
    pub fn count_frame(&mut self)
        ensures
            final(self)@ == old(self)@.counted(),
    {
        self.mutter_frames = self.mutter_frames.wrapping_add(1);
    }

    /// Notes whether the encoder took a frame. The counters wrap around.
    pub fn count_push(&mut self, accepted: bool)
        ensures
            final(self)@ == if accepted {
                HubModel { pushed_frames: old(self)@.pushed_frames.wrapping_add(1), ..old(self)@ }
            } else {
                HubModel { push_fail: old(self)@.push_fail.wrapping_add(1), ..old(self)@ }
            },
    {
        if accepted {
            self.pushed_frames = self.pushed_frames.wrapping_add(1);
        } else {
            self.push_fail = self.push_fail.wrapping_add(1);
        }
    }

    /// The message for the tablet, if anything has changed since the last one.
    pub fn take_cursor_message(&mut self) -> (message: Option<CursorMessage>)
        ensures
            match message {
                Some(m) => old(self)@.pending.message() == Some(m@),
                None => old(self)@.pending.message() is None,
            },
            final(self)@ == old(self)@.taken(),
    {
        let message = self.pending.take();
        assert(self@ =~= old(self)@.taken());
        message
    }

    /// Takes in what the compositor says of the cursor. Whether the sender of cursor
    /// messages is to be woken.
    pub fn store_cursor(&mut self, update: CursorUpdate) -> (wake: bool)
        ensures
            wake == old(self)@.sprite.emits(update@) is Some,
            final(self)@ == old(self)@.stored(update@),
    {
        let ghost said = update@;
        let emit = self.sprite.update(update);
        let wake = match emit {
            None => false,
            Some(emit) => {
                self.seen_cursor = true;
                match emit {
                    CursorEmit::Hide => self.pending.queue_hide(),
                    CursorEmit::Move { x, y } => self.pending.queue_move(x, y),
                    CursorEmit::Shape => self.pending.queue_shape(&self.sprite),
                }
                true
            },
        };
        assert(self@ =~= old(self)@.stored(said));
        wake
    }

    /// How a frame that was copied to memory is handed on.
    pub fn on_video_frame(&mut self, width: u32, height: u32) -> (plan: FramePlan)
        ensures
            plan.follows(old(self)@, old(self)@.announced(width, height, None)),
            final(self)@ == (HubModel { seen_video: true, ..old(self)@ }),
    {
        self.plan(width, height, None)
    }

    /// How a frame that stays on the GPU is handed on.
    pub fn on_dmabuf_frame(&mut self, width: u32, height: u32, drm_format: String) -> (plan:
        FramePlan)
        ensures
            plan.follows(old(self)@, old(self)@.announced(width, height, Some(drm_format@))),
            final(self)@ == (HubModel { seen_video: true, ..old(self)@ }),
    {
        self.plan(width, height, Some(drm_format))
    }

    fn plan(&mut self, width: u32, height: u32, drm_format: Option<String>) -> (plan: FramePlan)
        ensures
            plan.follows(
                old(self)@,
                old(self)@.announced(
                    width,
                    height,
                    match drm_format {
                        Some(layout) => Some(layout@),
                        None => None,
                    },
                ),
            ),
            final(self)@ == (HubModel { seen_video: true, ..old(self)@ }),
    {
        let caps = if self.seen_video {
            None
        } else {
            Some(
                CaptureCaps {
                    drm_format,
                    width: width as i32,
                    height: height as i32,
                    framerate: self.rate.framerate as i32,
                },
            )
        };
        self.seen_video = true;
        FramePlan { caps, duration_ns: self.rate.frame_ns() }
    }
}

/// What the tablet shows, from the messages that reached it.
#[verifier::ext_equal]
pub struct Overlay {
    pub visible: bool,
    pub position: Option<(i32, i32)>,
    pub hotspot: Option<(i16, i16)>,
    pub bitmap: Option<BitmapModel>,
}

impl Overlay {
    /// A part that a message leaves out stays as it is.
    pub open spec fn told(self, message: Option<MessageModel>) -> Overlay {
        match message {
            None => self,
            Some(m) => Overlay {
                visible: m.visible,
                position: if m.position is Some {
                    m.position
                } else {
                    self.position
                },
                hotspot: if m.hotspot is Some {
                    m.hotspot
                } else {
                    self.hotspot
                },
                bitmap: if m.bitmap is Some {
                    m.bitmap
                } else {
                    self.bitmap
                },
            },
        }
    }
}

/// What is pending stays in step with the cursor, whatever the compositor says and
/// whenever messages are taken.
pub proof fn law_pending_follows_the_cursor(hub: HubModel, update: UpdateModel)
    requires
        hub.wf(),
    ensures
        hub.stored(update).wf(),
        hub.taken().wf(),
{
}

/// Of several moves between two messages the tablet hears the last one only: the
/// position it is told is the one the compositor gave last.
pub proof fn law_latest_cursor_position_wins(hub: HubModel, first: (i32, i32), last: (i32, i32))
    requires
        hub.wf(),
        hub.sprite.pixels.len() > 0,
        !hub.sprite.shown_at(first.0, first.1),
    ensures
        ({
            let after = hub.stored(UpdateModel::Move { x: first.0, y: first.1 }).stored(
                UpdateModel::Move { x: last.0, y: last.1 },
            );
            after.pending.message() matches Some(m) && m.visible && m.position == Some(last)
        }),
{
}

/// A bitmap of the shape that is known already is told as a position alone.
pub proof fn law_unchanged_sprite_is_position_only(hub: HubModel, next: SpriteModel)
    requires
        hub.wf(),
        !hub.pending.changed(),
        hub.sprite.same_shape(next),
        !hub.sprite.shown_at(next.x, next.y),
    ensures
        hub.stored(UpdateModel::Bitmap(next)).pending.message() == Some(
            MessageModel {
                visible: true,
                position: Some((next.x, next.y)),
                hotspot: None,
                bitmap: None,
            },
        ),
{
}

/// Once a message has been taken there is nothing to tell until something changes.
pub proof fn law_nothing_is_told_twice(hub: HubModel, update: UpdateModel)
    ensures
        hub.taken().pending.message() is None,
        hub.sprite.emits(update) is None ==> hub.taken().stored(update).pending.message() is None,
{
}

/// The sender is woken exactly when an update leaves something to tell.
pub proof fn law_waking_means_something_to_tell(hub: HubModel, update: UpdateModel)
    ensures
        hub.sprite.emits(update) is Some ==> hub.stored(update).pending.message() is Some,
        hub.sprite.emits(update) is None ==> hub.stored(update).pending.message()
            == hub.pending.message(),
{
}

impl HubModel {
    /// The tablet shows the cursor as it was last described.
    pub open spec fn shown_by(self, overlay: Overlay) -> bool {
        &&& overlay.visible == self.sprite.visible
        &&& self.sprite.visible ==> overlay.position == Some((self.sprite.x, self.sprite.y))
    }

    /// The tablet shows the cursor in its shape too.
    pub open spec fn drawn_by(self, overlay: Overlay) -> bool {
        self.sprite.visible ==> {
            &&& overlay.bitmap == Some(self.sprite.bitmap())
            &&& overlay.hotspot == Some((self.sprite.hot_x as i16, self.sprite.hot_y as i16))
        }
    }

    /// Where the tablet does not show the cursor yet, the next message tells it.
    pub open spec fn in_step_with(self, overlay: Overlay) -> bool {
        &&& self.wf()
        &&& self.shown_by(overlay.told(self.pending.message()))
    }
}

/// A fresh capture and a tablet that shows nothing are in step.
pub proof fn law_a_fresh_capture_is_in_step(framerate: u32, overlay: Overlay)
    requires
        !overlay.visible,
    ensures
        HubModel::fresh(framerate).in_step_with(overlay),
{
}

/// Whatever the compositor says, the next message tells the tablet whether and where
/// the cursor is; and once that message was taken the tablet shows it.
pub proof fn law_the_tablet_follows_the_cursor(hub: HubModel, overlay: Overlay, update: UpdateModel)
    requires
        hub.in_step_with(overlay),
    ensures
        hub.stored(update).in_step_with(overlay),
        hub.taken().in_step_with(overlay.told(hub.pending.message())),
        hub.taken().shown_by(overlay.told(hub.pending.message())),
{
}

impl UpdateModel {
    /// A bitmap that the compositor sends shows something.
    pub open spec fn sound(self) -> bool {
        self matches UpdateModel::Bitmap(sprite) ==> sprite.visible && sprite.pixels.len() > 0
    }
}

impl HubModel {
    /// The tablet has the shape of the cursor, or is about to be told it.
    pub open spec fn shape_known_to(self, overlay: Overlay) -> bool {
        &&& self.in_step_with(overlay)
        &&& self.sprite.visible ==> self.sprite.pixels.len() > 0
        &&& self.sprite.pixels.len() == 0 || self.pending.shape_changed || (overlay.bitmap == Some(
            self.sprite.bitmap(),
        ) && overlay.hotspot == Some((self.sprite.hot_x as i16, self.sprite.hot_y as i16)))
    }
}

/// The tablet draws the cursor in its shape, after any updates and messages. The one
/// message that loses a shape is a hide that is taken before the shape was told.
pub proof fn law_the_tablet_draws_the_shape(hub: HubModel, overlay: Overlay, update: UpdateModel)
    requires
        hub.shape_known_to(overlay),
        update.sound(),
    ensures
        hub.stored(update).shape_known_to(overlay),
        hub.drawn_by(overlay.told(hub.pending.message())),
        hub.pending.visible || !hub.pending.shape_changed ==> hub.taken().shape_known_to(
            overlay.told(hub.pending.message()),
        ),
{
}

/// Hiding and moving the cursor leave its shape alone, and a bitmap gives it that of the
/// bitmap; where it is shown is where it was last said to be.
pub proof fn law_the_cursor_is_as_last_described(
    sprite: SpriteModel,
    x: i32,
    y: i32,
    next: SpriteModel,
)
    ensures
        ({
            let hidden = sprite.updated(UpdateModel::Hidden);
            &&& !hidden.visible
            &&& hidden.x == sprite.x && hidden.y == sprite.y
            &&& hidden.width == sprite.width && hidden.height == sprite.height
            &&& hidden.hot_x == sprite.hot_x && hidden.hot_y == sprite.hot_y
            &&& hidden.pixels == sprite.pixels
        }),
        ({
            let moved = sprite.updated(UpdateModel::Move { x, y });
            &&& moved.x == x && moved.y == y
            &&& sprite.pixels.len() > 0 ==> moved.visible
            &&& sprite.pixels.len() == 0 && moved.visible ==> moved == sprite
            &&& moved.width == sprite.width && moved.height == sprite.height
            &&& moved.hot_x == sprite.hot_x && moved.hot_y == sprite.hot_y
            &&& moved.pixels == sprite.pixels
        }),
        ({
            let drawn = sprite.updated(UpdateModel::Bitmap(next));
            &&& drawn.x == next.x && drawn.y == next.y
            &&& next.visible ==> drawn.visible
            &&& drawn.width == next.width && drawn.height == next.height
            &&& drawn.hot_x == next.hot_x && drawn.hot_y == next.hot_y
            &&& drawn.pixels == next.pixels
        }),
{
}

/// What is known already is not told: a position that is shown, a shape and position that
/// are shown, and that there is nothing to show where there never was anything. Everything
/// else is told, and as what it is.
pub proof fn law_news_is_told(sprite: SpriteModel, x: i32, y: i32, next: SpriteModel)
    ensures
        sprite.emits(UpdateModel::Hidden) is None <==> !sprite.visible && sprite.pixels.len() == 0,
        sprite.emits(UpdateModel::Hidden) is Some ==> sprite.emits(UpdateModel::Hidden) == Some(
            CursorEmit::Hide,
        ),
        sprite.emits(UpdateModel::Move { x, y }) is None <==> sprite.visible && sprite.x == x
            && sprite.y == y,
        sprite.emits(UpdateModel::Move { x, y }) matches Some(emit) ==> emit == if sprite.pixels.len()
            == 0 {
            CursorEmit::Hide
        } else {
            CursorEmit::Move { x, y }
        },
        ({
            let same = sprite.width == next.width && sprite.height == next.height && sprite.hot_x
                == next.hot_x && sprite.hot_y == next.hot_y && sprite.pixels == next.pixels;
            let there = sprite.visible && sprite.x == next.x && sprite.y == next.y;
            &&& sprite.emits(UpdateModel::Bitmap(next)) is None <==> same && there
            &&& sprite.emits(UpdateModel::Bitmap(next)) == Some(CursorEmit::Shape) <==> !same
            &&& same && !there ==> sprite.emits(UpdateModel::Bitmap(next)) == Some(
                CursorEmit::Move { x: next.x, y: next.y },
            )
        }),
{
}

/// A message holds what has changed and nothing else: of a cursor that is not shown only
/// that, the position where it or the shape is new, and the shape where that is.
pub proof fn law_a_message_holds_what_changed(pending: PendingModel)
    ensures
        pending.message() is None <==> !pending.pos_changed && !pending.shape_changed
            && !pending.vis_changed,
        pending.message() matches Some(m) ==> {
            &&& m.visible == pending.visible
            &&& !pending.visible ==> m.position is None && m.hotspot is None && m.bitmap is None
            &&& pending.visible ==> {
                &&& m.position == if pending.pos_changed || pending.shape_changed {
                    Some((pending.x, pending.y))
                } else {
                    None
                }
                &&& m.hotspot is Some <==> pending.shape_changed
                &&& m.bitmap == if pending.shape_changed {
                    pending.bitmap
                } else {
                    None
                }
            }
        },
{
}

/// A shape is sent as it is: its pixels unchanged, and its dimensions as far as 65535.
pub proof fn law_shapes_are_sent_whole(sprite: SpriteModel)
    ensures
        sprite.bitmap().pixels == sprite.pixels,
        sprite.width <= 65_535 ==> sprite.bitmap().width == sprite.width,
        sprite.height <= 65_535 ==> sprite.bitmap().height == sprite.height,
        sprite.width > 65_535 ==> sprite.bitmap().width == 65_535,
        sprite.height > 65_535 ==> sprite.bitmap().height == 65_535,
{
}

/// The first frame of a capture, and no other, comes with an announcement: the size of the
/// frame, its layout and the rate.
pub proof fn law_the_first_frame_is_announced(
    hub: HubModel,
    width: u32,
    height: u32,
    drm_format: Option<Seq<char>>,
)
    requires
        width <= i32::MAX,
        height <= i32::MAX,
        hub.framerate <= i32::MAX,
    ensures
        hub.announced(width, height, drm_format) is None <==> hub.seen_video,
        hub.announced(width, height, drm_format) matches Some(caps) ==> {
            &&& caps.width == width
            &&& caps.height == height
            &&& caps.framerate == hub.framerate
            &&& caps.drm_format == drm_format
        },
{
}

/// A capture starts with nothing shown, nothing to tell and nothing counted, at the rate
/// that was asked for.
pub proof fn law_a_capture_starts_empty(framerate: u32)
    ensures
        ({
            let hub = HubModel::fresh(framerate);
            &&& framerate > 0 ==> hub.framerate == framerate
            &&& framerate == 0 ==> hub.framerate == 1
            &&& !hub.seen_video && !hub.seen_cursor
            &&& hub.mutter_frames == 0 && hub.pushed_frames == 0 && hub.push_fail == 0
            &&& hub.copy_max_us == 0
            &&& !hub.sprite.visible && hub.sprite.pixels.len() == 0
            &&& hub.pending.message() is None
        }),
{
}

/// What the compositor says of the cursor changes no counter and no announcement.
pub proof fn law_the_cursor_counts_no_frames(hub: HubModel, update: UpdateModel)
    ensures
        hub.stored(update).mutter_frames == hub.mutter_frames,
        hub.stored(update).pushed_frames == hub.pushed_frames,
        hub.stored(update).push_fail == hub.push_fail,
        hub.stored(update).seen_video == hub.seen_video,
        hub.stored(update).framerate == hub.framerate,
        hub.stored(update).seen_cursor == (hub.seen_cursor || hub.sprite.emits(update) is Some),
        hub.taken().mutter_frames == hub.mutter_frames,
        hub.taken().sprite == hub.sprite,
        hub.taken().seen_video == hub.seen_video,
        hub.counted().sprite == hub.sprite,
        hub.counted().pending == hub.pending,
        hub.mutter_frames < u64::MAX ==> hub.counted().mutter_frames == hub.mutter_frames + 1,
{
}

} // verus!
