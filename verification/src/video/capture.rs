//! Reading captured buffers: cursor metadata, frames in memory, frames on the GPU.

use vstd::prelude::*;
use vstd::slice::slice_subrange;

use crate::text::{hex, push_hex};
use crate::video::cursor::{
    CursorHub, CursorUpdate, FramePlan, HubModel, Sprite, SpriteModel, UpdateModel,
};
use crate::video::pixels::{convert, pack_video, Rearrangement, VideoFormat};

verus! {

/// The size of the record that heads cursor metadata.
pub const CURSOR_HEADER: u32 = 28;

/// The size of the record that heads a cursor bitmap.
pub const BITMAP_HEADER: u32 = 20;

/// The largest cursor, in each direction, that metadata is asked for.
pub const CURSOR_META_MAX: u32 = 384;

/// One piece of metadata of a captured buffer.
#[derive(Debug, Clone, Copy, PartialEq, Eq, Structural)]
pub struct MetaEntry {
    /// It describes the cursor.
    pub cursor: bool,
    /// There are bytes to read.
    pub present: bool,
    pub size: u32,
}

impl MetaEntry {
    pub open spec fn readable(self) -> bool {
        self.cursor && self.present && self.size >= CURSOR_HEADER
    }
}

/// The first piece of metadata that describes the cursor and can be read.
pub fn find_cursor_meta(metas: &[MetaEntry]) -> (found: Option<usize>)
    ensures
        match found {
            Some(i) => i < metas@.len() && metas@[i as int].readable() && forall|j: int|
                0 <= j < i ==> !(#[trigger] metas@[j]).readable(),
            None => forall|j: int| 0 <= j < metas@.len() ==> !(#[trigger] metas@[j]).readable(),
        },
{
    let mut i: usize = 0;
    while i < metas.len()
        invariant
            i <= metas@.len(),
            forall|j: int| 0 <= j < i ==> !(#[trigger] metas@[j]).readable(),
        decreases metas@.len() - i,
    {
        let meta = metas[i];
        if meta.cursor && meta.present && meta.size >= CURSOR_HEADER {
            return Some(i);
        }
        i += 1;
    }
    None
}

/// The record that heads cursor metadata.
#[derive(Debug, Clone, Copy, PartialEq, Eq, Structural)]
pub struct MetaCursor {
    pub id: u32,
    pub flags: u32,
    pub x: i32,
    pub y: i32,
    pub hot_x: i32,
    pub hot_y: i32,
    pub bitmap_offset: u32,
}

/// The record that heads a cursor bitmap.
#[derive(Debug, Clone, Copy, PartialEq, Eq, Structural)]
pub struct MetaBitmap {
    /// `Other` where the format is unknown or not named at all.
    pub format: VideoFormat,
    pub width: u32,
    pub height: u32,
    pub stride: i32,
    /// Where the pixels start, counted from this record.
    pub offset: u32,
}

/// What the head of cursor metadata says.
#[derive(Debug, Clone, Copy, PartialEq, Eq, Structural)]
pub enum CursorHead {
    Hidden,
    Move { x: i32, y: i32 },
    /// A bitmap follows at this offset.
    BitmapAt(u32),
}

impl MetaCursor {
    /// A cursor without an id is hidden; an offset that points into the record itself
    /// means that no bitmap follows.
    pub open spec fn head(self) -> CursorHead {
        if self.id == 0 {
            CursorHead::Hidden
        } else if self.bitmap_offset < CURSOR_HEADER {
            CursorHead::Move { x: self.x, y: self.y }
        } else {
            CursorHead::BitmapAt(self.bitmap_offset)
        }
    }

    pub fn read_head(&self) -> (head: CursorHead)
        ensures
            head == self.head(),
    {
        if self.id == 0 {
            CursorHead::Hidden
        } else if self.bitmap_offset < CURSOR_HEADER {
            CursorHead::Move { x: self.x, y: self.y }
        } else {
            CursorHead::BitmapAt(self.bitmap_offset)
        }
    }
}

/// What turns a cursor bitmap of this format into BGRA, where it is supported.
pub open spec fn cursor_rearrangement(format: VideoFormat) -> Option<Rearrangement> {
    match format {
        VideoFormat::BGRA | VideoFormat::BGRx => Some(Rearrangement::Copy),
        VideoFormat::RGBA | VideoFormat::RGBx => Some(Rearrangement::SwapRb),
        VideoFormat::ARGB => Some(Rearrangement::Reverse),
        VideoFormat::xRGB | VideoFormat::Other => None,
    }
}

/// `n` zero bytes.
pub open spec fn zeros(n: nat) -> Seq<u8> {
    Seq::new(n, |j: int| 0u8)
}

/// `height` rows of `row` bytes each. Of source rows that are shorter the missing
/// bytes are zero.
pub open spec fn cursor_rows(
    how: Rearrangement,
    src: Seq<u8>,
    stride: nat,
    row: nat,
    height: nat,
) -> Seq<u8>
    decreases height,
{
    if height == 0 {
        Seq::empty()
    } else {
        let start = (height - 1) * stride;
        let taken = if stride < row {
            stride
        } else {
            row
        };
        cursor_rows(how, src, stride, row, (height - 1) as nat) + how.written(
            src.subrange(start, start + taken),
            zeros(taken),
        ) + zeros((row - taken) as nat)
    }
}

impl MetaBitmap {
    /// From one row to the next. A single row may name any; where it is negative, the
    /// row is not padded.
    pub open spec fn pitch(self) -> int {
        if self.stride < 0 {
            self.width * 4
        } else {
            self.stride as int
        }
    }

    /// Bytes that are read of each row.
    pub open spec fn taken(self) -> int {
        if self.pitch() < self.width * 4 {
            self.pitch()
        } else {
            self.width * 4
        }
    }

    /// The rows lie within `available` bytes, counted from the record's start. Rows that
    /// go backwards from the first one do not.
    pub open spec fn fits(self, available: nat) -> bool {
        &&& self.width * 4 <= u32::MAX
        &&& self.height > 0
        &&& self.stride >= 0 || self.height == 1
        &&& self.offset + (self.height - 1) * self.pitch() + self.taken() <= available
        &&& self.width * 4 * self.height <= usize::MAX
    }

    /// The pixels as packed BGRA; none, where the format is not supported.
    pub open spec fn pixels(self, bytes: Seq<u8>) -> Seq<u8> {
        match cursor_rearrangement(self.format) {
            Some(how) => cursor_rows(
                how,
                bytes.skip(self.offset as int),
                self.pitch() as nat,
                (self.width * 4) as nat,
                self.height as nat,
            ),
            None => Seq::empty(),
        }
    }

    fn within(&self, available: usize) -> (fits: bool)
        ensures
            fits == self.fits(available as nat),
    {
        if self.width > u32::MAX / 4 || self.height == 0 || (self.stride < 0 && self.height > 1) {
            return false;
        }
        let row: u64 = self.width as u64 * 4;
        let pitch: u64 = if self.stride < 0 {
            row
        } else {
            self.stride as u64
        };
        let taken: u64 = if pitch < row {
            pitch
        } else {
            row
        };
        assert(0 <= (self.height - 1) * pitch <= 0xffff_fffe * 0xffff_ffff) by (nonlinear_arith)
            requires
                0 <= self.height - 1 <= 0xffff_fffe,
                0 <= pitch <= 0xffff_ffff,
        ;
        assert(0 <= row * self.height <= 0xffff_ffff * 0xffff_ffff) by (nonlinear_arith)
            requires
                0 <= row <= 0xffff_ffff,
                0 <= self.height <= 0xffff_ffff,
        ;
        let rows: u64 = (self.height as u64 - 1) * pitch;
        let available: u64 = available as u64;
        self.offset as u64 + taken <= available && rows <= available - (self.offset as u64 + taken)
            && row * self.height as u64 <= usize::MAX as u64
    }

    /// Copies the pixels out as packed BGRA. Nothing, where the format is not supported.
    pub fn cursor_pixels(&self, bytes: &[u8]) -> (pixels: Vec<u8>)
        requires
            self.fits(bytes@.len()),
        ensures
            pixels@ == self.pixels(bytes@),
            pixels@.len() == 0 <==> cursor_rearrangement(self.format) is None || self.width == 0,
    {
        let how = match self.format {
            VideoFormat::BGRA | VideoFormat::BGRx => Rearrangement::Copy,
            VideoFormat::RGBA | VideoFormat::RGBx => Rearrangement::SwapRb,
            VideoFormat::ARGB => Rearrangement::Reverse,
            VideoFormat::xRGB | VideoFormat::Other => {
                return Vec::new();
            },
        };
        let row: usize = (self.width * 4) as usize;
        let stride: usize = if self.stride < 0 {
            row
        } else {
            self.stride as usize
        };
        let taken: usize = if stride < row {
            stride
        } else {
            row
        };
        let available: usize = bytes.len();
        let offset: usize = self.offset as usize;
        let height: u32 = self.height;
        let ghost src = bytes@.skip(offset as int);
        let mut out: Vec<u8> = Vec::new();
        let mut y: u32 = 0;
        assert(0 * row == 0) by (nonlinear_arith);
        assert((height - 1) * stride >= 0) by (nonlinear_arith)
            requires
                height >= 1,
                stride >= 0,
        ;
        while y < height
            invariant
                y <= height,
                taken <= row,
                taken <= stride,
                taken == if stride < row {
                    stride
                } else {
                    row
                },
                available == bytes@.len(),
                offset <= available,
                offset + (height - 1) * stride + taken <= available,
                row * height <= usize::MAX,
                src == bytes@.skip(offset as int),
                out@.len() == y * row,
                out@ == cursor_rows(how, src, stride as nat, row as nat, y as nat),
            decreases height - y,
        {
            assert(0 <= y * stride <= (height - 1) * stride) by (nonlinear_arith)
                requires
                    0 <= y <= height - 1,
                    stride >= 0,
            ;
            assert((y + 1) * row == y * row + row) by (nonlinear_arith);
            assert((y + 1) * row <= row * height) by (nonlinear_arith)
                requires
                    y + 1 <= height,
                    row >= 0,
            ;
            let start: usize = y as usize * stride;
            let ghost before = out@;
            let ghost line = src.subrange(start as int, start + taken);
            let end: usize = out.len();
            out.resize(end + taken, 0);
            let (_, dest) = out.as_mut_slice().split_at_mut(end);
            let source = slice_subrange(bytes, offset + start, offset + start + taken);
            assert(source@ =~= line);
            assert(dest@ =~= zeros(taken as nat));
            convert(how, source, dest);
            assert(out@ =~= before + how.written(line, zeros(taken as nat)));
            out.resize(end + row, 0);
            assert(out@ =~= before + how.written(line, zeros(taken as nat)) + zeros(
                (row - taken) as nat,
            ));
            y += 1;
        }
        assert(row > 0 ==> height * row > 0) by (nonlinear_arith)
            requires
                height > 0,
        ;
        assert(row == 0 ==> height * row == 0) by (nonlinear_arith);
        out
    }
}

/// The update that a cursor bitmap amounts to. One that is empty, not supported, or
/// not contained in the metadata hides the cursor.
pub open spec fn bitmap_update(cursor: MetaCursor, bitmap: MetaBitmap, bytes: Seq<u8>) -> UpdateModel {
    if bitmap.format == VideoFormat::Other || bitmap.width == 0 || bitmap.height == 0
        || bitmap.offset == 0 || cursor_rearrangement(bitmap.format) is None || !bitmap.fits(
        bytes.len(),
    ) {
        UpdateModel::Hidden
    } else {
        UpdateModel::Bitmap(
            SpriteModel {
                visible: true,
                x: cursor.x,
                y: cursor.y,
                hot_x: cursor.hot_x,
                hot_y: cursor.hot_y,
                width: bitmap.width,
                height: bitmap.height,
                pixels: bitmap.pixels(bytes),
            },
        )
    }
}

/// Reads a cursor bitmap. `bytes` is the metadata from the bitmap's record on.
pub fn read_bitmap(cursor: &MetaCursor, bitmap: &MetaBitmap, bytes: &[u8]) -> (update: CursorUpdate)
    ensures
        update@ == bitmap_update(*cursor, *bitmap, bytes@),
{
    if bitmap.width == 0 || bitmap.height == 0 || bitmap.offset == 0 {
        return CursorUpdate::Hidden;
    }
    if !bitmap.within(bytes.len()) {
        return CursorUpdate::Hidden;
    }
    let pixels = bitmap.cursor_pixels(bytes);
    if pixels.len() == 0 {
        return CursorUpdate::Hidden;
    }
    CursorUpdate::Bitmap(
        Sprite {
            visible: true,
            x: cursor.x,
            y: cursor.y,
            hot_x: cursor.hot_x,
            hot_y: cursor.hot_y,
            width: bitmap.width,
            height: bitmap.height,
            pixels,
        },
    )
}

/// How numbers lie in memory.
#[derive(Debug, Clone, Copy, PartialEq, Eq, Structural)]
pub enum ByteOrder {
    Little,
    Big,
}

/// The number that lies in the four bytes from `at` on.
pub open spec fn word_at(bytes: Seq<u8>, at: int, order: ByteOrder) -> u32 {
    match order {
        ByteOrder::Little => (bytes[at] + bytes[at + 1] * 0x100 + bytes[at + 2] * 0x1_0000
            + bytes[at + 3] * 0x100_0000) as u32,
        ByteOrder::Big => (bytes[at + 3] + bytes[at + 2] * 0x100 + bytes[at + 1] * 0x1_0000
            + bytes[at] * 0x100_0000) as u32,
    }
}

fn read_word(bytes: &[u8], at: usize, order: ByteOrder) -> (word: u32)
    requires
        at + 4 <= bytes@.len(),
    ensures
        word == word_at(bytes@, at as int, order),
{
    let a: u32 = bytes[at] as u32;
    let b: u32 = bytes[at + 1] as u32;
    let c: u32 = bytes[at + 2] as u32;
    let d: u32 = bytes[at + 3] as u32;
    match order {
        ByteOrder::Little => a + b * 0x100 + c * 0x1_0000 + d * 0x100_0000,
        ByteOrder::Big => d + c * 0x100 + b * 0x1_0000 + a * 0x100_0000,
    }
}

/// The numbers that stand for the layouts of a cursor bitmap.
#[derive(Debug, Clone, Copy, PartialEq, Eq, Structural)]
pub struct FormatCodes {
    pub bgra: u32,
    pub bgrx: u32,
    pub rgba: u32,
    pub rgbx: u32,
    pub argb: u32,
}

impl FormatCodes {
    /// The layout that a number stands for.
    pub open spec fn format(self, code: u32) -> VideoFormat {
        if code == 0 {
            VideoFormat::Other
        } else if code == self.bgra {
            VideoFormat::BGRA
        } else if code == self.bgrx {
            VideoFormat::BGRx
        } else if code == self.rgba {
            VideoFormat::RGBA
        } else if code == self.rgbx {
            VideoFormat::RGBx
        } else if code == self.argb {
            VideoFormat::ARGB
        } else {
            VideoFormat::Other
        }
    }

    fn read_format(&self, code: u32) -> (format: VideoFormat)
        ensures
            format == self.format(code),
    {
        if code == 0 {
            VideoFormat::Other
        } else if code == self.bgra {
            VideoFormat::BGRA
        } else if code == self.bgrx {
            VideoFormat::BGRx
        } else if code == self.rgba {
            VideoFormat::RGBA
        } else if code == self.rgbx {
            VideoFormat::RGBx
        } else if code == self.argb {
            VideoFormat::ARGB
        } else {
            VideoFormat::Other
        }
    }
}

/// The record at the start of cursor metadata.
pub open spec fn cursor_record(bytes: Seq<u8>, order: ByteOrder) -> MetaCursor {
    MetaCursor {
        id: word_at(bytes, 0, order),
        flags: word_at(bytes, 4, order),
        x: word_at(bytes, 8, order) as i32,
        y: word_at(bytes, 12, order) as i32,
        hot_x: word_at(bytes, 16, order) as i32,
        hot_y: word_at(bytes, 20, order) as i32,
        bitmap_offset: word_at(bytes, 24, order),
    }
}

/// The record at the start of a bitmap.
pub open spec fn bitmap_record(bytes: Seq<u8>, codes: FormatCodes, order: ByteOrder) -> MetaBitmap {
    MetaBitmap {
        format: codes.format(word_at(bytes, 0, order)),
        width: word_at(bytes, 4, order),
        height: word_at(bytes, 8, order),
        stride: word_at(bytes, 12, order) as i32,
        offset: word_at(bytes, 16, order),
    }
}

/// The update that cursor metadata amounts to; none, where it is too short to say
/// anything. A bitmap whose record is not contained in the metadata hides the cursor.
pub open spec fn cursor_update(
    bytes: Seq<u8>,
    codes: FormatCodes,
    order: ByteOrder,
) -> Option<UpdateModel> {
    let cursor = cursor_record(bytes, order);
    if bytes.len() < CURSOR_HEADER {
        None
    } else {
        Some(
            match cursor.head() {
                CursorHead::Hidden => UpdateModel::Hidden,
                CursorHead::Move { x, y } => UpdateModel::Move { x, y },
                CursorHead::BitmapAt(at) => if at + BITMAP_HEADER > bytes.len() {
                    UpdateModel::Hidden
                } else {
                    let rest = bytes.skip(at as int);
                    bitmap_update(cursor, bitmap_record(rest, codes, order), rest)
                },
            },
        )
    }
}

/// Reads cursor metadata.
pub fn read_cursor(bytes: &[u8], codes: &FormatCodes, order: ByteOrder) -> (update: Option<
    CursorUpdate,
>)
    ensures
        match update {
            Some(u) => cursor_update(bytes@, *codes, order) == Some(u@),
            None => cursor_update(bytes@, *codes, order) is None,
        },
{
    let total: usize = bytes.len();
    if total < CURSOR_HEADER as usize {
        return None;
    }
    let cursor = MetaCursor {
        id: read_word(bytes, 0, order),
        flags: read_word(bytes, 4, order),
        x: read_word(bytes, 8, order) as i32,
        y: read_word(bytes, 12, order) as i32,
        hot_x: read_word(bytes, 16, order) as i32,
        hot_y: read_word(bytes, 20, order) as i32,
        bitmap_offset: read_word(bytes, 24, order),
    };
    match cursor.read_head() {
        CursorHead::Hidden => Some(CursorUpdate::Hidden),
        CursorHead::Move { x, y } => Some(CursorUpdate::Move { x, y }),
        CursorHead::BitmapAt(at) => {
            let at: usize = at as usize;
            if at > total || total - at < BITMAP_HEADER as usize {
                return Some(CursorUpdate::Hidden);
            }
            let rest = slice_subrange(bytes, at, total);
            assert(rest@ =~= bytes@.skip(at as int));
            let bitmap = MetaBitmap {
                format: codes.read_format(read_word(rest, 0, order)),
                width: read_word(rest, 4, order),
                height: read_word(rest, 8, order),
                stride: read_word(rest, 12, order) as i32,
                offset: read_word(rest, 16, order),
            };
            Some(read_bitmap(&cursor, &bitmap, rest))
        },
    }
}

/// Whatever cursor metadata holds, a shape that comes of it shows something.
pub proof fn law_read_cursors_are_sound(bytes: Seq<u8>, codes: FormatCodes, order: ByteOrder)
    ensures
        cursor_update(bytes, codes, order) matches Some(update) ==> update.sound(),
{
    let cursor = cursor_record(bytes, order);
    if let CursorHead::BitmapAt(at) = cursor.head() {
        let rest = bytes.skip(at as int);
        law_read_bitmaps_are_sound(cursor, bitmap_record(rest, codes, order), rest);
    }
}

/// A bitmap that is read always shows something.
pub proof fn law_read_bitmaps_are_sound(cursor: MetaCursor, bitmap: MetaBitmap, bytes: Seq<u8>)
    ensures
        bitmap_update(cursor, bitmap, bytes).sound(),
{
    if bitmap_update(cursor, bitmap, bytes) is Bitmap {
        assert((bitmap.height - 1) * bitmap.pitch() >= 0) by (nonlinear_arith)
            requires
                bitmap.height > 0,
                bitmap.pitch() >= 0,
        ;
    }
}

/// Where the data of a captured buffer lives.
#[derive(Debug, Clone, Copy, PartialEq, Eq, Structural)]
pub enum DataKind {
    MemPtr,
    MemFd,
    DmaBuf,
    Other,
}

/// The part of a buffer that is filled.
#[derive(Debug, Clone, Copy, PartialEq, Eq, Structural)]
pub struct Chunk {
    pub offset: u32,
    pub size: u32,
    pub stride: i32,
}

/// The first data block of a captured buffer.
#[derive(Debug, Clone, Copy, PartialEq, Eq, Structural)]
pub struct DataBlock {
    pub kind: DataKind,
    pub fd: i64,
    pub maxsize: u32,
    pub chunk: Option<Chunk>,
}

/// Whether mutter filled this buffer with a dma-buf rather than mapped memory.
/// Both are offered during negotiation, so the answer can change per stream.
pub fn is_dmabuf(block: Option<DataBlock>) -> (is: bool)
    ensures
        is == (block matches Some(b) && b.kind == DataKind::DmaBuf),
{
    match block {
        Some(b) => b.kind == DataKind::DmaBuf,
        None => false,
    }
}

/// The filled part of a block, where it has one.
pub open spec fn chunk_of(block: Option<DataBlock>) -> Option<Chunk> {
    match block {
        Some(b) => b.chunk,
        None => None,
    }
}

/// Row pitch mutter allocated, which for a tiled buffer is padded past
/// `width * 4`.
pub fn video_chunk_stride(block: Option<DataBlock>) -> (stride: i32)
    ensures
        stride == match chunk_of(block) {
            Some(chunk) => chunk.stride,
            None => 0,
        },
{
    match block {
        Some(b) => match b.chunk {
            Some(chunk) => chunk.stride,
            None => 0,
        },
        None => 0,
    }
}

/// Bytes of video in a buffer. One that carries only the cursor has none.
pub fn video_chunk_size(block: Option<DataBlock>) -> (size: u32)
    ensures
        size == match chunk_of(block) {
            Some(chunk) => chunk.size,
            None => 0,
        },
{
    match block {
        Some(b) => match b.chunk {
            Some(chunk) => chunk.size,
            None => 0,
        },
        None => 0,
    }
}

/// What is done with the video part of a buffer.
#[derive(Debug, Clone, Copy, PartialEq, Eq, Structural)]
pub enum FrameRoute {
    /// It is counted and left where it is.
    Count,
    /// There is nothing to count.
    Ignore,
    /// It is handed on without touching its pixels.
    Import,
    /// It is copied.
    Copy,
}

pub open spec fn route(dequeue_only: bool, importing: bool, block: Option<DataBlock>) -> FrameRoute {
    if dequeue_only {
        if chunk_of(block) matches Some(chunk) && chunk.size > 0 {
            FrameRoute::Count
        } else {
            FrameRoute::Ignore
        }
    } else if importing && (block matches Some(b) && b.kind == DataKind::DmaBuf) {
        FrameRoute::Import
    } else {
        FrameRoute::Copy
    }
}

/// Decides what is done with a buffer, where only dequeueing may be wanted and frames
/// on the GPU may be imported.
pub fn frame_route(dequeue_only: bool, importing: bool, block: Option<DataBlock>) -> (chosen:
    FrameRoute)
    ensures
        chosen == route(dequeue_only, importing, block),
{
    if dequeue_only {
        if video_chunk_size(block) > 0 {
            FrameRoute::Count
        } else {
            FrameRoute::Ignore
        }
    } else if importing && is_dmabuf(block) {
        FrameRoute::Import
    } else {
        FrameRoute::Copy
    }
}

/// How a dma-buf is described to the encoder.
#[derive(Debug, Clone, Copy, PartialEq, Eq, Structural)]
pub struct DmaBufFrame {
    pub fd: i32,
    pub size: u32,
    pub offset: u32,
    pub stride: i32,
}

/// The row pitch that applies: where none is given, rows are not padded.
pub open spec fn applied_stride(stride: i32, width: u32) -> int {
    if stride > 0 {
        stride as int
    } else {
        width * 4
    }
}

/// The block holds a dma-buf frame that is not empty.
pub open spec fn importable(block: Option<DataBlock>) -> bool {
    &&& block matches Some(b)
    &&& b.kind == DataKind::DmaBuf
    &&& (b.fd as i32) >= 0
    &&& b.chunk matches Some(chunk)
    &&& chunk.size > 0
}

/// A row of the frame that is imported can be measured, where that has to be done.
pub open spec fn import_in_range(block: Option<DataBlock>, width: u32) -> bool {
    importable(block) && (block->0.chunk->0).stride <= 0 ==> width * 4 <= u32::MAX
}

/// Describes a dma-buf frame, where the block holds one that is not empty.
///
/// The row pitch is whatever the GPU allocated. It is carried rather than inferred:
/// with the wrong one every row is read at the wrong offset and the image shears.
pub fn wrap_dmabuf_frame(block: Option<DataBlock>, width: u32) -> (frame: Option<DmaBufFrame>)
    requires
        import_in_range(block, width),
    ensures
        frame is Some <==> importable(block),
        frame matches Some(f) ==> {
            &&& f.fd == block->0.fd as i32
            &&& f.size == block->0.maxsize
            &&& f.offset == block->0.chunk->0.offset
            &&& f.stride == applied_stride(block->0.chunk->0.stride, width) as u32 as i32
        },
{
    match block {
        Some(b) => match b.chunk {
            Some(chunk) => {
                let fd: i32 = b.fd as i32;
                if b.kind != DataKind::DmaBuf || chunk.size == 0 || fd < 0 {
                    return None;
                }
                assert(chunk.stride > 0 ==> chunk.stride as u32 as i32 == chunk.stride);
                let stride: i32 = if chunk.stride > 0 {
                    chunk.stride
                } else {
                    (width * 4) as i32
                };
                Some(
                    DmaBufFrame { fd, size: b.maxsize, offset: chunk.offset, stride },
                )
            },
            None => None,
        },
        None => None,
    }
}

/// A captured frame in memory.
#[derive(Debug, Clone)]
pub struct VideoFrame {
    pub width: u32,
    pub height: u32,
    /// Packed BGRx, `width * 4` bytes per row.
    pub pixels: Vec<u8>,
}

/// The negotiated format of a screen-cast.
#[derive(Debug, Clone, Copy, PartialEq, Eq, Structural)]
pub struct NegotiatedFormat {
    pub format: VideoFormat,
    pub width: u32,
    pub height: u32,
}

/// What has been complained about once and is not complained about again.
#[derive(Debug, Clone, Copy, PartialEq, Eq, Structural)]
pub struct CaptureWarnings {
    pub unmapped: bool,
    pub format: bool,
}

/// What copying a frame comes to.
pub enum CopyOutcome {
    /// There is no frame in the buffer, or it does not lie within the buffer.
    Nothing,
    /// There is one, but it cannot be read from here.
    Unmapped,
    /// There is one, but it cannot be packed.
    Unpackable,
    Packed(Seq<u8>),
}

/// What comes of copying the frame of `block`, whose mapped memory is `mapped`.
pub open spec fn copied(
    block: Option<DataBlock>,
    mapped: Option<Seq<u8>>,
    format: NegotiatedFormat,
) -> CopyOutcome {
    match (chunk_of(block), mapped) {
        (None, _) => CopyOutcome::Nothing,
        (Some(chunk), None) => if chunk.size == 0 {
            CopyOutcome::Nothing
        } else {
            CopyOutcome::Unmapped
        },
        (Some(chunk), Some(memory)) => if chunk.size == 0 || format.width == 0 || format.height == 0
            || chunk.offset + chunk.size > memory.len() {
            CopyOutcome::Nothing
        } else {
            let row = format.width * 4;
            let stride = applied_stride(chunk.stride, format.width);
            if format.format == VideoFormat::Other || stride < row || (format.height - 1) * stride
                + row > chunk.size {
                CopyOutcome::Unpackable
            } else {
                CopyOutcome::Packed(
                    format.format.rearrangement()->0.packed(
                        memory.subrange(chunk.offset as int, chunk.offset + chunk.size),
                        stride as nat,
                        row as nat,
                        format.height as nat,
                    ),
                )
            }
        },
    }
}

/// A row of the frame that is copied can be measured, where that has to be done.
pub open spec fn copy_in_range(
    block: Option<DataBlock>,
    mapped: Option<Seq<u8>>,
    format: NegotiatedFormat,
) -> bool {
    match (chunk_of(block), mapped) {
        (Some(chunk), Some(memory)) => if chunk.size > 0 && format.width > 0 && format.height > 0
            && chunk.offset + chunk.size <= memory.len() && (chunk.stride <= 0 || format.format
            != VideoFormat::Other) {
            format.width * 4 <= u32::MAX
        } else {
            true
        },
        _ => true,
    }
}

/// The bytes of memory that may be mapped.
pub open spec fn memory_of(mapped: Option<&[u8]>) -> Option<Seq<u8>> {
    match mapped {
        Some(memory) => Some(memory@),
        None => None,
    }
}

/// Copies a frame out of a buffer and packs it. Each complaint is noted in `warned`,
/// so that it is made only once.
pub fn copy_video_frame(
    block: Option<DataBlock>,
    mapped: Option<&[u8]>,
    format: NegotiatedFormat,
    warned: &mut CaptureWarnings,
) -> (frame: Option<VideoFrame>)
    requires
        copy_in_range(block, memory_of(mapped), format),
    ensures
        ({
            let outcome = copied(block, memory_of(mapped), format);
            &&& frame is Some <==> outcome is Packed
            &&& frame matches Some(f) ==> f.width == format.width && f.height == format.height
                && outcome == CopyOutcome::Packed(f.pixels@)
            &&& final(warned).unmapped == (old(warned).unmapped || outcome is Unmapped)
            &&& final(warned).format == (old(warned).format || outcome is Unpackable)
        }),
{
    let chunk = match block {
        Some(b) => match b.chunk {
            Some(chunk) => chunk,
            None => {
                return None;
            },
        },
        None => {
            return None;
        },
    };
    if chunk.size == 0 {
        return None;
    }
    let memory = match mapped {
        Some(memory) => memory,
        None => {
            warned.unmapped = true;
            return None;
        },
    };
    if format.width == 0 || format.height == 0 {
        return None;
    }
    let available: usize = memory.len();
    let offset: usize = chunk.offset as usize;
    let size: usize = chunk.size as usize;
    match offset.checked_add(size) {
        Some(end) => {
            if end > available {
                return None;
            }
        },
        None => {
            return None;
        },
    }
    let pixels = slice_subrange(memory, offset, offset + size);
    let stride: usize = if chunk.stride > 0 {
        chunk.stride as usize
    } else {
        (format.width * 4) as usize
    };
    match pack_video(pixels, stride, format.width, format.height, format.format) {
        Some(packed) => Some(
            VideoFrame { width: format.width, height: format.height, pixels: packed },
        ),
        None => {
            warned.format = true;
            None
        },
    }
}

/// A dma-buf layout the GPU can import, as negotiated with mutter.
#[derive(Debug, Clone, Copy)]
pub struct DmaBufImport {
    /// Video format name, e.g. `BGRA`.
    pub spa_format: &'static str,
    /// The same layout as a DRM fourcc, e.g. `AR24`.
    pub fourcc: &'static str,
    /// DRM format modifier describing the tiling.
    pub modifier: u64,
}

impl DmaBufImport {
    /// The layout that the format's name stands for; BGRx, where it is none of the
    /// others.
    pub open spec fn layout(self) -> VideoFormat {
        if self.spa_format@ == "BGRA"@ {
            VideoFormat::BGRA
        } else if self.spa_format@ == "RGBA"@ {
            VideoFormat::RGBA
        } else if self.spa_format@ == "RGBx"@ {
            VideoFormat::RGBx
        } else {
            VideoFormat::BGRx
        }
    }

    pub fn video_format(&self) -> (format: VideoFormat)
        ensures
            format == self.layout(),
    {
        if crate::text::text_eq(self.spa_format, "BGRA") {
            VideoFormat::BGRA
        } else if crate::text::text_eq(self.spa_format, "RGBA") {
            VideoFormat::RGBA
        } else if crate::text::text_eq(self.spa_format, "RGBx") {
            VideoFormat::RGBx
        } else {
            VideoFormat::BGRx
        }
    }

    /// The layout as one word, e.g. `AR24:0x0100000000000002`.
    pub fn drm_format(&self) -> (word: String)
        ensures
            word@ == self.fourcc@ + ":0x"@ + hex(self.modifier as nat, 16),
    {
        let mut word = String::new();
        word.append(self.fourcc);
        word.append(":0x");
        push_hex(&mut word, self.modifier, 16);
        assert(word@ =~= self.fourcc@ + ":0x"@ + hex(self.modifier as nat, 16));
        word
    }
}

/// What a capture stream is offered as.
#[derive(Debug, Clone, Copy, PartialEq, Eq, Structural)]
pub enum StreamParam {
    DmaBufFormat,
    MemoryFormat,
    CursorMeta,
    Buffers,
}

/// The order in which a capture stream is described. The format of a dma-buf comes
/// first so that mutter prefers it; the one in memory stays as the fallback.
pub fn stream_params(importing: bool) -> (params: Vec<StreamParam>)
    ensures
        params@ == if importing {
            seq![
                StreamParam::DmaBufFormat,
                StreamParam::MemoryFormat,
                StreamParam::CursorMeta,
                StreamParam::Buffers,
            ]
        } else {
            seq![StreamParam::MemoryFormat, StreamParam::CursorMeta, StreamParam::Buffers]
        },
{
    let mut params: Vec<StreamParam> = Vec::new();
    if importing {
        params.push(StreamParam::DmaBufFormat);
    }
    params.push(StreamParam::MemoryFormat);
    params.push(StreamParam::CursorMeta);
    params.push(StreamParam::Buffers);
    params
}

/// The layouts a frame in memory may come in, the preferred one first.
pub fn offered_formats() -> (formats: Vec<VideoFormat>)
    ensures
        formats@ == seq![
            VideoFormat::BGRx,
            VideoFormat::BGRA,
            VideoFormat::RGBx,
            VideoFormat::RGBA,
            VideoFormat::xRGB,
            VideoFormat::ARGB,
        ],
{
    vec![
        VideoFormat::BGRx,
        VideoFormat::BGRA,
        VideoFormat::RGBx,
        VideoFormat::RGBA,
        VideoFormat::xRGB,
        VideoFormat::ARGB,
    ]
}

/// Where the data of a buffer may live.
pub fn offered_data(importing: bool) -> (kinds: Vec<DataKind>)
    ensures
        kinds@ == if importing {
            seq![DataKind::MemPtr, DataKind::MemFd, DataKind::DmaBuf]
        } else {
            seq![DataKind::MemPtr, DataKind::MemFd]
        },
{
    let mut kinds: Vec<DataKind> = Vec::new();
    kinds.push(DataKind::MemPtr);
    kinds.push(DataKind::MemFd);
    if importing {
        kinds.push(DataKind::DmaBuf);
    }
    kinds
}

/// The size of cursor metadata with a bitmap of these dimensions.
pub open spec fn meta_size(w: int, h: int) -> int {
    CURSOR_HEADER + BITMAP_HEADER + w * h * 4
}

pub fn cursor_meta_size(w: u32, h: u32) -> (size: i32)
    requires
        meta_size(w as int, h as int) <= i32::MAX,
    ensures
        size == meta_size(w as int, h as int),
        size == 48 + w * h * 4,
{
    assert(0 <= w * h) by (nonlinear_arith);
    (CURSOR_HEADER + BITMAP_HEADER + w * h * 4) as i32
}

/// The sizes of cursor metadata that are asked for: the usual, the least and the most.
pub fn cursor_meta_range() -> (range: (i32, i32, i32))
    ensures
        range.0 == meta_size(64, 64),
        range.1 == CURSOR_HEADER,
        range.2 == meta_size(CURSOR_META_MAX as int, CURSOR_META_MAX as int),
        range == (16_432i32, 28i32, 589_872i32),
{
    (
        cursor_meta_size(64, 64),
        CURSOR_HEADER as i32,
        cursor_meta_size(CURSOR_META_MAX, CURSOR_META_MAX),
    )
}

/// A format that frames may come in.
#[derive(Debug, Clone)]
pub struct FormatOffer {
    /// The layouts, the preferred one first.
    pub formats: Vec<VideoFormat>,
    pub width: u32,
    pub height: u32,
    /// Frames come when something changes, at no fixed rate; the highest rate that is
    /// taken, where one is named.
    pub fastest: Option<u32>,
    /// The tiling that frames on the GPU have to have. Its presence is what says that
    /// such frames are taken at all.
    pub modifier: Option<u64>,
}

/// The format for frames in memory.
pub fn video_enum_format(width: u32, height: u32) -> (offer: FormatOffer)
    ensures
        offer.formats@ == seq![
            VideoFormat::BGRx,
            VideoFormat::BGRA,
            VideoFormat::RGBx,
            VideoFormat::RGBA,
            VideoFormat::xRGB,
            VideoFormat::ARGB,
        ],
        offer.width == width,
        offer.height == height,
        offer.fastest == Some(1000u32),
        offer.modifier is None,
{
    FormatOffer {
        formats: offered_formats(),
        width,
        height,
        fastest: Some(1000),
        modifier: None,
    }
}

/// The format for frames on the GPU: exactly one layout. A choice of layouts would have
/// to be settled in a second round of negotiation; where mutter cannot produce this
/// one, the format for frames in memory is used instead.
pub fn video_enum_format_dmabuf(width: u32, height: u32, import: &DmaBufImport) -> (offer:
    FormatOffer)
    ensures
        offer.formats@ == seq![import.layout()],
        offer.width == width,
        offer.height == height,
        offer.fastest is None,
        offer.modifier == Some(import.modifier),
{
    let mut formats: Vec<VideoFormat> = Vec::new();
    formats.push(import.video_format());
    FormatOffer { formats, width, height, fastest: None, modifier: Some(import.modifier) }
}

/// Whether buffers are only dequeued and counted, as this setting asks for.
pub fn dequeue_only(setting: Option<&str>) -> (only: bool)
    ensures
        only == (setting matches Some(word) && word@ == "dequeue"@),
{
    match setting {
        Some(word) => crate::text::text_eq(word, "dequeue"),
        None => false,
    }
}

/// What a capture stream knows of its frames.
#[derive(Debug)]
pub struct CaptureData {
    pub format: NegotiatedFormat,
    pub warned: CaptureWarnings,
    pub dequeue_only: bool,
    /// The layout that was asked for, where frames should stay on the GPU.
    pub dmabuf: Option<DmaBufImport>,
}

/// What is left to do for the video part of a buffer.
#[derive(Debug)]
pub enum VideoStep {
    Nothing,
    /// Wrap this dma-buf and hand it on.
    Import(DmaBufFrame),
    /// Hand this frame on.
    Push { frame: VideoFrame, plan: FramePlan },
}

impl CaptureData {
    /// A stream whose format has not been negotiated yet.
    pub fn new(dequeue_only: bool, dmabuf: Option<DmaBufImport>) -> (data: CaptureData)
        ensures
            data.format == (NegotiatedFormat { format: VideoFormat::Other, width: 0, height: 0 }),
            data.warned == (CaptureWarnings { unmapped: false, format: false }),
            data.dequeue_only == dequeue_only,
            data.dmabuf == dmabuf,
    {
        CaptureData {
            format: NegotiatedFormat { format: VideoFormat::Other, width: 0, height: 0 },
            warned: CaptureWarnings { unmapped: false, format: false },
            dequeue_only,
            dmabuf,
        }
    }

    /// What becomes of the video part of a buffer.
    pub open spec fn routed(self, block: Option<DataBlock>) -> FrameRoute {
        route(self.dequeue_only, self.dmabuf is Some, block)
    }

    /// A row of the frame can be measured, where that has to be done.
    pub open spec fn in_range(self, block: Option<DataBlock>, mapped: Option<Seq<u8>>) -> bool {
        match self.routed(block) {
            FrameRoute::Import => import_in_range(block, self.format.width),
            FrameRoute::Copy => copy_in_range(block, mapped, self.format),
            _ => true,
        }
    }

    /// Whether the frame of a buffer can be taken in.
    pub fn accepts(&self, block: Option<DataBlock>, mapped: Option<&[u8]>) -> (accepted: bool)
        ensures
            accepted == self.in_range(block, memory_of(mapped)),
    {
        if self.format.width <= u32::MAX / 4 {
            return true;
        }
        let chunk = match block {
            Some(b) => match b.chunk {
                Some(chunk) => chunk,
                None => {
                    return true;
                },
            },
            None => {
                return true;
            },
        };
        match frame_route(self.dequeue_only, self.dmabuf.is_some(), block) {
            FrameRoute::Import => {
                let fd: i32 = match block {
                    Some(b) => b.fd as i32,
                    None => -1,
                };
                fd < 0 || chunk.size == 0 || chunk.stride > 0
            },
            FrameRoute::Copy => match mapped {
                Some(memory) => {
                    let outside = match (chunk.offset as usize).checked_add(chunk.size as usize) {
                        Some(end) => end > memory.len(),
                        None => true,
                    };
                    chunk.size == 0 || self.format.height == 0 || outside || (chunk.stride > 0
                        && self.format.format == VideoFormat::Other)
                },
                None => true,
            },
            _ => true,
        }
    }

    /// Takes in the video part of a buffer. What is counted is a buffer whose video was
    /// copied, or would only have been dequeued; a dma-buf counts once it was wrapped.
    pub fn on_video(
        &mut self,
        hub: &mut CursorHub,
        block: Option<DataBlock>,
        mapped: Option<&[u8]>,
    ) -> (step: VideoStep)
        requires
            old(self).in_range(block, memory_of(mapped)),
        ensures
            final(self).format == old(self).format,
            final(self).dequeue_only == old(self).dequeue_only,
            final(self).dmabuf == old(self).dmabuf,
            match old(self).routed(block) {
                FrameRoute::Ignore => {
                    &&& step is Nothing
                    &&& final(hub)@ == old(hub)@
                    &&& final(self).warned == old(self).warned
                },
                FrameRoute::Count => {
                    &&& step is Nothing
                    &&& final(hub)@ == old(hub)@.counted()
                    &&& final(self).warned == old(self).warned
                },
                FrameRoute::Import => {
                    &&& final(hub)@ == old(hub)@
                    &&& final(self).warned == old(self).warned
                    &&& match step {
                        VideoStep::Import(frame) => {
                            let chunk = block->0.chunk->0;
                            &&& importable(block)
                            &&& frame.fd == block->0.fd as i32
                            &&& frame.size == block->0.maxsize
                            &&& frame.offset == chunk.offset
                            &&& frame.stride == applied_stride(
                                chunk.stride,
                                old(self).format.width,
                            ) as u32 as i32
                        },
                        VideoStep::Nothing => !importable(block),
                        VideoStep::Push { .. } => false,
                    }
                },
                FrameRoute::Copy => {
                    let outcome = copied(block, memory_of(mapped), old(self).format);
                    &&& final(self).warned.unmapped == (old(self).warned.unmapped || outcome
                        is Unmapped)
                    &&& final(self).warned.format == (old(self).warned.format || outcome
                        is Unpackable)
                    &&& match step {
                        VideoStep::Push { frame, plan } => {
                            &&& outcome == CopyOutcome::Packed(frame.pixels@)
                            &&& frame.width == old(self).format.width
                            &&& frame.height == old(self).format.height
                            &&& plan.follows(
                                old(hub)@,
                                old(hub)@.announced(frame.width, frame.height, None),
                            )
                            &&& final(hub)@ == (HubModel {
                                seen_video: true,
                                ..old(hub)@.counted()
                            })
                        },
                        VideoStep::Nothing => !(outcome is Packed) && final(hub)@ == old(hub)@,
                        VideoStep::Import(_) => false,
                    }
                },
            },
    {
        match frame_route(self.dequeue_only, self.dmabuf.is_some(), block) {
            FrameRoute::Ignore => VideoStep::Nothing,
            FrameRoute::Count => {
                hub.count_frame();
                VideoStep::Nothing
            },
            FrameRoute::Import => match wrap_dmabuf_frame(block, self.format.width) {
                Some(frame) => VideoStep::Import(frame),
                None => VideoStep::Nothing,
            },
            FrameRoute::Copy => match copy_video_frame(
                block,
                mapped,
                self.format,
                &mut self.warned,
            ) {
                Some(frame) => {
                    hub.count_frame();
                    let plan = hub.on_video_frame(frame.width, frame.height);
                    VideoStep::Push { frame, plan }
                },
                None => VideoStep::Nothing,
            },
        }
    }
}

/// Every layout that is offered can be packed.
pub proof fn law_offered_formats_can_be_packed(format: VideoFormat)
    requires
        seq![
            VideoFormat::BGRx,
            VideoFormat::BGRA,
            VideoFormat::RGBx,
            VideoFormat::RGBA,
            VideoFormat::xRGB,
            VideoFormat::ARGB,
        ].contains(format),
    ensures
        format.rearrangement() is Some,
{
}

/// A frame on the GPU is never read, and one in memory is never imported.
pub proof fn law_frames_take_one_route(importing: bool, block: Option<DataBlock>)
    ensures
        route(false, importing, block) == FrameRoute::Import || route(false, importing, block)
            == FrameRoute::Copy,
        route(false, importing, block) == FrameRoute::Import ==> (block matches Some(b) && b.kind
            == DataKind::DmaBuf),
        importing && (block matches Some(b) && b.kind == DataKind::DmaBuf) ==> route(
            false,
            importing,
            block,
        ) == FrameRoute::Import,
{
}

/// A byte of a cursor row is one of the source row, or zero where that is shorter.
proof fn lemma_cursor_row_bytes(
    how: Rearrangement,
    src: Seq<u8>,
    stride: nat,
    row: nat,
    height: nat,
    taken: nat,
    y: nat,
    j: nat,
)
    requires
        taken == if stride < row {
            stride
        } else {
            row
        },
        y < height,
        j < row,
        (height - 1) * stride + taken <= src.len(),
    ensures
        cursor_rows(how, src, stride, row, height).len() == height * row,
        y * row + j < height * row,
        cursor_rows(how, src, stride, row, height)[(y * row + j) as int] == if j < taken {
            how.written(
                src.subrange((y * stride) as int, (y * stride + taken) as int),
                zeros(taken),
            )[j as int]
        } else {
            0u8
        },
    decreases height,
{
    let before = (height - 1) as nat;
    assert(height * row == before * row + row) by (nonlinear_arith)
        requires
            height == before + 1,
    ;
    assert(before * stride >= 0) by (nonlinear_arith);
    assert((before - 1) * stride <= before * stride) by (nonlinear_arith)
        requires
            stride >= 0,
    ;
    lemma_cursor_rows_len(how, src, stride, row, before, taken);
    assert(y * row + row <= before * row + row) by (nonlinear_arith)
        requires
            y <= before,
            row >= 0,
    ;
    if y < before {
        lemma_cursor_row_bytes(how, src, stride, row, before, taken, y, j);
    }
}

proof fn lemma_cursor_rows_len(
    how: Rearrangement,
    src: Seq<u8>,
    stride: nat,
    row: nat,
    height: nat,
    taken: nat,
)
    requires
        taken == if stride < row {
            stride
        } else {
            row
        },
    ensures
        cursor_rows(how, src, stride, row, height).len() == height * row,
    decreases height,
{
    if height > 0 {
        let before = (height - 1) as nat;
        assert(height * row == before * row + row) by (nonlinear_arith)
            requires
                height == before + 1,
        ;
        lemma_cursor_rows_len(how, src, stride, row, before, taken);
    } else {
        assert(0 * row == 0) by (nonlinear_arith);
    }
}

/// A byte of a whole pixel that the source row has is the one that the rearrangement names.
proof fn lemma_cursor_pixel_byte(
    how: Rearrangement,
    src: Seq<u8>,
    stride: nat,
    row: nat,
    height: nat,
    taken: nat,
    y: nat,
    x: nat,
    i: nat,
)
    requires
        taken == if stride < row {
            stride
        } else {
            row
        },
        y < height,
        4 * x + 4 <= row,
        i < 4,
        (height - 1) * stride + taken <= src.len(),
    ensures
        4 * x + 4 <= taken ==> cursor_rows(how, src, stride, row, height)[(y * row + 4 * x + i) as int]
            == src[y * stride + how.origin((4 * x + i) as int)],
        taken <= 4 * x ==> cursor_rows(how, src, stride, row, height)[(y * row + 4 * x + i) as int]
            == 0,
{
    let j = 4 * x + i;
    lemma_cursor_row_bytes(how, src, stride, row, height, taken, y, j);
    assert(0 <= y * stride <= (height - 1) * stride) by (nonlinear_arith)
        requires
            0 <= y <= height - 1,
            stride >= 0,
    ;
    crate::video::pixels::law_bytes_stay_in_their_pixel(how, j as int);
    let line = src.subrange((y * stride) as int, (y * stride + taken) as int);
    if 4 * x + 4 <= taken {
        assert(how.written(line, zeros(taken))[j as int] == line[how.origin(j as int)]);
    }
}

/// The cursor bitmap has a layout that can be drawn.
pub open spec fn is_drawable(format: VideoFormat) -> bool {
    match format {
        VideoFormat::BGRA
        | VideoFormat::BGRx
        | VideoFormat::RGBA
        | VideoFormat::RGBx
        | VideoFormat::ARGB => true,
        VideoFormat::xRGB | VideoFormat::Other => false,
    }
}

/// Every pixel of a cursor has the colours of the pixel at its place in the bitmap; where
/// the rows of that are too short, what they lack is transparent.
pub proof fn law_cursors_keep_every_colour(bitmap: MetaBitmap, bytes: Seq<u8>, x: nat, y: nat)
    requires
        is_drawable(bitmap.format),
        bitmap.fits(bytes.len()),
        x < bitmap.width,
        y < bitmap.height,
    ensures
        ({
            let pixels = bitmap.pixels(bytes);
            let pitch = if bitmap.stride < 0 {
                4 * bitmap.width
            } else {
                bitmap.stride as int
            };
            let to = 4 * (y * bitmap.width + x);
            &&& pixels.len() == 4 * (bitmap.width * bitmap.height)
            &&& 4 * x + 4 <= pitch ==> crate::video::pixels::same_colour(
                bitmap.format,
                bytes,
                bitmap.offset + y * pitch + 4 * x,
                pixels,
                to,
            )
            &&& pitch <= 4 * x ==> pixels[to] == 0 && pixels[to + 1] == 0 && pixels[to + 2] == 0
                && pixels[to + 3] == 0
        }),
{
    let how = cursor_rearrangement(bitmap.format)->0;
    let pitch = bitmap.pitch() as nat;
    let row = (bitmap.width * 4) as nat;
    let taken = bitmap.taken() as nat;
    let height = bitmap.height as nat;
    let src = bytes.skip(bitmap.offset as int);
    assert((height - 1) * pitch >= 0) by (nonlinear_arith)
        requires
            height >= 1,
            pitch >= 0,
    ;
    lemma_cursor_rows_len(how, src, pitch, row, height, taken);
    assert(height * row == 4 * (bitmap.width * bitmap.height)) by (nonlinear_arith)
        requires
            row == bitmap.width * 4,
            height == bitmap.height,
    ;
    assert(y * row + 4 * x == 4 * (y * bitmap.width + x)) by (nonlinear_arith)
        requires
            row == bitmap.width * 4,
    ;
    let from = y * pitch;
    assert(0 <= from <= (height - 1) * pitch) by (nonlinear_arith)
        requires
            0 <= y <= height - 1,
            pitch >= 0,
            from == y * pitch,
    ;
    let pixels = cursor_rows(how, src, pitch, row, height);
    let to = y * row + 4 * x;
    lemma_cursor_pixel_byte(how, src, pitch, row, height, taken, y, x, 0);
    lemma_cursor_pixel_byte(how, src, pitch, row, height, taken, y, x, 1);
    lemma_cursor_pixel_byte(how, src, pitch, row, height, taken, y, x, 2);
    lemma_cursor_pixel_byte(how, src, pitch, row, height, taken, y, x, 3);
    if 4 * x + 4 <= taken {
        lemma_origins(x as int);
        assert forall|i: int| 0 <= i < 4 implies #[trigger] src[from + 4 * x + i]
            == bytes[bitmap.offset + from + 4 * x + i] by {}
    }
}

/// Where the bytes of a pixel come from.
proof fn lemma_origins(x: int)
    requires
        0 <= x,
    ensures
        forall|i: int| 0 <= i < 4 ==> #[trigger] Rearrangement::Copy.origin(4 * x + i) == 4 * x + i,
        Rearrangement::SwapRb.origin(4 * x + 0) == 4 * x + 2,
        Rearrangement::SwapRb.origin(4 * x + 1) == 4 * x + 1,
        Rearrangement::SwapRb.origin(4 * x + 2) == 4 * x + 0,
        Rearrangement::SwapRb.origin(4 * x + 3) == 4 * x + 3,
        Rearrangement::Reverse.origin(4 * x + 0) == 4 * x + 3,
        Rearrangement::Reverse.origin(4 * x + 1) == 4 * x + 2,
        Rearrangement::Reverse.origin(4 * x + 2) == 4 * x + 1,
        Rearrangement::Reverse.origin(4 * x + 3) == 4 * x + 0,
{
}

/// A bitmap fits where each of its rows does, as far as it is read.
pub proof fn law_a_bitmap_fits_with_all_its_rows(bitmap: MetaBitmap, available: nat)
    requires
        bitmap.height > 0,
        bitmap.width * 4 <= u32::MAX,
        bitmap.width * 4 * bitmap.height <= usize::MAX,
        bitmap.stride >= 0 || bitmap.height == 1,
    ensures
        bitmap.fits(available) <==> forall|y: int|
            0 <= y < bitmap.height ==> row_lies_within(bitmap, y, available),
{
    let pitch = bitmap.pitch();
    if bitmap.fits(available) {
        assert forall|y: int| 0 <= y < bitmap.height implies row_lies_within(
            bitmap,
            y,
            available,
        ) by {
            assert(y * pitch <= (bitmap.height - 1) * pitch) by (nonlinear_arith)
                requires
                    0 <= y <= bitmap.height - 1,
                    pitch >= 0,
            ;
            if bitmap.stride < 0 {
                assert(y * pitch == 0) by (nonlinear_arith)
                    requires
                        y == 0,
                ;
                assert(y * bitmap.stride == 0) by (nonlinear_arith)
                    requires
                        y == 0,
                ;
            }
        }
    }
    if forall|y: int| 0 <= y < bitmap.height ==> row_lies_within(bitmap, y, available) {
        assert(row_lies_within(bitmap, bitmap.height - 1, available));
        if bitmap.stride < 0 {
            assert(0 * pitch == 0) by (nonlinear_arith);
            assert(0 * bitmap.stride == 0) by (nonlinear_arith);
        }
    }
}

/// What is read of row `y` lies within the bytes that there are.
pub open spec fn row_lies_within(bitmap: MetaBitmap, y: int, available: nat) -> bool {
    let start = bitmap.offset + y * bitmap.stride;
    if 0 <= bitmap.stride < 4 * bitmap.width {
        start + bitmap.stride <= available
    } else {
        start + 4 * bitmap.width <= available
    }
}

/// A bitmap that can be drawn, shows something and lies within the metadata becomes the
/// cursor, where it stands and with its own hot spot; any other hides it.
pub proof fn law_a_bitmap_is_the_cursor(cursor: MetaCursor, bitmap: MetaBitmap, bytes: Seq<u8>)
    ensures
        is_drawable(bitmap.format) && bitmap.width > 0 && bitmap.height > 0 && bitmap.offset > 0
            && bitmap.fits(bytes.len()) ==> {
            &&& bitmap_update(cursor, bitmap, bytes) matches UpdateModel::Bitmap(sprite)
            &&& sprite.visible
            &&& sprite.x == cursor.x && sprite.y == cursor.y
            &&& sprite.hot_x == cursor.hot_x && sprite.hot_y == cursor.hot_y
            &&& sprite.width == bitmap.width && sprite.height == bitmap.height
            &&& sprite.pixels == bitmap.pixels(bytes)
        },
        !is_drawable(bitmap.format) || bitmap.width == 0 || bitmap.height == 0 || bitmap.offset == 0
            || !bitmap.fits(bytes.len()) ==> bitmap_update(cursor, bitmap, bytes)
            is Hidden,
{
}

/// A number in memory is made up of its four bytes, the least significant first or last.
pub proof fn law_words_are_their_bytes(bytes: Seq<u8>, at: int)
    ensures
        word_at(bytes, at, ByteOrder::Little) == bytes[at] + 256 * (bytes[at + 1] + 256 * (bytes[at
            + 2] + 256 * bytes[at + 3])),
        word_at(bytes, at, ByteOrder::Big) == bytes[at + 3] + 256 * (bytes[at + 2] + 256 * (bytes[at
            + 1] + 256 * bytes[at])),
{
    let a: u8 = bytes[at];
    let b: u8 = bytes[at + 1];
    let c: u8 = bytes[at + 2];
    let d: u8 = bytes[at + 3];
    assert(0 <= a + b * 0x100 + c * 0x1_0000 + d * 0x100_0000 <= u32::MAX);
    assert(0 <= d + c * 0x100 + b * 0x1_0000 + a * 0x100_0000 <= u32::MAX);
}

/// Cursor metadata is read field by field: the id first, the position at its ninth byte,
/// the hot spot at its seventeenth and the place of the bitmap at its twenty-fifth; of a
/// bitmap the size at its fifth byte, the row length at its thirteenth and the place of the
/// pixels at its seventeenth.
pub proof fn law_cursor_metadata_is_read_in_place(
    bytes: Seq<u8>,
    codes: FormatCodes,
    order: ByteOrder,
)
    ensures
        ({
            let update = cursor_update(bytes, codes, order);
            let at = word_at(bytes, 24, order);
            let shown = word_at(bytes, 0, order) != 0;
            &&& update is None <==> bytes.len() < 28
            &&& bytes.len() >= 28 && !shown ==> update == Some(UpdateModel::Hidden)
            &&& bytes.len() >= 28 && shown && at < 28 ==> update == Some(
                UpdateModel::Move {
                    x: word_at(bytes, 8, order) as i32,
                    y: word_at(bytes, 12, order) as i32,
                },
            )
            &&& bytes.len() >= 28 && shown && at >= 28 && at + 20 > bytes.len() ==> update == Some(
                UpdateModel::Hidden,
            )
            &&& update matches Some(UpdateModel::Bitmap(sprite)) ==> {
                let rest = bytes.skip(at as int);
                &&& shown && at >= 28 && at + 20 <= bytes.len()
                &&& sprite.x == word_at(bytes, 8, order) as i32
                &&& sprite.y == word_at(bytes, 12, order) as i32
                &&& sprite.hot_x == word_at(bytes, 16, order) as i32
                &&& sprite.hot_y == word_at(bytes, 20, order) as i32
                &&& sprite.width == word_at(rest, 4, order)
                &&& sprite.height == word_at(rest, 8, order)
                &&& sprite.pixels == (MetaBitmap {
                    format: codes.format(word_at(rest, 0, order)),
                    width: sprite.width,
                    height: sprite.height,
                    stride: word_at(rest, 12, order) as i32,
                    offset: word_at(rest, 16, order),
                }).pixels(rest)
            }
        }),
{
}

/// Each layout is known by its own number, and 0 stands for none.
pub proof fn law_layouts_are_known_by_their_numbers(codes: FormatCodes, code: u32)
    requires
        seq![codes.bgra, codes.bgrx, codes.rgba, codes.rgbx, codes.argb].no_duplicates(),
    ensures
        codes.format(0) == VideoFormat::Other,
        code != 0 ==> {
            &&& codes.format(code) == VideoFormat::BGRA <==> code == codes.bgra
            &&& codes.format(code) == VideoFormat::BGRx <==> code == codes.bgrx
            &&& codes.format(code) == VideoFormat::RGBA <==> code == codes.rgba
            &&& codes.format(code) == VideoFormat::RGBx <==> code == codes.rgbx
            &&& codes.format(code) == VideoFormat::ARGB <==> code == codes.argb
            &&& codes.format(code) != VideoFormat::xRGB
        },
{
    let all = seq![codes.bgra, codes.bgrx, codes.rgba, codes.rgbx, codes.argb];
    assert(all[0] != all[1] && all[0] != all[2] && all[0] != all[3] && all[0] != all[4]);
    assert(all[1] != all[2] && all[1] != all[3] && all[1] != all[4]);
    assert(all[2] != all[3] && all[2] != all[4] && all[3] != all[4]);
}

/// A frame is copied from where the buffer's chunk starts, row by row: every pixel has the
/// colours of the one at its place, and a chunk that names no row length has none to spare.
pub proof fn law_copied_frames_keep_every_colour(
    chunk: Chunk,
    block: DataBlock,
    memory: Seq<u8>,
    format: NegotiatedFormat,
    x: nat,
    y: nat,
)
    requires
        block.chunk == Some(chunk),
        copied(Some(block), Some(memory), format) is Packed,
        x < format.width,
        y < format.height,
    ensures
        ({
            let pitch = if chunk.stride > 0 {
                chunk.stride as int
            } else {
                4 * format.width
            };
            crate::video::pixels::same_colour(
                format.format,
                memory,
                chunk.offset + y * pitch + 4 * x,
                copied(Some(block), Some(memory), format)->0,
                4 * (y * format.width + x),
            )
        }),
        copied(Some(block), Some(memory), format)->0.len() == 4 * (format.width * format.height),
{
    let stride = applied_stride(chunk.stride, format.width) as nat;
    let src = memory.subrange(chunk.offset as int, chunk.offset + chunk.size);
    crate::video::pixels::law_packing_keeps_every_colour(
        format.format,
        src,
        stride,
        format.width as nat,
        format.height as nat,
        x,
        y,
    );
    assert(0 <= y * stride <= (format.height - 1) * stride) by (nonlinear_arith)
        requires
            0 <= y <= format.height - 1,
            stride >= 0,
    ;
}

/// A frame is copied where there is one, it can be read, its layout is known, and its rows
/// neither overlap nor reach past the chunk; and whoever cannot copy one says why.
pub proof fn law_when_a_frame_is_copied(
    block: Option<DataBlock>,
    mapped: Option<Seq<u8>>,
    format: NegotiatedFormat,
)
    ensures
        ({
            let outcome = copied(block, mapped, format);
            let there = block is Some && block->0.chunk is Some && block->0.chunk->0.size > 0;
            let chunk = block->0.chunk->0;
            let whole = there && mapped is Some && format.width > 0 && format.height > 0
                && chunk.offset + chunk.size <= mapped->0.len();
            let pitch = if chunk.stride > 0 {
                chunk.stride as int
            } else {
                4 * format.width
            };
            let readable = format.format != VideoFormat::Other && pitch >= 4 * format.width && (
            format.height - 1) * pitch + 4 * format.width <= chunk.size;
            &&& outcome is Packed <==> whole && readable
            &&& outcome is Unpackable <==> whole && !readable
            &&& outcome is Unmapped <==> there && mapped is None
        }),
{
}

/// The row length of a frame on the GPU is the one that the GPU allocated.
pub proof fn law_the_row_length_is_carried(stride: i32, width: u32)
    ensures
        stride > 0 ==> applied_stride(stride, width) == stride,
        stride <= 0 ==> applied_stride(stride, width) == 4 * width,
{
}

/// A frame is imported where the block is a dma-buf with a descriptor and something in it;
/// and buffers that are only counted count where they hold video.
pub proof fn law_which_frames_count(importing: bool, block: DataBlock, chunk: Chunk)
    requires
        block.chunk == Some(chunk),
    ensures
        importable(Some(block)) <==> block.kind == DataKind::DmaBuf && (block.fd as i32) >= 0
            && chunk.size > 0,
        route(true, importing, Some(block)) == FrameRoute::Count <==> chunk.size > 0,
        route(true, importing, Some(block)) == FrameRoute::Ignore <==> chunk.size == 0,
        route(true, importing, None) == FrameRoute::Ignore,
        !importing ==> route(false, importing, Some(block)) == FrameRoute::Copy,
{
}

/// The layout of a dma-buf is the one that its format is named after.
pub proof fn law_dmabuf_layouts_are_named(import: DmaBufImport)
    ensures
        import.layout() == VideoFormat::BGRA <==> import.spa_format@ == "BGRA"@,
        import.layout() == VideoFormat::RGBA <==> import.spa_format@ == "RGBA"@,
        import.layout() == VideoFormat::RGBx <==> import.spa_format@ == "RGBx"@,
        import.layout() == VideoFormat::BGRx <==> import.spa_format@ != "BGRA"@
            && import.spa_format@ != "RGBA"@ && import.spa_format@ != "RGBx"@,
{
    reveal_strlit("BGRA");
    reveal_strlit("RGBA");
    reveal_strlit("RGBx");
    assert("BGRA"@[0] != "RGBA"@[0] && "BGRA"@[0] != "RGBx"@[0] && "RGBA"@[3] != "RGBx"@[3]);
}

/// Every frame whose rows can be measured at all is taken in.
pub proof fn law_frames_of_any_real_width_are_taken_in(
    data: CaptureData,
    block: Option<DataBlock>,
    mapped: Option<Seq<u8>>,
)
    requires
        data.format.width <= 0x3fff_ffff,
    ensures
        data.in_range(block, mapped),
{
}

} // verus!
