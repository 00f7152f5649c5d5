//! Packing captured rows into BGRx.

use vstd::prelude::*;
use vstd::slice::slice_subrange;

verus! {

/// Byte layouts a screen-cast frame or a cursor bitmap can arrive in.
#[allow(non_camel_case_types)]
#[derive(Debug, Clone, Copy, PartialEq, Eq, Structural)]
pub enum VideoFormat {
    BGRx,
    BGRA,
    RGBx,
    RGBA,
    xRGB,
    ARGB,
    /// Anything else; such frames are not packed.
    Other,
}

/// How the four bytes of a pixel have to be rearranged to become BGRx.
#[derive(Debug, Clone, Copy, PartialEq, Eq, Structural)]
pub enum Rearrangement {
    /// The bytes are in order already.
    Copy,
    /// Red and blue trade places.
    SwapRb,
    /// The order of all four bytes is reversed.
    Reverse,
}

impl Rearrangement {
    /// Where in the row output byte `j` comes from.
    pub open spec fn origin(self, j: int) -> int {
        match self {
            Rearrangement::Copy => j,
            Rearrangement::SwapRb => if j % 4 == 0 {
                j + 2
            } else if j % 4 == 2 {
                j - 2
            } else {
                j
            },
            Rearrangement::Reverse => j + 3 - 2 * (j % 4),
        }
    }

    /// `dest` once the whole pixels of `src` that fit have been written to it;
    /// bytes past them keep their value. A plain copy writes every byte.
    pub open spec fn written(self, src: Seq<u8>, dest: Seq<u8>) -> Seq<u8> {
        let whole = if self == Rearrangement::Copy {
            src.len() as int
        } else if src.len() <= dest.len() {
            src.len() - src.len() % 4
        } else {
            dest.len() - dest.len() % 4
        };
        Seq::new(
            dest.len(),
            |j: int|
                if j < whole {
                    src[self.origin(j)]
                } else {
                    dest[j]
                },
        )
    }

    /// A row of whole pixels, rearranged.
    pub open spec fn applied(self, row: Seq<u8>) -> Seq<u8> {
        Seq::new(row.len(), |j: int| row[self.origin(j)])
    }

    /// `height` rows of `row` bytes each, which start `stride` bytes apart in
    /// `src`, rearranged and set end to end.
    pub open spec fn packed(self, src: Seq<u8>, stride: nat, row: nat, height: nat) -> Seq<u8>
        decreases height,
    {
        if height == 0 {
            Seq::empty()
        } else {
            let start = (height - 1) * stride;
            self.packed(src, stride, row, (height - 1) as nat) + self.applied(
                src.subrange(start, start + row),
            )
        }
    }
}

/// Copies a row that is in order already.
pub fn copy_bgra(src: &[u8], dest: &mut [u8])
    requires
        src@.len() == old(dest)@.len(),
    ensures
        final(dest)@ == src@,
{
    let n: usize = src.len();
    let mut i: usize = 0;
    while i < n
        invariant
            i <= n,
            n == src@.len(),
            dest@.len() == n,
            forall|j: int| 0 <= j < i ==> dest@[j] == src@[j],
        decreases n - i,
    {
        dest[i] = src[i];
        i += 1;
    }
    assert(dest@ =~= src@);
}

/// Turns RGBA pixels into BGRA, or the other way round.
pub fn swap_rb(src: &[u8], dest: &mut [u8])
    ensures
        final(dest)@ == Rearrangement::SwapRb.written(src@, old(dest)@),
{
    let n: usize = whole_pixels(src.len(), dest.len());
    let ghost before = dest@;
    let mut i: usize = 0;
    while i < n
        invariant
            i <= n,
            i % 4 == 0,
            n % 4 == 0,
            n <= src@.len(),
            n <= before.len(),
            dest@.len() == before.len(),
            forall|j: int|
                0 <= j < i ==> dest@[j] == src@[#[trigger] Rearrangement::SwapRb.origin(j)],
            forall|j: int| i <= j < before.len() ==> dest@[j] == before[j],
        decreases n - i,
    {
        dest[i] = src[i + 2];
        dest[i + 1] = src[i + 1];
        dest[i + 2] = src[i];
        dest[i + 3] = src[i + 3];
        i += 4;
    }
    assert(dest@ =~= Rearrangement::SwapRb.written(src@, before));
}

/// Turns ARGB pixels into BGRA.
pub fn argb_to_bgrx(src: &[u8], dest: &mut [u8])
    ensures
        final(dest)@ == Rearrangement::Reverse.written(src@, old(dest)@),
{
    let n: usize = whole_pixels(src.len(), dest.len());
    let ghost before = dest@;
    let mut i: usize = 0;
    while i < n
        invariant
            i <= n,
            i % 4 == 0,
            n % 4 == 0,
            n <= src@.len(),
            n <= before.len(),
            dest@.len() == before.len(),
            forall|j: int|
                0 <= j < i ==> dest@[j] == src@[#[trigger] Rearrangement::Reverse.origin(j)],
            forall|j: int| i <= j < before.len() ==> dest@[j] == before[j],
        decreases n - i,
    {
        dest[i] = src[i + 3];
        dest[i + 1] = src[i + 2];
        dest[i + 2] = src[i + 1];
        dest[i + 3] = src[i];
        i += 4;
    }
    assert(dest@ =~= Rearrangement::Reverse.written(src@, before));
}

/// Bytes in the whole pixels that two buffers of these lengths have in common.
fn whole_pixels(a: usize, b: usize) -> (n: usize)
    ensures
        n == if a <= b {
            a - a % 4
        } else {
            b - b % 4
        },
{
    let shorter: usize = if a <= b {
        a
    } else {
        b
    };
    shorter - shorter % 4
}

/// Writes `src` to `dest`, rearranged.
pub fn convert(how: Rearrangement, src: &[u8], dest: &mut [u8])
    requires
        src@.len() == old(dest)@.len(),
    ensures
        final(dest)@ == how.written(src@, old(dest)@),
{
    match how {
        Rearrangement::Copy => {
            let ghost before = dest@;
            copy_bgra(src, dest);
            assert(dest@ =~= how.written(src@, before));
        },
        Rearrangement::SwapRb => swap_rb(src, dest),
        Rearrangement::Reverse => argb_to_bgrx(src, dest),
    }
}

/// Packs `height` rows of `width` pixels, which start `stride` bytes apart in
/// `src`. `None` when a row would overlap the next one or the rows do not fit in
/// `src`.
pub fn pack_rows(
    src: &[u8],
    stride: usize,
    width: u32,
    height: u32,
    how: Rearrangement,
) -> (packed: Option<Vec<u8>>)
    requires
        width * 4 <= u32::MAX,
    ensures
        packed is Some <==> {
            &&& stride >= width * 4
            &&& height > 0 ==> (height - 1) * stride + width * 4 <= src@.len()
        },
        packed matches Some(out) ==> {
            &&& out@ == how.packed(src@, stride as nat, (width * 4) as nat, height as nat)
            &&& out@.len() == width * 4 * height
        },
{
    let row: usize = (width * 4) as usize;
    if stride < row {
        return None;
    }
    let mut out: Vec<u8> = Vec::new();
    let mut y: u32 = 0;
    while y < height
        invariant
            y <= height,
            row == width * 4,
            stride >= row,
            out@.len() == y * row,
            out@ == how.packed(src@, stride as nat, row as nat, y as nat),
            y > 0 ==> (y - 1) * stride + row <= src@.len(),
        decreases height - y,
    {
        let available: usize = src.len();
        let fits: bool = match (y as usize).checked_mul(stride) {
            Some(start) => start <= available && row <= available - start,
            None => false,
        };
        assert(fits <==> y * stride + row <= src@.len());
        if !fits {
            assert((height - 1) * stride >= y * stride) by (nonlinear_arith)
                requires
                    height - 1 >= y,
                    stride >= 0,
            ;
            return None;
        }
        let start: usize = y as usize * stride;
        let end: usize = out.len();
        assert(y * row <= y * stride) by (nonlinear_arith)
            requires
                row <= stride,
                y >= 0,
        ;
        let ghost before = out@;
        let ghost line = src@.subrange(start as int, start + row);
        out.resize(end + row, 0);
        let (_, dest) = out.as_mut_slice().split_at_mut(end);
        convert(how, slice_subrange(src, start, start + row), dest);
        assert(line.len() % 4 == 0);
        assert(how.written(line, Seq::new(row as nat, |j: int| 0u8)) =~= how.applied(line));
        assert(out@ =~= before + how.applied(line));
        assert((y + 1) * row == y * row + row) by (nonlinear_arith);
        y += 1;
    }
    assert(width * 4 * height == height * (width * 4)) by (nonlinear_arith);
    Some(out)
}

/// Packs a captured frame as BGRx. `None` for a layout that is not understood, or
/// when the rows do not fit.
pub fn pack_video(
    src: &[u8],
    stride: usize,
    width: u32,
    height: u32,
    format: VideoFormat,
) -> (packed: Option<Vec<u8>>)
    requires
        format != VideoFormat::Other ==> width * 4 <= u32::MAX,
    ensures
        packed is Some <==> {
            &&& format != VideoFormat::Other
            &&& stride >= width * 4
            &&& height > 0 ==> (height - 1) * stride + width * 4 <= src@.len()
        },
        packed matches Some(out) ==> {
            &&& out@ == format.rearrangement()->0.packed(
                src@,
                stride as nat,
                (width * 4) as nat,
                height as nat,
            )
            &&& out@.len() == width * 4 * height
        },
{
    match format {
        VideoFormat::BGRx | VideoFormat::BGRA => pack_rows(
            src,
            stride,
            width,
            height,
            Rearrangement::Copy,
        ),
        VideoFormat::RGBx | VideoFormat::RGBA => pack_rows(
            src,
            stride,
            width,
            height,
            Rearrangement::SwapRb,
        ),
        VideoFormat::xRGB | VideoFormat::ARGB => pack_rows(
            src,
            stride,
            width,
            height,
            Rearrangement::Reverse,
        ),
        VideoFormat::Other => None,
    }
}

impl VideoFormat {
    /// What turns this layout into BGRx.
    pub open spec fn rearrangement(self) -> Option<Rearrangement> {
        match self {
            VideoFormat::BGRx | VideoFormat::BGRA => Some(Rearrangement::Copy),
            VideoFormat::RGBx | VideoFormat::RGBA => Some(Rearrangement::SwapRb),
            VideoFormat::xRGB | VideoFormat::ARGB => Some(Rearrangement::Reverse),
            VideoFormat::Other => None,
        }
    }
}

/// Each byte of a packed frame comes from the pixel it belongs to.
pub proof fn law_bytes_stay_in_their_pixel(how: Rearrangement, j: int)
    requires
        0 <= j,
    ensures
        0 <= how.origin(j),
        how.origin(j) / 4 == j / 4,
{
}

/// Rearranging a row of whole pixels twice restores it.
pub proof fn law_rearranging_twice_restores(how: Rearrangement, row: Seq<u8>)
    requires
        row.len() % 4 == 0,
    ensures
        how.applied(how.applied(row)) == row,
{
    assert forall|j: int| 0 <= j < row.len() implies 0 <= #[trigger] how.origin(j) < row.len()
        && how.origin(how.origin(j)) == j by {
        law_bytes_stay_in_their_pixel(how, j);
    }
    assert(how.applied(how.applied(row)) =~= row);
}

/// Byte `x` of row `y` of a packed frame is the byte of source row `y` that the
/// rearrangement names, whatever the stride.
pub proof fn law_packed_bytes(
    how: Rearrangement,
    src: Seq<u8>,
    stride: nat,
    row: nat,
    height: nat,
    y: nat,
    x: nat,
)
    requires
        row % 4 == 0,
        y < height,
        x < row,
        (height - 1) * stride + row <= src.len(),
    ensures
        how.packed(src, stride, row, height).len() == height * row,
        y * row + x < height * row,
        how.packed(src, stride, row, height)[(y * row + x) as int] == src[y * stride + how.origin(
            x as int,
        )],
    decreases height,
{
    let before = (height - 1) as nat;
    let start = (height - 1) * stride;
    law_bytes_stay_in_their_pixel(how, x as int);
    assert(height * row == before * row + row) by (nonlinear_arith)
        requires
            height == before + 1,
    ;
    assert(start >= 0) by (nonlinear_arith)
        requires
            start == before * stride,
    ;
    assert((before - 1) * stride <= before * stride) by (nonlinear_arith)
        requires
            stride >= 0,
    ;
    lemma_packed_len(how, src, stride, row, before);
    if y < before {
        law_packed_bytes(how, src, stride, row, before, y, x);
    }
}

proof fn lemma_packed_len(how: Rearrangement, src: Seq<u8>, stride: nat, row: nat, height: nat)
    requires
        height > 0 ==> (height - 1) * stride + row <= src.len(),
    ensures
        how.packed(src, stride, row, height).len() == height * row,
    decreases height,
{
    if height > 0 {
        let before = (height - 1) as nat;
        assert(height * row == before * row + row) by (nonlinear_arith)
            requires
                height == before + 1,
        ;
        assert(before * stride >= 0) by (nonlinear_arith);
        assert((before - 1) * stride <= before * stride) by (nonlinear_arith)
            requires
                stride >= 0,
        ;
        lemma_packed_len(how, src, stride, row, before);
    } else {
        assert(0 * row == 0) by (nonlinear_arith);
    }
}

/// The four bytes at `to` hold the pixel at `from` in the order blue, green, red and the
/// fourth byte. Where these stand in a source pixel is what the layout's name says.
pub open spec fn same_colour(
    format: VideoFormat,
    src: Seq<u8>,
    from: int,
    packed: Seq<u8>,
    to: int,
) -> bool {
    match format {
        VideoFormat::BGRx | VideoFormat::BGRA => {
            &&& packed[to] == src[from]
            &&& packed[to + 1] == src[from + 1]
            &&& packed[to + 2] == src[from + 2]
            &&& packed[to + 3] == src[from + 3]
        },
        VideoFormat::RGBx | VideoFormat::RGBA => {
            &&& packed[to] == src[from + 2]
            &&& packed[to + 1] == src[from + 1]
            &&& packed[to + 2] == src[from]
            &&& packed[to + 3] == src[from + 3]
        },
        VideoFormat::xRGB | VideoFormat::ARGB => {
            &&& packed[to] == src[from + 3]
            &&& packed[to + 1] == src[from + 2]
            &&& packed[to + 2] == src[from + 1]
            &&& packed[to + 3] == src[from]
        },
        VideoFormat::Other => false,
    }
}

/// Every pixel of a packed frame has the blue, green and red of the pixel at its place in
/// the captured one, whatever layout that is in and however its rows are padded.
pub proof fn law_packing_keeps_every_colour(
    format: VideoFormat,
    src: Seq<u8>,
    stride: nat,
    width: nat,
    height: nat,
    x: nat,
    y: nat,
)
    requires
        format != VideoFormat::Other,
        x < width,
        y < height,
        (height - 1) * stride + 4 * width <= src.len(),
    ensures
        ({
            let packed = format.rearrangement()->0.packed(src, stride, 4 * width, height);
            &&& packed.len() == 4 * (width * height)
            &&& same_colour(
                format,
                src,
                (y * stride + 4 * x) as int,
                packed,
                4 * (y * width + x) as int,
            )
        }),
{
    let how = format.rearrangement()->0;
    let row = 4 * width;
    law_packed_bytes(how, src, stride, row, height, y, 4 * x);
    law_packed_bytes(how, src, stride, row, height, y, 4 * x + 1);
    law_packed_bytes(how, src, stride, row, height, y, 4 * x + 2);
    law_packed_bytes(how, src, stride, row, height, y, 4 * x + 3);
    assert(height * row == 4 * (width * height)) by (nonlinear_arith)
        requires
            row == 4 * width,
    ;
    assert(y * row + 4 * x == 4 * (y * width + x)) by (nonlinear_arith)
        requires
            row == 4 * width,
    ;
}

/// A frame that is in order already and not padded comes out as it went in.
pub proof fn law_ordered_frames_are_kept(
    format: VideoFormat,
    src: Seq<u8>,
    width: nat,
    height: nat,
)
    requires
        format == VideoFormat::BGRx || format == VideoFormat::BGRA,
        src.len() == height * (4 * width),
    ensures
        format.rearrangement()->0.packed(src, 4 * width, 4 * width, height) == src,
    decreases height,
{
    let row = 4 * width;
    let how = format.rearrangement()->0;
    if height > 0 {
        let before = (height - 1) as nat;
        assert(height * row == before * row + row) by (nonlinear_arith)
            requires
                height == before + 1,
        ;
        let head = src.take((before * row) as int);
        law_ordered_frames_are_kept(format, head, width, before);
        assert((before - 1) * row + row == before * row) by (nonlinear_arith);
        lemma_packing_looks_no_further(how, src, row, row, before, (before * row) as int);
        let line = src.subrange((before * row) as int, (before * row + row) as int);
        assert(how.applied(line) =~= line) by {
            assert forall|j: int| 0 <= j < line.len() implies how.applied(line)[j] == line[j] by {
                let x = (j / 4) as nat;
                let first = line.subrange(0, row as int);
                assert(first =~= line);
                assert(0 * row == 0) by (nonlinear_arith);
                assert(1 * row == row);
                law_packing_keeps_every_colour(format, line, row, width, 1, x, 0);
                assert(how.packed(line, row, row, 0) =~= Seq::empty());
                reveal_with_fuel(Rearrangement::packed, 2);
                assert(how.packed(line, row, row, 1) =~= how.applied(line));
                assert(0 * width == 0) by (nonlinear_arith);
                assert(j == 4 * x + j % 4);
            }
        }
        assert(head + line =~= src);
    } else {
        assert(0 * row == 0) by (nonlinear_arith);
        assert(src =~= Seq::empty());
    }
}

/// Packing looks at the rows that it packs, and at nothing behind them.
proof fn lemma_packing_looks_no_further(
    how: Rearrangement,
    src: Seq<u8>,
    stride: nat,
    row: nat,
    height: nat,
    end: int,
)
    requires
        0 <= end <= src.len(),
        height > 0 ==> (height - 1) * stride + row <= end,
    ensures
        how.packed(src.take(end), stride, row, height) == how.packed(src, stride, row, height),
    decreases height,
{
    if height > 0 {
        let before = (height - 1) as nat;
        let start = before * stride;
        assert(start >= 0) by (nonlinear_arith)
            requires
                start == before * stride,
        ;
        assert((before - 1) * stride <= before * stride) by (nonlinear_arith)
            requires
                stride >= 0,
        ;
        lemma_packing_looks_no_further(how, src, stride, row, before, end);
        assert(src.take(end).subrange(start as int, (start + row) as int) =~= src.subrange(
            start as int,
            (start + row) as int,
        ));
    }
}

/// Whole pixels that fit are rearranged in place, and what lies behind them keeps its
/// value.
pub proof fn law_whole_pixels_are_rearranged(src: Seq<u8>, dest: Seq<u8>, x: nat, j: nat)
    requires
        4 * x + 4 <= src.len(),
        4 * x + 4 <= dest.len(),
        j < dest.len(),
    ensures
        Rearrangement::SwapRb.written(src, dest).len() == dest.len(),
        Rearrangement::Reverse.written(src, dest).len() == dest.len(),
        same_colour(
            VideoFormat::RGBA,
            src,
            4 * x as int,
            Rearrangement::SwapRb.written(src, dest),
            4 * x as int,
        ),
        same_colour(
            VideoFormat::ARGB,
            src,
            4 * x as int,
            Rearrangement::Reverse.written(src, dest),
            4 * x as int,
        ),
        j >= src.len() - src.len() % 4 || j >= dest.len() - dest.len() % 4 ==> {
            &&& Rearrangement::SwapRb.written(src, dest)[j as int] == dest[j as int]
            &&& Rearrangement::Reverse.written(src, dest)[j as int] == dest[j as int]
        },
        src.len() == dest.len() ==> Rearrangement::Copy.written(src, dest) == src,
{
    if src.len() == dest.len() {
        assert(Rearrangement::Copy.written(src, dest) =~= src);
    }
}

} // verus!
