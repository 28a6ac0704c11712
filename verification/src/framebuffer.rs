use vstd::prelude::*;
use embedded_graphics::pixelcolor::Rgb565;
use crate::color::{color_of, raw_of, storage_bits};
use crate::pixel::{be_bytes, be_word, filled, word_bytes, word_from_bytes, Dot, PixelChange};
use crate::region::Region;

verus! {

/// The pixel at `(x, y)` lies inside a frame of `width` by `height` pixels.
pub open spec fn in_frame(width: nat, height: nat, x: int, y: int) -> bool {
    0 <= x < width && 0 <= y < height
}

/// The frame after one pixel was drawn: a pixel inside the frame has its two
/// bytes replaced by the colour, big-endian; one outside changes nothing.
pub open spec fn plotted(bytes: Seq<u8>, width: nat, height: nat, dot: Dot) -> Seq<u8> {
    if in_frame(width, height, dot.x, dot.y) {
        let index = (dot.y * width + dot.x) * 2;
        bytes.update(index, be_bytes(dot.raw)[0]).update(index + 1, be_bytes(dot.raw)[1])
    } else {
        bytes
    }
}

/// The frame after the pixels of `dots` were drawn one after another, first
/// to last.
pub open spec fn plotted_all(bytes: Seq<u8>, width: nat, height: nat, dots: Seq<Dot>) -> Seq<u8>
    decreases dots.len(),
{
    if dots.len() == 0 {
        bytes
    } else {
        plotted(plotted_all(bytes, width, height, dots.drop_last()), width, height, dots.last())
    }
}

/// Pixel slot `index` holds different bytes in `a` and in `b`.
pub open spec fn slot_differs(a: Seq<u8>, b: Seq<u8>, index: int) -> bool {
    a[2 * index] != b[2 * index] || a[2 * index + 1] != b[2 * index + 1]
}

/// What pixel slot `index` of `b` holds, as a change record: the slot's
/// column and row in a frame `width` pixels wide, and its colour.
pub open spec fn slot_dot(b: Seq<u8>, width: nat, index: int) -> Dot {
    Dot {
        x: index % (width as int),
        y: index / (width as int),
        raw: be_word(b[2 * index], b[2 * index + 1]),
    }
}

/// The change records that turn `a` into `b` over the first `count` pixel
/// slots: one for each slot whose bytes differ, in slot order, carrying
/// the colour that `b` holds there.
pub open spec fn difference(a: Seq<u8>, b: Seq<u8>, width: nat, count: nat) -> Seq<Dot>
    decreases count,
{
    if count == 0 {
        Seq::<Dot>::empty()
    } else {
        let before = difference(a, b, width, (count - 1) as nat);
        if slot_differs(a, b, count - 1) {
            before.push(slot_dot(b, width, count - 1))
        } else {
            before
        }
    }
}

/// `dst` with the `n` bytes from `to` on replaced by the `n` bytes that `src`
/// holds from `from` on.
pub open spec fn with_bytes(dst: Seq<u8>, src: Seq<u8>, to: int, from: int, n: int) -> Seq<u8> {
    Seq::new(
        dst.len(),
        |k: int|
            if to <= k < to + n {
                src[from + k - to]
            } else {
                dst[k]
            },
    )
}

/// Offset of the first byte of the pixel at column `x` of row `row`, in a
/// buffer laid out `width` pixels to the row.
pub open spec fn pixel_offset(width: nat, x: nat, row: nat) -> int {
    ((row * width + x) * 2) as int
}

/// The frame `dst` after a rectangle of `w` by `h` pixels was copied into it
/// at `(dx, dy)` from `src`, where it lies at `(sx, sy)`, both buffers being
/// `width` pixels wide: row after row, top to bottom, the bytes of `w`
/// pixels are replaced by those of the source row.
pub open spec fn copied(
    dst: Seq<u8>,
    src: Seq<u8>,
    width: nat,
    sx: nat,
    sy: nat,
    w: nat,
    h: nat,
    dx: nat,
    dy: nat,
) -> Seq<u8>
    decreases h,
{
    if h == 0 {
        dst
    } else {
        let row = (h - 1) as nat;
        with_bytes(
            copied(dst, src, width, sx, sy, w, row, dx, dy),
            src,
            pixel_offset(width, dx, dy + row),
            pixel_offset(width, sx, sy + row),
            2 * (w as int),
        )
    }
}

/// A rectangle that can be copied between a source of `src_len` bytes and a
/// frame of `len` bytes, both `width` pixels wide: its last row, and with it
/// every row, ends inside the source and inside the frame.
pub open spec fn copy_ok(
    width: u32,
    len: nat,
    src_len: nat,
    sx: u16,
    sy: u16,
    w: u32,
    h: u32,
    dx: u16,
    dy: u16,
) -> bool {
    h == 0 || (((sy + h - 1) * width + sx + w) * 2 <= src_len && ((dy + h - 1) * width + dx + w)
        * 2 <= len)
}

/// Every region present in `regions` can be copied in place.
pub open spec fn regions_copy_ok(
    width: u32,
    len: nat,
    src_len: nat,
    regions: Seq<Option<Region>>,
) -> bool {
    forall|i: int|
        0 <= i < regions.len() ==> ((#[trigger] regions[i]) matches Some(r) ==> copy_ok(
            width,
            len,
            src_len,
            r.x,
            r.y,
            r.width,
            r.height,
            r.x,
            r.y,
        ))
}

/// The frame `dst` after each region present in `regions` was copied into
/// it from the same place in `src`, first slot to last.
pub open spec fn restored(
    dst: Seq<u8>,
    src: Seq<u8>,
    width: nat,
    regions: Seq<Option<Region>>,
) -> Seq<u8>
    decreases regions.len(),
{
    if regions.len() == 0 {
        dst
    } else {
        let before = restored(dst, src, width, regions.drop_last());
        match regions.last() {
            Some(r) => copied(
                before,
                src,
                width,
                r.x as nat,
                r.y as nat,
                r.width as nat,
                r.height as nat,
                r.x as nat,
                r.y as nat,
            ),
            None => before,
        }
    }
}

/// Row `row` of a rectangle of `h` rows ends no later than its last row.
proof fn lemma_row_end(width: int, x: int, w: int, y: int, h: int, row: int)
    by (nonlinear_arith)
    requires
        0 <= row < h,
        0 <= width,
        0 <= x,
        0 <= w,
        0 <= y,
    ensures
        0 <= (y + row) * width,
        ((y + row) * width + x) * 2 + w * 2 <= ((y + h - 1) * width + x + w) * 2,
        (y + row) * width * 2 + x * 2 == ((y + row) * width + x) * 2,
{
}

/// A rectangle that fits in the width of the frame has rows that do not
/// overlap: an earlier row ends before a later one begins.
proof fn lemma_rows_apart(width: int, x: int, w: int, upper: int, lower: int)
    by (nonlinear_arith)
    requires
        0 <= upper < lower,
        0 <= x,
        0 <= w,
        x + w <= width,
    ensures
        (upper * width + x) * 2 + 2 * w <= (lower * width + x) * 2,
{
}

/// Copying keeps the length of the frame.
pub proof fn lemma_copied_len(
    dst: Seq<u8>,
    src: Seq<u8>,
    width: nat,
    sx: nat,
    sy: nat,
    w: nat,
    h: nat,
    dx: nat,
    dy: nat,
)
    ensures
        copied(dst, src, width, sx, sy, w, h, dx, dy).len() == dst.len(),
    decreases h,
{
    if h > 0 {
        lemma_copied_len(dst, src, width, sx, sy, w, (h - 1) as nat, dx, dy);
    }
}

/// What a copy does, byte by byte, when the rectangle fits in the width of
/// the frame at its destination: byte `c` of row `r` of the rectangle is the
/// byte that the source holds at the same place of its rectangle, and a
/// byte outside every row of the rectangle is as it was.
pub proof fn lemma_copied_bytes(
    dst: Seq<u8>,
    src: Seq<u8>,
    width: nat,
    sx: nat,
    sy: nat,
    w: nat,
    h: nat,
    dx: nat,
    dy: nat,
)
    requires
        dx + w <= width,
        h > 0 ==> pixel_offset(width, dx, (dy + h - 1) as nat) + 2 * w <= dst.len(),
    ensures
        forall|r: int, c: int|
            0 <= r < h && 0 <= c < 2 * w ==> #[trigger] copied(
                dst,
                src,
                width,
                sx,
                sy,
                w,
                h,
                dx,
                dy,
            )[pixel_offset(width, dx, (dy + r) as nat) + c] == src[pixel_offset(
                width,
                sx,
                (sy + r) as nat,
            ) + c],
        forall|k: int|
            0 <= k < dst.len() && (forall|r: int|
                0 <= r < h ==> !(#[trigger] pixel_offset(width, dx, (dy + r) as nat) <= k
                    < pixel_offset(width, dx, (dy + r) as nat) + 2 * w)) ==> copied(
                dst,
                src,
                width,
                sx,
                sy,
                w,
                h,
                dx,
                dy,
            )[k] == dst[k],
    decreases h,
{
    if h > 0 {
        let last = (h - 1) as nat;
        let before = copied(dst, src, width, sx, sy, w, last, dx, dy);
        let after = copied(dst, src, width, sx, sy, w, h, dx, dy);
        let to = pixel_offset(width, dx, dy + last);
        let from = pixel_offset(width, sx, sy + last);
        lemma_copied_len(dst, src, width, sx, sy, w, last, dx, dy);
        if last > 0 {
            lemma_rows_apart(
                width as int,
                dx as int,
                w as int,
                (dy + last - 1) as int,
                (dy + last) as int,
            );
        }
        lemma_copied_bytes(dst, src, width, sx, sy, w, last, dx, dy);
        assert(0 <= (dy + last) * width) by (nonlinear_arith);
        assert forall|r: int, c: int| 0 <= r < h && 0 <= c < 2 * w implies #[trigger] after[
            pixel_offset(width, dx, (dy + r) as nat) + c
        ] == src[pixel_offset(width, sx, (sy + r) as nat) + c] by {
            let at = pixel_offset(width, dx, (dy + r) as nat) + c;
            assert(0 <= (dy + r) * width) by (nonlinear_arith)
                requires
                    0 <= dy + r,
            ;
            if r < last {
                lemma_rows_apart(
                    width as int,
                    dx as int,
                    w as int,
                    (dy + r) as int,
                    (dy + last) as int,
                );
                assert(at < to);
                assert(after[at] == before[at]);
            } else {
                assert(after[at] == src[from + at - to]);
            }
        }
        assert forall|k: int|
            0 <= k < dst.len() && (forall|r: int|
                0 <= r < h ==> !(#[trigger] pixel_offset(width, dx, (dy + r) as nat) <= k
                    < pixel_offset(width, dx, (dy + r) as nat) + 2 * w)) implies after[k]
            == dst[k] by {
            assert(!(pixel_offset(width, dx, (dy + last) as nat) <= k < pixel_offset(
                width,
                dx,
                (dy + last) as nat,
            ) + 2 * w));
            assert(after[k] == before[k]);
            assert forall|r: int| 0 <= r < last implies !(#[trigger] pixel_offset(
                width,
                dx,
                (dy + r) as nat,
            ) <= k < pixel_offset(width, dx, (dy + r) as nat) + 2 * w) by {}
        }
    }
}

/// The slot with a given index lies in the frame, in the row and column that
/// division by the width gives.
proof fn lemma_slot_in_frame(width: int, height: int, index: int)
    requires
        0 <= index < width * height,
        0 < width,
    ensures
        0 <= index % width < width,
        0 <= index / width < height,
        (index / width) * width + index % width == index,
{
    vstd::arithmetic::div_mod::lemma_fundamental_div_mod(index, width);
    let q = index / width;
    assert(0 <= q) by (nonlinear_arith)
        requires
            0 <= index,
            0 < width,
            q == index / width,
    ;
    assert(q < height) by (nonlinear_arith)
        requires
            index < width * height,
            0 < width,
            index == width * q + index % width,
            0 <= index % width,
    ;
    assert(q * width == width * q) by (nonlinear_arith);
}

/// Diffing a buffer with an identical one yields no change record.
pub proof fn lemma_difference_of_equal(a: Seq<u8>, width: nat, count: nat)
    ensures
        difference(a, a, width, count) == Seq::<Dot>::empty(),
    decreases count,
{
    if count > 0 {
        lemma_difference_of_equal(a, width, (count - 1) as nat);
    }
}

/// Drawing the change record of a slot of `b` puts the two bytes that `b`
/// holds in that slot into the same slot of the frame.
proof fn lemma_plot_slot(bytes: Seq<u8>, b: Seq<u8>, width: nat, height: nat, index: int)
    requires
        bytes.len() == width * height * 2,
        b.len() == bytes.len(),
        0 <= index < width * height,
    ensures
        plotted(bytes, width, height, slot_dot(b, width, index)) == bytes.update(
            2 * index,
            b[2 * index],
        ).update(2 * index + 1, b[2 * index + 1]),
{
    assert(width > 0) by (nonlinear_arith)
        requires
            0 <= index < width * height,
    ;
    lemma_slot_in_frame(width as int, height as int, index);
    let dot = slot_dot(b, width, index);
    assert(in_frame(width, height, dot.x, dot.y));
    assert((dot.y * width + dot.x) * 2 == 2 * index);
    let high = b[2 * index];
    let low = b[2 * index + 1];
    assert(be_bytes(be_word(high, low)) =~= seq![high, low]);
    assert(be_bytes(dot.raw)[0] == high);
    assert(be_bytes(dot.raw)[1] == low);
}

/// Drawing the change records of the first `count` slots onto `a` makes
/// these slots hold what `b` holds and leaves the others as they were.
proof fn lemma_plot_difference_prefix(
    a: Seq<u8>,
    b: Seq<u8>,
    width: nat,
    height: nat,
    count: nat,
)
    requires
        a.len() == width * height * 2,
        b.len() == a.len(),
        count <= width * height,
    ensures
        plotted_all(a, width, height, difference(a, b, width, count)) == b.subrange(
            0,
            2 * (count as int),
        ) + a.subrange(2 * (count as int), a.len() as int),
    decreases count,
{
    let target = b.subrange(0, 2 * (count as int)) + a.subrange(
        2 * (count as int),
        a.len() as int,
    );
    if count == 0 {
        assert(a =~= target);
    } else {
        let index = (count - 1) as int;
        let before = difference(a, b, width, (count - 1) as nat);
        lemma_plot_difference_prefix(a, b, width, height, (count - 1) as nat);
        let drawn = plotted_all(a, width, height, before);
        assert(drawn == b.subrange(0, 2 * index) + a.subrange(2 * index, a.len() as int));
        if slot_differs(a, b, index) {
            let dot = slot_dot(b, width, index);
            let all = before.push(dot);
            assert(all.drop_last() =~= before);
            assert(all.last() == dot);
            assert(plotted_all(a, width, height, all) == plotted(drawn, width, height, dot));
            lemma_plot_slot(drawn, b, width, height, index);
            assert(drawn.update(2 * index, b[2 * index]).update(2 * index + 1, b[2 * index + 1])
                =~= target);
        } else {
            assert(drawn =~= target);
        }
    }
}

/// Drawing onto a copy of `a` the change records of `a` against `b` gives a
/// buffer identical to `b`, byte for byte.
pub proof fn lemma_plot_difference(a: Seq<u8>, b: Seq<u8>, width: nat, height: nat)
    requires
        a.len() == width * height * 2,
        b.len() == a.len(),
    ensures
        plotted_all(a, width, height, difference(a, b, width, width * height)) == b,
{
    lemma_plot_difference_prefix(a, b, width, height, width * height);
    let end = 2 * ((width * height) as int);
    assert(b.subrange(0, end) + a.subrange(end, a.len() as int) =~= b);
}

/// Offset of the first byte of the pixel at column `x` of row `y + row`.
/// The `w` pixels from there on must lie inside the buffer of `len` bytes.
fn row_start(width: u32, x: u16, y: u16, row: usize, w: u32, len: usize) -> (start: usize)
    requires
        row <= u32::MAX,
        pixel_offset(width as nat, x as nat, y as nat + row as nat) + 2 * w <= len,
    ensures
        start == pixel_offset(width as nat, x as nat, y as nat + row as nat),
{
    let line: u128 = y as u128 + row as u128;
    assert(line * width <= 0x1_0000_FFFF * 0xFFFF_FFFF) by (nonlinear_arith)
        requires
            0 <= line <= 0x1_0000_FFFF,
            0 <= width <= 0xFFFF_FFFF,
    ;
    let start: u128 = (line * width as u128 + x as u128) * 2;
    start as usize
}

/// Tells whether `copy_ok` holds of the rectangle.
pub fn region_copy_fits(
    width: u32,
    len: usize,
    src_len: usize,
    sx: u16,
    sy: u16,
    w: u32,
    h: u32,
    dx: u16,
    dy: u16,
) -> (ok: bool)
    ensures
        ok == copy_ok(width, len as nat, src_len as nat, sx, sy, w, h, dx, dy),
{
    if h == 0 {
        return true;
    }
    let src_row: u64 = sy as u64 + h as u64 - 1;
    let dest_row: u64 = dy as u64 + h as u64 - 1;
    assert(src_row * width <= 0x1_0000_FFFF * 0xFFFF_FFFF) by (nonlinear_arith)
        requires
            0 <= src_row <= 0x1_0000_FFFF,
            0 <= width <= 0xFFFF_FFFF,
    ;
    assert(dest_row * width <= 0x1_0000_FFFF * 0xFFFF_FFFF) by (nonlinear_arith)
        requires
            0 <= dest_row <= 0x1_0000_FFFF,
            0 <= width <= 0xFFFF_FFFF,
    ;
    let src_end: u128 = (src_row as u128 * width as u128 + sx as u128 + w as u128) * 2;
    let dest_end: u128 = (dest_row as u128 * width as u128 + dx as u128 + w as u128) * 2;
    src_end <= src_len as u128 && dest_end <= len as u128
}

/// A frame of `width` by `height` pixels, two bytes per pixel, big-endian,
/// row by row from the top left. The buffer is handed in by the caller; the
/// frame buffer never allocates one.
pub struct FrameBuffer {
    buffer: Vec<u8>,
    width: u32,
    height: u32,
}

impl View for FrameBuffer {
    type V = Seq<u8>;

    closed spec fn view(&self) -> Seq<u8> {
        self.buffer@
    }
}

impl FrameBuffer {
    /// Width of the frame in pixels.
    pub closed spec fn spec_width(&self) -> u32 {
        self.width
    }

    /// Height of the frame in pixels.
    pub closed spec fn spec_height(&self) -> u32 {
        self.height
    }

    /// The buffer has exactly two bytes for each pixel of the frame.
    pub open spec fn wf(&self) -> bool {
        self@.len() == self.spec_width() * self.spec_height() * 2
    }

    /// Tells whether a buffer of `len` bytes has exactly two bytes for each
    /// pixel of a frame of `width` by `height` pixels.
    pub fn fits(len: usize, width: u32, height: u32) -> (ok: bool)
        ensures
            ok == (len == width * height * 2),
    {
        assert(width * height <= 0xFFFF_FFFF * 0xFFFF_FFFF) by (nonlinear_arith)
            requires
                0 <= width <= 0xFFFF_FFFF,
                0 <= height <= 0xFFFF_FFFF,
        ;
        len as u128 == width as u128 * height as u128 * 2
    }

    /// Wraps `buffer` as a frame of `width` by `height` pixels. The buffer
    /// must have exactly two bytes per pixel.
    pub fn new(buffer: Vec<u8>, width: u32, height: u32) -> (frame: Self)
        requires
            buffer@.len() == width * height * 2,
        ensures
            frame@ == buffer@,
            frame.spec_width() == width,
            frame.spec_height() == height,
            frame.wf(),
    {
        FrameBuffer { buffer, width, height }
    }

    /// The bytes of the frame.
    pub fn get_buffer(&self) -> (bytes: &[u8])
        ensures
            bytes@ == self@,
    {
        self.buffer.as_slice()
    }

    /// Gives the buffer back.
    pub fn into_buffer(self) -> (buffer: Vec<u8>)
        ensures
            buffer@ == self@,
    {
        self.buffer
    }

    /// Width of the frame in pixels.
    #[verifier::when_used_as_spec(spec_width)]
    pub fn width(&self) -> (width: u32)
        ensures
            width == self.spec_width(),
    {
        self.width
    }

    /// Height of the frame in pixels.
    #[verifier::when_used_as_spec(spec_height)]
    pub fn height(&self) -> (height: u32)
        ensures
            height == self.spec_height(),
    {
        self.height
    }

    /// Width and height of the frame in pixels.
    pub fn size(&self) -> (size: (u32, u32))
        ensures
            size == (self.spec_width(), self.spec_height()),
    {
        (self.width, self.height)
    }

    /// Writes the packed colour `raw` to every pixel slot.
    pub fn fill(&mut self, raw: u16)
        requires
            old(self).wf(),
        ensures
            final(self)@ == filled(old(self)@.len(), raw),
            final(self).spec_width() == old(self).spec_width(),
            final(self).spec_height() == old(self).spec_height(),
            final(self).wf(),
    {
        let bytes = word_bytes(raw);
        let high: u8 = bytes[0];
        let low: u8 = bytes[1];
        let len: usize = self.buffer.len();
        let mut i: usize = 0;
        while i < len
            invariant
                len == self.buffer@.len(),
                len == old(self)@.len(),
                len % 2 == 0,
                i % 2 == 0,
                i <= len,
                self.width == old(self).width,
                self.height == old(self).height,
                high == be_bytes(raw)[0],
                low == be_bytes(raw)[1],
                forall|k: int| 0 <= k < i ==> self.buffer@[k] == filled(len as nat, raw)[k],
            decreases len - i,
        {
            self.buffer[i] = high;
            self.buffer[i + 1] = low;
            i = i + 2;
        }
        assert(self.buffer@ =~= filled(len as nat, raw));
    }

    /// Clears the frame to `color`: every pixel slot takes the colour's
    /// packed value, big-endian.
    pub fn clear(&mut self, color: Rgb565)
        requires
            old(self).wf(),
        ensures
            final(self)@ == filled(old(self)@.len(), storage_bits(color)),
            final(self).spec_width() == old(self).spec_width(),
            final(self).spec_height() == old(self).spec_height(),
            final(self).wf(),
    {
        let raw = raw_of(color);
        self.fill(raw);
    }

    /// Draws one pixel with the packed colour `raw`. A pixel outside the
    /// frame is dropped.
    pub fn set_pixel(&mut self, x: i32, y: i32, raw: u16)
        requires
            old(self).wf(),
        ensures
            final(self)@ == plotted(
                old(self)@,
                old(self).spec_width() as nat,
                old(self).spec_height() as nat,
                Dot { x: x as int, y: y as int, raw },
            ),
            final(self).spec_width() == old(self).spec_width(),
            final(self).spec_height() == old(self).spec_height(),
            final(self).wf(),
    {
        let len: usize = self.buffer.len();
        if x >= 0 && y >= 0 && (x as u32) < self.width && (y as u32) < self.height {
            let ghost w = self.width as int;
            let ghost h = self.height as int;
            assert((y * w + x) * 2 + 1 < w * h * 2) by (nonlinear_arith)
                requires
                    0 <= x < w,
                    0 <= y < h,
            ;
            assert(0 <= y * w) by (nonlinear_arith)
                requires
                    0 <= y,
                    0 <= w,
            ;
            assert(self.buffer@.len() == w * h * 2);
            assert(len == w * h * 2);
            let index: usize = (y as usize * self.width as usize + x as usize) * 2;
            let bytes = word_bytes(raw);
            self.buffer[index] = bytes[0];
            self.buffer[index + 1] = bytes[1];
        }
    }

    /// Draws the pixels of `pixels` one after another. Those outside the
    /// frame are dropped silently.
    pub fn draw_iter(&mut self, pixels: &[PixelChange])
        requires
            old(self).wf(),
        ensures
            final(self)@ == plotted_all(
                old(self)@,
                old(self).spec_width() as nat,
                old(self).spec_height() as nat,
                pixels.deep_view(),
            ),
            final(self).spec_width() == old(self).spec_width(),
            final(self).spec_height() == old(self).spec_height(),
            final(self).wf(),
    {
        let ghost dots = pixels.deep_view();
        let ghost w = self.width as nat;
        let ghost h = self.height as nat;
        let mut i: usize = 0;
        while i < pixels.len()
            invariant
                i <= pixels.len(),
                dots == pixels.deep_view(),
                self.wf(),
                self.width == old(self).width,
                self.height == old(self).height,
                w == self.width,
                h == self.height,
                self@ == plotted_all(old(self)@, w, h, dots.take(i as int)),
            decreases pixels.len() - i,
        {
            let pixel = pixels[i];
            let raw = raw_of(pixel.color);
            self.set_pixel(pixel.x, pixel.y, raw);
            proof {
                let next = dots.take(i + 1);
                assert(next.drop_last() =~= dots.take(i as int));
                assert(next.last() == dots[i as int]);
                assert(dots[i as int] == pixels@[i as int].deep_view());
            }
            i = i + 1;
        }
        assert(dots.take(i as int) =~= dots);
    }

    /// Tells whether `copy_region` accepts the rectangle with a source
    /// buffer of `src_len` bytes.
    pub fn can_copy_region(
        &self,
        src_len: usize,
        src_x: u16,
        src_y: u16,
        src_width: u32,
        src_height: u32,
        dest_x: u16,
        dest_y: u16,
    ) -> (ok: bool)
        ensures
            ok == copy_ok(
                self.spec_width(),
                self@.len(),
                src_len as nat,
                src_x,
                src_y,
                src_width,
                src_height,
                dest_x,
                dest_y,
            ),
    {
        region_copy_fits(
            self.width,
            self.buffer.len(),
            src_len,
            src_x,
            src_y,
            src_width,
            src_height,
            dest_x,
            dest_y,
        )
    }

    /// Copies a rectangle of `src_width` by `src_height` pixels from
    /// `src_buffer`, where it lies at `(src_x, src_y)`, into this frame at
    /// `(dest_x, dest_y)`, row by row. `src_buffer` is laid out with this
    /// frame's width. The rectangle is moved, never scaled. Every row must
    /// end inside the source and inside the frame.
    pub fn copy_region(
        &mut self,
        src_buffer: &[u8],
        src_x: u16,
        src_y: u16,
        src_width: u32,
        src_height: u32,
        dest_x: u16,
        dest_y: u16,
    )
        requires
            copy_ok(
                old(self).spec_width(),
                old(self)@.len(),
                src_buffer@.len(),
                src_x,
                src_y,
                src_width,
                src_height,
                dest_x,
                dest_y,
            ),
        ensures
            final(self)@ == copied(
                old(self)@,
                src_buffer@,
                old(self).spec_width() as nat,
                src_x as nat,
                src_y as nat,
                src_width as nat,
                src_height as nat,
                dest_x as nat,
                dest_y as nat,
            ),
            final(self).spec_width() == old(self).spec_width(),
            final(self).spec_height() == old(self).spec_height(),
            final(self)@.len() == old(self)@.len(),
    {
        let len: usize = self.buffer.len();
        let src_len: usize = src_buffer.len();
        let ghost w = self.width as nat;
        let ghost sx = src_x as nat;
        let ghost sy = src_y as nat;
        let ghost cw = src_width as nat;
        let ghost ch = src_height as nat;
        let ghost dx = dest_x as nat;
        let ghost dy = dest_y as nat;
        let mut row: usize = 0;
        while row < src_height as usize
            invariant
                row <= src_height,
                len == self.buffer@.len(),
                len == old(self)@.len(),
                src_len == src_buffer@.len(),
                self.width == old(self).width,
                self.height == old(self).height,
                w == self.width,
                sx == src_x,
                sy == src_y,
                cw == src_width,
                ch == src_height,
                dx == dest_x,
                dy == dest_y,
                copy_ok(
                    self.width,
                    len as nat,
                    src_len as nat,
                    src_x,
                    src_y,
                    src_width,
                    src_height,
                    dest_x,
                    dest_y,
                ),
                self.buffer@ == copied(old(self)@, src_buffer@, w, sx, sy, cw, row as nat, dx, dy),
            decreases src_height - row,
        {
            proof {
                lemma_row_end(w as int, sx as int, cw as int, sy as int, ch as int, row as int);
                lemma_row_end(w as int, dx as int, cw as int, dy as int, ch as int, row as int);
                assert(pixel_offset(w, sx, sy + row as nat) + 2 * cw <= src_len);
                assert(pixel_offset(w, dx, dy + row as nat) + 2 * cw <= len);
            }
            let row_len: usize = src_width as usize * 2;
            let src_start: usize = row_start(self.width, src_x, src_y, row, src_width, src_len);
            let dest_start: usize = row_start(self.width, dest_x, dest_y, row, src_width, len);
            let ghost before = self.buffer@;
            let mut j: usize = 0;
            while j < row_len
                invariant
                    j <= row_len,
                    len == self.buffer@.len(),
                    len == before.len(),
                    src_len == src_buffer@.len(),
                    self.width == old(self).width,
                    self.height == old(self).height,
                    src_start + row_len <= src_len,
                    dest_start + row_len <= len,
                    self.buffer@ == with_bytes(
                        before,
                        src_buffer@,
                        dest_start as int,
                        src_start as int,
                        j as int,
                    ),
                decreases row_len - j,
            {
                self.buffer[dest_start + j] = src_buffer[src_start + j];
                j = j + 1;
                assert(self.buffer@ =~= with_bytes(
                    before,
                    src_buffer@,
                    dest_start as int,
                    src_start as int,
                    j as int,
                ));
            }
            row = row + 1;
        }
    }

    /// Tells whether `copy_regions` accepts the regions with a source
    /// buffer of `src_len` bytes.
    pub fn can_copy_regions(&self, src_len: usize, regions: &[Option<Region>]) -> (ok: bool)
        ensures
            ok == regions_copy_ok(self.spec_width(), self@.len(), src_len as nat, regions@),
    {
        let len: usize = self.buffer.len();
        let mut i: usize = 0;
        while i < regions.len()
            invariant
                i <= regions.len(),
                len == self@.len(),
                forall|k: int|
                    0 <= k < i ==> ((#[trigger] regions@[k]) matches Some(r) ==> copy_ok(
                        self.spec_width(),
                        len as nat,
                        src_len as nat,
                        r.x,
                        r.y,
                        r.width,
                        r.height,
                        r.x,
                        r.y,
                    )),
            decreases regions.len() - i,
        {
            match regions[i] {
                Some(r) => {
                    if !region_copy_fits(
                        self.width,
                        len,
                        src_len,
                        r.x,
                        r.y,
                        r.width,
                        r.height,
                        r.x,
                        r.y,
                    ) {
                        assert(regions@[i as int] == Some(r));
                        return false;
                    }
                },
                None => {},
            }
            i = i + 1;
        }
        true
    }

    /// Restores every region present in `regions` from `src_buffer`, which
    /// is laid out like this frame: each is copied to the place it came
    /// from, in slot order. Every row of every region must end inside the
    /// source and inside the frame.
    pub fn copy_regions(&mut self, src_buffer: &[u8], regions: &[Option<Region>])
        requires
            regions_copy_ok(
                old(self).spec_width(),
                old(self)@.len(),
                src_buffer@.len(),
                regions@,
            ),
        ensures
            final(self)@ == restored(
                old(self)@,
                src_buffer@,
                old(self).spec_width() as nat,
                regions@,
            ),
            final(self).spec_width() == old(self).spec_width(),
            final(self).spec_height() == old(self).spec_height(),
            final(self)@.len() == old(self)@.len(),
    {
        let ghost w = self.width as nat;
        let mut i: usize = 0;
        while i < regions.len()
            invariant
                i <= regions.len(),
                self.width == old(self).width,
                self.height == old(self).height,
                w == self.width,
                self@.len() == old(self)@.len(),
                regions_copy_ok(self.width, self@.len(), src_buffer@.len(), regions@),
                self@ == restored(old(self)@, src_buffer@, w, regions@.take(i as int)),
            decreases regions.len() - i,
        {
            proof {
                let next = regions@.take(i + 1);
                assert(next.drop_last() =~= regions@.take(i as int));
                assert(next.last() == regions@[i as int]);
            }
            match regions[i] {
                Some(region) => {
                    assert(regions@[i as int] == Some(region));
                    self.copy_region(
                        src_buffer,
                        region.x,
                        region.y,
                        region.width,
                        region.height,
                        region.x,
                        region.y,
                    );
                },
                None => {},
            }
            i = i + 1;
        }
        assert(regions@.take(i as int) =~= regions@);
    }

    /// Tells whether `diff_with` accepts `other`: it is at least as long as
    /// this frame, whose coordinates fit the change records.
    pub fn can_diff_with(&self, other: &FrameBuffer) -> (ok: bool)
        ensures
            ok == (self@.len() <= other@.len() && self.spec_width() <= i32::MAX
                && self.spec_height() <= i32::MAX),
    {
        self.buffer.len() <= other.buffer.len() && self.width <= 0x7FFF_FFFF && self.height
            <= 0x7FFF_FFFF
    }

    /// Compares this frame with `other`, slot by slot, in one pass. Returns
    /// one change record for each pixel slot whose two bytes differ, in slot
    /// order: the slot's column and row, and the colour that `other` holds
    /// there.
    pub fn diff_with(&self, other: &FrameBuffer) -> (changes: Vec<PixelChange>)
        requires
            self.wf(),
            self@.len() <= other@.len(),
            self.spec_width() <= i32::MAX,
            self.spec_height() <= i32::MAX,
        ensures
            changes.deep_view() == difference(
                self@,
                other@,
                self.spec_width() as nat,
                (self@.len() / 2) as nat,
            ),
    {
        let len: usize = self.buffer.len();
        let count: usize = len / 2;
        let ghost w = self.width as nat;
        let mut changes: Vec<PixelChange> = Vec::new();
        let mut i: usize = 0;
        assert(changes.deep_view() =~= difference(self@, other@, w, 0));
        while i < count
            invariant
                i <= count,
                len == self@.len(),
                count == len / 2,
                self.wf(),
                self@.len() <= other@.len(),
                self.width <= i32::MAX,
                self.height <= i32::MAX,
                w == self.width,
                changes.deep_view() == difference(self@, other@, w, i as nat),
            decreases count - i,
        {
            let high = other.buffer[2 * i];
            let low = other.buffer[2 * i + 1];
            if self.buffer[2 * i] != high || self.buffer[2 * i + 1] != low {
                proof {
                    assert(w > 0) by (nonlinear_arith)
                        requires
                            i < w * (self.height as nat),
                    ;
                    lemma_slot_in_frame(w as int, self.height as int, i as int);
                }
                let x: i32 = (i % self.width as usize) as i32;
                let y: i32 = (i / self.width as usize) as i32;
                let raw = word_from_bytes(high, low);
                let ghost before = changes.deep_view();
                changes.push(PixelChange { x, y, color: color_of(raw) });
                assert(changes.deep_view() =~= before.push(slot_dot(other@, w, i as int)));
            }
            i = i + 1;
        }
        changes
    }
}

} // verus!
