use vstd::prelude::*;
use vstd::slice::slice_subrange;
use crate::bus::{
    command_steps, data_steps, lemma_writes_command, lemma_writes_concat, lemma_writes_data,
    start_data, word_steps, write_command, write_data, write_word, writes, Action, Line, Step,
};
use crate::instruction::Instruction;
use crate::pixel::{be_bytes, filled};
use crate::VERTICAL;

verus! {

/// Distance, in pixels, between the logical screen and the controller's
/// memory along the offset axis.
pub const PANEL_OFFSET: u16 = 20;

/// Largest number of bytes sent in one transfer when pixel rows or an image
/// are streamed.
pub const STREAM_CHUNK: usize = 32;

/// Number of bytes in one transfer when the screen is cleared.
pub const CLEAR_CHUNK: usize = 1024;

/// A window the controller can be given: it has at least one column and one
/// row, its ends being exclusive, and its end along the offset axis still
/// fits in 16 bits once the panel offset is added.
pub open spec fn window_ok(sd: u16, start_x: u16, start_y: u16, end_x: u16, end_y: u16) -> bool {
    &&& start_x < end_x
    &&& start_y < end_y
    &&& if sd == VERTICAL {
        end_y + PANEL_OFFSET <= u16::MAX
    } else {
        end_x + PANEL_OFFSET <= u16::MAX
    }
}

/// First and last column sent to the controller for the logical columns
/// `[start_x, end_x)`: shifted by the panel offset unless the scan direction
/// is vertical.
pub open spec fn column_range(sd: u16, start_x: u16, end_x: u16) -> (u16, u16) {
    if sd == VERTICAL {
        (start_x, (end_x - 1) as u16)
    } else {
        ((start_x + PANEL_OFFSET) as u16, (end_x + PANEL_OFFSET - 1) as u16)
    }
}

/// First and last row sent to the controller for the logical rows
/// `[start_y, end_y)`: shifted by the panel offset if the scan direction is
/// vertical.
pub open spec fn row_range(sd: u16, start_y: u16, end_y: u16) -> (u16, u16) {
    if sd == VERTICAL {
        ((start_y + PANEL_OFFSET) as u16, (end_y + PANEL_OFFSET - 1) as u16)
    } else {
        (start_y, (end_y - 1) as u16)
    }
}

/// Setting the address window: the column-address command followed by the
/// first and last column as two words, the row-address command followed by
/// the first and last row, then the memory-write command, which arms the
/// controller for pixel data.
pub open spec fn address_window_steps(
    sd: u16,
    start_x: u16,
    start_y: u16,
    end_x: u16,
    end_y: u16,
) -> Seq<Step> {
    let columns = column_range(sd, start_x, end_x);
    let rows = row_range(sd, start_y, end_y);
    command_steps(Instruction::CaSet.spec_code(), Seq::<u8>::empty()) + seq![
        Step::SetHigh(Line::DataCommand),
    ] + word_steps(columns.0) + word_steps(columns.1) + command_steps(
        Instruction::RaSet.spec_code(),
        Seq::<u8>::empty(),
    ) + seq![Step::SetHigh(Line::DataCommand)] + word_steps(rows.0) + word_steps(rows.1)
        + command_steps(Instruction::RamWr.spec_code(), Seq::<u8>::empty())
}

/// What follows every address window before pixel data: the memory-write
/// command and the switch to data mode.
pub open spec fn begin_pixels_steps() -> Seq<Step> {
    command_steps(Instruction::RamWr.spec_code(), Seq::<u8>::empty()) + seq![
        Step::SetHigh(Line::DataCommand),
    ]
}

/// `data` sent as data transfers of at most `size` bytes each, first bytes
/// first; only the last transfer may be shorter.
pub open spec fn chunked_steps(data: Seq<u8>, size: nat) -> Seq<Step>
    decreases data.len(),
{
    if data.len() == 0 || size == 0 {
        Seq::<Step>::empty()
    } else {
        let n = if data.len() < size {
            data.len()
        } else {
            size
        };
        data_steps(data.take(n as int)) + chunked_steps(data.skip(n as int), size)
    }
}

/// The bytes of `w` pixels starting at column `x` of row `row`, in a buffer
/// laid out `width` pixels to the row.
pub open spec fn row_bytes(buffer: Seq<u8>, width: nat, x: nat, w: nat, row: nat) -> Seq<u8> {
    buffer.subrange(((row * width + x) * 2) as int, ((row * width + x) * 2 + w * 2) as int)
}

/// The rows `first_row .. first_row + rows` of a rectangle, streamed top to
/// bottom, each row in chunks.
pub open spec fn rows_steps(
    buffer: Seq<u8>,
    width: nat,
    x: nat,
    w: nat,
    first_row: nat,
    rows: nat,
) -> Seq<Step>
    decreases rows,
{
    if rows == 0 {
        Seq::<Step>::empty()
    } else {
        rows_steps(buffer, width, x, w, first_row, (rows - 1) as nat) + chunked_steps(
            row_bytes(buffer, width, x, w, (first_row + rows - 1) as nat),
            STREAM_CHUNK as nat,
        )
    }
}

/// A rectangle that can be shown from a buffer of `len` bytes laid out
/// `width` pixels to the row: it covers a pixel, its window can be given to
/// the controller, and each of its rows lies inside the buffer.
pub open spec fn region_showable(
    sd: u16,
    width: u32,
    len: nat,
    x: u16,
    y: u16,
    w: u32,
    h: u32,
) -> bool {
    &&& w >= 1
    &&& h >= 1
    &&& x + w <= u16::MAX
    &&& y + h <= u16::MAX
    &&& window_ok(sd, x, y, (x + w) as u16, (y + h) as u16)
    &&& ((y + h - 1) * width + x + w) * 2 <= len
}

/// Showing a rectangle: its address window, the memory-write command, then
/// its rows from the buffer.
pub open spec fn region_steps(
    sd: u16,
    buffer: Seq<u8>,
    width: u32,
    x: u16,
    y: u16,
    w: u32,
    h: u32,
) -> Seq<Step> {
    address_window_steps(sd, x, y, (x + w) as u16, (y + h) as u16) + begin_pixels_steps()
        + rows_steps(buffer, width as nat, x as nat, w as nat, y as nat, h as nat)
}

/// A pixel that can be written on its own: the window of that pixel alone
/// can be given to the controller.
pub open spec fn pixel_addressable(sd: u16, x: u16, y: u16) -> bool {
    x < u16::MAX && y < u16::MAX && window_ok(sd, x, y, (x + 1) as u16, (y + 1) as u16)
}

/// Writing one pixel: the window of that pixel alone, the memory-write
/// command, and the colour as one word.
pub open spec fn pixel_steps(sd: u16, x: u16, y: u16, raw: u16) -> Seq<Step> {
    address_window_steps(sd, x, y, (x + 1) as u16, (y + 1) as u16) + begin_pixels_steps()
        + word_steps(raw)
}

/// The bus writes of an address window are, in this order: the
/// column-address opcode, the first column, the last column, the row-address
/// opcode, the first row, the last row, and the memory-write opcode, every
/// coordinate as a big-endian word. With the vertical scan direction the
/// columns are `start_x` and `end_x - 1` and the rows `start_y + 20` and
/// `end_y + 20 - 1`; with any other the offset is added to the columns and
/// not to the rows.
pub proof fn lemma_address_window_writes(
    sd: u16,
    start_x: u16,
    start_y: u16,
    end_x: u16,
    end_y: u16,
)
    requires
        window_ok(sd, start_x, start_y, end_x, end_y),
    ensures
        sd == VERTICAL ==> writes(address_window_steps(sd, start_x, start_y, end_x, end_y))
            == seq![
            seq![0x2Au8],
            be_bytes(start_x),
            be_bytes((end_x - 1) as u16),
            seq![0x2Bu8],
            be_bytes((start_y + 20) as u16),
            be_bytes((end_y + 20 - 1) as u16),
            seq![0x2Cu8],
        ],
        sd != VERTICAL ==> writes(address_window_steps(sd, start_x, start_y, end_x, end_y))
            == seq![
            seq![0x2Au8],
            be_bytes((start_x + 20) as u16),
            be_bytes((end_x + 20 - 1) as u16),
            seq![0x2Bu8],
            be_bytes(start_y),
            be_bytes((end_y - 1) as u16),
            seq![0x2Cu8],
        ],
{
    let columns = column_range(sd, start_x, end_x);
    let rows = row_range(sd, start_y, end_y);
    let none = Seq::<u8>::empty();
    let dc = seq![Step::SetHigh(Line::DataCommand)];
    let s1 = command_steps(0x2A, none);
    let s2 = s1 + dc;
    let s3 = s2 + word_steps(columns.0);
    let s4 = s3 + word_steps(columns.1);
    let s5 = s4 + command_steps(0x2B, none);
    let s6 = s5 + dc;
    let s7 = s6 + word_steps(rows.0);
    let s8 = s7 + word_steps(rows.1);
    let s9 = s8 + command_steps(0x2C, none);
    assert(writes(dc) =~= Seq::<Seq<u8>>::empty()) by {
        reveal_with_fuel(writes, 2);
    }
    lemma_writes_command(0x2A, none);
    lemma_writes_command(0x2B, none);
    lemma_writes_command(0x2C, none);
    lemma_writes_data(be_bytes(columns.0));
    lemma_writes_data(be_bytes(columns.1));
    lemma_writes_data(be_bytes(rows.0));
    lemma_writes_data(be_bytes(rows.1));
    lemma_writes_concat(s1, dc);
    lemma_writes_concat(s2, word_steps(columns.0));
    lemma_writes_concat(s3, word_steps(columns.1));
    lemma_writes_concat(s4, command_steps(0x2B, none));
    lemma_writes_concat(s5, dc);
    lemma_writes_concat(s6, word_steps(rows.0));
    lemma_writes_concat(s7, word_steps(rows.1));
    lemma_writes_concat(s8, command_steps(0x2C, none));
    assert(s9 == address_window_steps(sd, start_x, start_y, end_x, end_y));
    assert(writes(s9) =~= seq![
        seq![0x2Au8],
        be_bytes(columns.0),
        be_bytes(columns.1),
        seq![0x2Bu8],
        be_bytes(rows.0),
        be_bytes(rows.1),
        seq![0x2Cu8],
    ]);
}

/// Cutting an even number of bytes off the front of a filled buffer leaves
/// two filled buffers.
pub(crate) proof fn lemma_filled_split(len: nat, n: nat, raw: u16)
    requires
        n <= len,
        n % 2 == 0,
    ensures
        filled(len, raw).take(n as int) == filled(n, raw),
        filled(len, raw).skip(n as int) == filled((len - n) as nat, raw),
{
    assert(filled(len, raw).take(n as int) =~= filled(n, raw));
    assert(filled(len, raw).skip(n as int) =~= filled((len - n) as nat, raw));
}

/// Tells whether `window_ok` holds of the window.
pub fn window_fits(sd: u16, start_x: u16, start_y: u16, end_x: u16, end_y: u16) -> (ok: bool)
    ensures
        ok == window_ok(sd, start_x, start_y, end_x, end_y),
{
    start_x < end_x && start_y < end_y && if sd == VERTICAL {
        end_y <= u16::MAX - PANEL_OFFSET
    } else {
        end_x <= u16::MAX - PANEL_OFFSET
    }
}

/// Tells whether `pixel_addressable` holds of the pixel.
pub fn pixel_fits(sd: u16, x: u16, y: u16) -> (ok: bool)
    ensures
        ok == pixel_addressable(sd, x, y),
{
    x < u16::MAX && y < u16::MAX && window_fits(sd, x, y, x + 1, y + 1)
}

/// Tells whether `region_showable` holds of the rectangle.
pub fn region_fits(sd: u16, width: u32, len: usize, x: u16, y: u16, w: u32, h: u32) -> (ok: bool)
    ensures
        ok == region_showable(sd, width, len as nat, x, y, w, h),
{
    if w < 1 || h < 1 || w > 0xFFFF || h > 0xFFFF {
        return false;
    }
    let end_x: u32 = x as u32 + w;
    let end_y: u32 = y as u32 + h;
    if end_x > 0xFFFF || end_y > 0xFFFF {
        return false;
    }
    if !window_fits(sd, x, y, end_x as u16, end_y as u16) {
        return false;
    }
    assert((end_y - 1) * width <= 0xFFFF * 0xFFFF_FFFF) by (nonlinear_arith)
        requires
            0 <= end_y - 1 <= 0xFFFF,
            0 <= width <= 0xFFFF_FFFF,
    ;
    let last: u64 = ((end_y - 1) as u64 * width as u64 + end_x as u64) * 2;
    last <= len as u64
}

/// Appends to `script` the setting of the address window
/// `[start_x, end_x)` by `[start_y, end_y)`.
pub fn push_address_window(
    script: &mut Vec<Action>,
    sd: u16,
    start_x: u16,
    start_y: u16,
    end_x: u16,
    end_y: u16,
)
    requires
        window_ok(sd, start_x, start_y, end_x, end_y),
    ensures
        final(script).deep_view() == old(script).deep_view() + address_window_steps(
            sd,
            start_x,
            start_y,
            end_x,
            end_y,
        ),
{
    let none: [u8; 0] = [];
    assert(none@ =~= Seq::<u8>::empty());
    let ghost dc = seq![Step::SetHigh(Line::DataCommand)];
    let ghost base = old(script).deep_view();
    let ghost columns = column_range(sd, start_x, end_x);
    let ghost rows = row_range(sd, start_y, end_y);
    if sd == VERTICAL {
        write_command(script, Instruction::CaSet.code(), none.as_slice());
        start_data(script);
        write_word(script, start_x);
        write_word(script, end_x - 1);
        write_command(script, Instruction::RaSet.code(), none.as_slice());
        start_data(script);
        write_word(script, start_y + PANEL_OFFSET);
        write_word(script, end_y + PANEL_OFFSET - 1);
    } else {
        write_command(script, Instruction::CaSet.code(), none.as_slice());
        start_data(script);
        write_word(script, start_x + PANEL_OFFSET);
        write_word(script, end_x + PANEL_OFFSET - 1);
        write_command(script, Instruction::RaSet.code(), none.as_slice());
        start_data(script);
        write_word(script, start_y);
        write_word(script, end_y - 1);
    }
    assert(script.deep_view() =~= base + command_steps(0x2A, Seq::<u8>::empty()) + dc + word_steps(
        columns.0,
    ) + word_steps(columns.1) + command_steps(0x2B, Seq::<u8>::empty()) + dc + word_steps(rows.0)
        + word_steps(rows.1));
    write_command(script, Instruction::RamWr.code(), none.as_slice());
    assert(script.deep_view() =~= base + address_window_steps(sd, start_x, start_y, end_x, end_y));
}

/// Appends to `script` the memory-write command and the switch to data mode.
pub fn push_begin_pixels(script: &mut Vec<Action>)
    ensures
        final(script).deep_view() == old(script).deep_view() + begin_pixels_steps(),
{
    let none: [u8; 0] = [];
    assert(none@ =~= Seq::<u8>::empty());
    write_command(script, Instruction::RamWr.code(), none.as_slice());
    start_data(script);
    assert(script.deep_view() =~= old(script).deep_view() + begin_pixels_steps());
}

/// Appends to `script` the bytes of `data` as data transfers of at most
/// `size` bytes each.
pub fn push_chunks(script: &mut Vec<Action>, data: &[u8], size: usize)
    requires
        size > 0,
    ensures
        final(script).deep_view() == old(script).deep_view() + chunked_steps(data@, size as nat),
{
    let ghost base = old(script).deep_view();
    let ghost all = chunked_steps(data@, size as nat);
    let len: usize = data.len();
    let mut pos: usize = 0;
    assert(data@.skip(0) =~= data@);
    assert(script.deep_view() + all =~= base + all);
    while pos < len
        invariant
            pos <= len,
            len == data@.len(),
            size > 0,
            all == chunked_steps(data@, size as nat),
            script.deep_view() + chunked_steps(data@.skip(pos as int), size as nat) == base + all,
        decreases len - pos,
    {
        let n: usize = if len - pos < size {
            len - pos
        } else {
            size
        };
        let chunk = slice_subrange(data, pos, pos + n);
        let ghost before = script.deep_view();
        let ghost rest = data@.skip(pos as int);
        write_data(script, chunk);
        proof {
            assert(rest.take(n as int) =~= chunk@);
            assert(rest.skip(n as int) =~= data@.skip(pos + n));
            assert(chunked_steps(rest, size as nat) == data_steps(chunk@) + chunked_steps(
                data@.skip(pos + n),
                size as nat,
            ));
            assert(script.deep_view() + chunked_steps(data@.skip(pos + n), size as nat) =~= before
                + chunked_steps(rest, size as nat));
        }
        pos = pos + n;
    }
    assert(script.deep_view() + Seq::<Step>::empty() =~= script.deep_view());
}

/// Appends to `script` the showing of the rectangle of `w` by `h` pixels at
/// `(x, y)` from `buffer`, which is laid out `width` pixels to the row.
pub fn push_region(
    script: &mut Vec<Action>,
    sd: u16,
    buffer: &[u8],
    width: u32,
    x: u16,
    y: u16,
    w: u32,
    h: u32,
)
    requires
        region_showable(sd, width, buffer@.len(), x, y, w, h),
    ensures
        final(script).deep_view() == old(script).deep_view() + region_steps(
            sd,
            buffer@,
            width,
            x,
            y,
            w,
            h,
        ),
{
    let ghost base = old(script).deep_view();
    let end_x: u16 = (x as u32 + w) as u16;
    let end_y: u16 = (y as u32 + h) as u16;
    push_address_window(script, sd, x, y, end_x, end_y);
    push_begin_pixels(script);
    let ghost head = script.deep_view();
    assert(head =~= base + address_window_steps(sd, x, y, end_x, end_y) + begin_pixels_steps());
    let len: usize = buffer.len();
    let row_len: usize = w as usize * 2;
    let mut row: usize = 0;
    while row < h as usize
        invariant
            row <= h,
            len == buffer@.len(),
            row_len == w * 2,
            region_showable(sd, width, buffer@.len(), x, y, w, h),
            script.deep_view() == head + rows_steps(
                buffer@,
                width as nat,
                x as nat,
                w as nat,
                y as nat,
                row as nat,
            ),
        decreases h - row,
    {
        proof {
            let r = y as int + row as int;
            let last = y as int + h as int - 1;
            assert(0 <= r * width <= last * width) by (nonlinear_arith)
                requires
                    0 <= r <= last,
                    0 <= width,
            ;
        }
        let start: usize = ((y as usize + row) * width as usize + x as usize) * 2;
        let ghost before = script.deep_view();
        let ghost sofar = rows_steps(
            buffer@,
            width as nat,
            x as nat,
            w as nat,
            y as nat,
            row as nat,
        );
        push_chunks(script, slice_subrange(buffer, start, start + row_len), STREAM_CHUNK);
        proof {
            let bytes = row_bytes(buffer@, width as nat, x as nat, w as nat, (y + row) as nat);
            assert(bytes =~= buffer@.subrange(start as int, start + row_len));
            assert(script.deep_view() =~= head + (sofar + chunked_steps(
                bytes,
                STREAM_CHUNK as nat,
            )));
        }
        row = row + 1;
    }
    assert(script.deep_view() =~= base + region_steps(sd, buffer@, width, x, y, w, h));
}

} // verus!
