use vstd::prelude::*;
use vstd::slice::slice_subrange;
use crate::bus::{
    command_steps, data_steps, write_command, write_data, write_word, Action, Line,
    ProtocolError, Step,
};
use crate::color::raw_of;
use crate::framebuffer::in_frame;
use crate::instruction::Instruction;
use crate::pixel::{be_bytes, filled, word_bytes, Dot, PixelChange};
use crate::region::{
    all_nonempty, empty_slots, first_free, is_full, lemma_first_free, stored, Region,
    StoreError, CAPACITY,
};
use crate::transfer::{
    address_window_steps, begin_pixels_steps, chunked_steps, lemma_filled_split,
    pixel_addressable, pixel_fits, pixel_steps, push_address_window, push_begin_pixels,
    push_chunks, push_region, region_fits, region_showable, region_steps, window_fits,
    window_ok, CLEAR_CHUNK, PANEL_OFFSET, STREAM_CHUNK,
};
use crate::VERTICAL;

verus! {

/// Where the driver stands between construction and use.
#[derive(Clone, Copy, Debug, PartialEq, Eq, Structural)]
pub enum DriverState {
    /// Constructed; nothing has been sent to the display.
    Uninitialized,
    /// The reset line is being toggled.
    Resetting,
    /// The display was reset and awaits its configuration.
    Configuring,
    /// The display is configured and accepts drawing operations.
    Ready,
}

/// The mathematical content of a driver.
pub struct DriverView {
    pub rgb: bool,
    pub sd: u16,
    pub width: u32,
    pub height: u32,
    pub regions: Seq<Option<Region>>,
    pub state: DriverState,
}

/// The hard reset: the reset line goes high, low and high again, each level
/// held for ten milliseconds.
pub open spec fn reset_steps() -> Seq<Step> {
    seq![
        Step::SetHigh(Line::Reset),
        Step::DelayMs(10),
        Step::SetLow(Line::Reset),
        Step::DelayMs(10),
        Step::SetHigh(Line::Reset),
        Step::DelayMs(10),
    ]
}

/// The memory-access-control parameter for a scan direction.
pub open spec fn madctl_param(sd: u16) -> u8 {
    if sd == VERTICAL {
        0x00
    } else {
        0x78
    }
}

/// `prefix` followed by the configuration of the display: the scan
/// direction, the pixel format, the vendor's power and gamma settings,
/// inversion on, sleep out, a wait of 120 milliseconds, display on.
pub open spec fn configured(prefix: Seq<Step>, sd: u16) -> Seq<Step> {
    prefix + command_steps(Instruction::MadCtl.spec_code(), seq![madctl_param(sd)])
        + command_steps(Instruction::ColMod.spec_code(), seq![0x05u8])
        + command_steps(0xB2, seq![0x0Bu8, 0x0B, 0x00, 0x33, 0x35])
        + command_steps(0xB7, seq![0x11u8])
        + command_steps(0xBB, seq![0x35u8])
        + command_steps(0xC0, seq![0x2Cu8])
        + command_steps(0xC2, seq![0x01u8])
        + command_steps(0xC3, seq![0x0Du8])
        + command_steps(0xC4, seq![0x20u8])
        + command_steps(0xC6, seq![0x13u8])
        + command_steps(0xD0, seq![0xA4u8, 0xA1])
        + command_steps(0xD6, seq![0xA1u8])
        + command_steps(
        0xE0,
        seq![0xF0u8, 0x06, 0x0B, 0x0A, 0x09, 0x26, 0x29, 0x33, 0x41, 0x18, 0x16, 0x15, 0x29, 0x2D],
    ) + command_steps(
        0xE1,
        seq![0xF0u8, 0x04, 0x08, 0x08, 0x07, 0x03, 0x28, 0x32, 0x40, 0x3B, 0x19, 0x18, 0x2A, 0x2E],
    )
        + command_steps(0xE4, seq![0x25u8, 0x00, 0x00])
        + command_steps(Instruction::InvOn.spec_code(), Seq::<u8>::empty())
        + command_steps(Instruction::SlpOut.spec_code(), Seq::<u8>::empty())
        + seq![Step::DelayMs(120)]
        + command_steps(Instruction::DispOn.spec_code(), Seq::<u8>::empty())
}

/// Initialisation: the hard reset, then the configuration.
pub open spec fn init_steps(sd: u16) -> Seq<Step> {
    configured(reset_steps(), sd)
}

/// The window that `show` always sets: columns and rows 0 to 239.
pub open spec fn show_window() -> Seq<u8> {
    seq![0x00u8, 0x00, 0x00, 0xEF]
}

/// Showing a whole buffer: the fixed 240 by 240 window, the memory-write
/// command, and the buffer as a single data transfer.
pub open spec fn show_steps(buffer: Seq<u8>) -> Seq<Step> {
    command_steps(Instruction::CaSet.spec_code(), Seq::<u8>::empty()) + data_steps(show_window())
        + command_steps(Instruction::RaSet.spec_code(), Seq::<u8>::empty()) + data_steps(
        show_window(),
    ) + command_steps(Instruction::RamWr.spec_code(), Seq::<u8>::empty()) + data_steps(buffer)
}

/// Clearing the screen: the window of the whole screen, the memory-write
/// command, and the colour for every pixel, in transfers of 1024 bytes with
/// a shorter one at the end if the screen does not divide evenly.
pub open spec fn clear_steps(sd: u16, width: u32, height: u32, raw: u16) -> Seq<Step> {
    address_window_steps(sd, 0, 0, width as u16, height as u16) + begin_pixels_steps()
        + chunked_steps(filled((width * height * 2) as nat, raw), CLEAR_CHUNK as nat)
}

/// Drawing an image: the window of the whole screen, the memory-write
/// command, and the image in transfers of at most 32 bytes.
pub open spec fn image_steps(sd: u16, width: u32, height: u32, image: Seq<u8>) -> Seq<Step> {
    address_window_steps(sd, 0, 0, width as u16, height as u16) + begin_pixels_steps()
        + chunked_steps(image, STREAM_CHUNK as nat)
}

/// Every region present in `slots` can be shown from a buffer of `len`
/// bytes.
pub open spec fn regions_showable(
    sd: u16,
    width: u32,
    len: nat,
    slots: Seq<Option<Region>>,
) -> bool {
    forall|i: int|
        0 <= i < slots.len() ==> ((#[trigger] slots[i]) matches Some(r) ==> region_showable(
            sd,
            width,
            len,
            r.x,
            r.y,
            r.width,
            r.height,
        ))
}

/// Showing every region present in `slots`, in slot order, each on its own.
pub open spec fn regions_steps(
    sd: u16,
    buffer: Seq<u8>,
    width: u32,
    slots: Seq<Option<Region>>,
) -> Seq<Step>
    decreases slots.len(),
{
    if slots.len() == 0 {
        Seq::<Step>::empty()
    } else {
        let before = regions_steps(sd, buffer, width, slots.drop_last());
        match slots.last() {
            Some(r) => before + region_steps(sd, buffer, width, r.x, r.y, r.width, r.height),
            None => before,
        }
    }
}

/// Drawing the pixels of `dots` one after another: each pixel inside the
/// screen is written on its own; one outside sends nothing.
pub open spec fn pixels_steps(sd: u16, width: u32, height: u32, dots: Seq<Dot>) -> Seq<Step>
    decreases dots.len(),
{
    if dots.len() == 0 {
        Seq::<Step>::empty()
    } else {
        let before = pixels_steps(sd, width, height, dots.drop_last());
        let dot = dots.last();
        if in_frame(width as nat, height as nat, dot.x, dot.y) {
            before + pixel_steps(sd, dot.x as u16, dot.y as u16, dot.raw)
        } else {
            before
        }
    }
}

/// Slots that are all empty send nothing.
proof fn lemma_no_regions_no_steps(sd: u16, buffer: Seq<u8>, width: u32, count: nat)
    ensures
        regions_steps(sd, buffer, width, Seq::new(count, |i: int| None::<Region>))
            == Seq::<Step>::empty(),
    decreases count,
{
    let slots = Seq::new(count, |i: int| None::<Region>);
    if count > 0 {
        assert(slots.drop_last() =~= Seq::new((count - 1) as nat, |i: int| None::<Region>));
        lemma_no_regions_no_steps(sd, buffer, width, (count - 1) as nat);
    }
}

/// With nothing pending, showing the regions sends nothing at all, whatever
/// the buffer holds.
pub proof fn lemma_empty_tracker_sends_nothing(sd: u16, buffer: Seq<u8>, width: u32)
    ensures
        regions_showable(sd, width, buffer.len(), empty_slots()),
        regions_steps(sd, buffer, width, empty_slots()) == Seq::<Step>::empty(),
{
    lemma_no_regions_no_steps(sd, buffer, width, CAPACITY as nat);
}

/// Driver for the display. It plans what is sent: each operation returns
/// the list of transport requests that carries it out, to be performed in
/// order by whoever owns the bus and the pins.
pub struct ST7789V2 {
    rgb: bool,
    sd: u16,
    width: u32,
    height: u32,
    regions: [Option<Region>; 10],
    state: Ghost<DriverState>,
}

impl View for ST7789V2 {
    type V = DriverView;

    closed spec fn view(&self) -> DriverView {
        DriverView {
            rgb: self.rgb,
            sd: self.sd,
            width: self.width,
            height: self.height,
            regions: self.regions@,
            state: self.state@,
        }
    }
}

impl ST7789V2 {
    /// There are ten slots, and every stored region covers a pixel.
    pub open spec fn wf(&self) -> bool {
        self@.regions.len() == CAPACITY && all_nonempty(self@.regions)
    }

    /// The display was initialised.
    pub open spec fn is_ready(&self) -> bool {
        self@.state == DriverState::Ready
    }

    /// Every pixel of the screen can be addressed: the sizes fit in 16 bits,
    /// also with the panel offset added along the offset axis.
    pub open spec fn addressable(&self) -> bool {
        &&& self@.width <= u16::MAX
        &&& self@.height <= u16::MAX
        &&& if self@.sd == VERTICAL {
            self@.height + PANEL_OFFSET <= u16::MAX
        } else {
            self@.width + PANEL_OFFSET <= u16::MAX
        }
    }

    /// The screen has a pixel and all of them can be addressed, so that the
    /// window of the whole screen can be set.
    pub open spec fn spec_screen_fits(&self) -> bool {
        self.addressable() && self@.width >= 1 && self@.height >= 1
    }

    /// Creates a driver for a display of `width` by `height` pixels. `rgb`
    /// says whether the panel is wired red-green-blue rather than
    /// blue-green-red, `sd` is the scan direction. Nothing is pending and
    /// nothing has been sent.
    pub fn new(rgb: bool, sd: u16, width: u32, height: u32) -> (driver: Self)
        ensures
            driver@ == (DriverView {
                rgb,
                sd,
                width,
                height,
                regions: empty_slots(),
                state: DriverState::Uninitialized,
            }),
            driver.wf(),
    {
        let regions: [Option<Region>; 10] = [None; 10];
        assert(regions@ =~= empty_slots());
        ST7789V2 { rgb, sd, width, height, regions, state: Ghost(DriverState::Uninitialized) }
    }

    /// Plans the initialisation: the hard reset followed by the
    /// configuration for the driver's scan direction. Once the script has
    /// run, the display is ready.
    pub fn init(&mut self) -> (script: Vec<Action>)
        ensures
            script.deep_view() == init_steps(old(self)@.sd),
            final(self)@ == (DriverView { state: DriverState::Ready, ..old(self)@ }),
    {
        let mut script = self.hard_reset();
        let none: [u8; 0] = [];
        assert(none@ =~= Seq::<u8>::empty());
        if self.sd == VERTICAL {
            let vertical: [u8; 1] = [0x00];
            assert(vertical@ =~= seq![madctl_param(self.sd)]);
            write_command(&mut script, Instruction::MadCtl.code(), vertical.as_slice());
        } else {
            let horizontal: [u8; 1] = [0x78];
            assert(horizontal@ =~= seq![madctl_param(self.sd)]);
            write_command(&mut script, Instruction::MadCtl.code(), horizontal.as_slice());
        }
        let pixel_format: [u8; 1] = [0x05];
        assert(pixel_format@ =~= seq![0x05u8]);
        write_command(&mut script, Instruction::ColMod.code(), pixel_format.as_slice());
        let porch: [u8; 5] = [0x0B, 0x0B, 0x00, 0x33, 0x35];
        assert(porch@ =~= seq![0x0Bu8, 0x0B, 0x00, 0x33, 0x35]);
        write_command(&mut script, 0xB2, porch.as_slice());
        let gate: [u8; 1] = [0x11];
        assert(gate@ =~= seq![0x11u8]);
        write_command(&mut script, 0xB7, gate.as_slice());
        let vcom: [u8; 1] = [0x35];
        assert(vcom@ =~= seq![0x35u8]);
        write_command(&mut script, 0xBB, vcom.as_slice());
        let lcm: [u8; 1] = [0x2C];
        assert(lcm@ =~= seq![0x2Cu8]);
        write_command(&mut script, 0xC0, lcm.as_slice());
        let voltage_enable: [u8; 1] = [0x01];
        assert(voltage_enable@ =~= seq![0x01u8]);
        write_command(&mut script, 0xC2, voltage_enable.as_slice());
        let vrh: [u8; 1] = [0x0D];
        assert(vrh@ =~= seq![0x0Du8]);
        write_command(&mut script, 0xC3, vrh.as_slice());
        let vdv: [u8; 1] = [0x20];
        assert(vdv@ =~= seq![0x20u8]);
        write_command(&mut script, 0xC4, vdv.as_slice());
        let frame_rate: [u8; 1] = [0x13];
        assert(frame_rate@ =~= seq![0x13u8]);
        write_command(&mut script, 0xC6, frame_rate.as_slice());
        let power: [u8; 2] = [0xA4, 0xA1];
        assert(power@ =~= seq![0xA4u8, 0xA1]);
        write_command(&mut script, 0xD0, power.as_slice());
        let power_2: [u8; 1] = [0xA1];
        assert(power_2@ =~= seq![0xA1u8]);
        write_command(&mut script, 0xD6, power_2.as_slice());
        let gamma_positive: [u8; 14] = [
            0xF0, 0x06, 0x0B, 0x0A, 0x09, 0x26, 0x29, 0x33, 0x41, 0x18, 0x16, 0x15, 0x29, 0x2D,
        ];
        assert(gamma_positive@ =~= seq![
            0xF0u8, 0x06, 0x0B, 0x0A, 0x09, 0x26, 0x29, 0x33, 0x41, 0x18, 0x16, 0x15, 0x29, 0x2D,
        ]);
        write_command(&mut script, 0xE0, gamma_positive.as_slice());
        let gamma_negative: [u8; 14] = [
            0xF0, 0x04, 0x08, 0x08, 0x07, 0x03, 0x28, 0x32, 0x40, 0x3B, 0x19, 0x18, 0x2A, 0x2E,
        ];
        assert(gamma_negative@ =~= seq![
            0xF0u8, 0x04, 0x08, 0x08, 0x07, 0x03, 0x28, 0x32, 0x40, 0x3B, 0x19, 0x18, 0x2A, 0x2E,
        ]);
        write_command(&mut script, 0xE1, gamma_negative.as_slice());
        let gate_lines: [u8; 3] = [0x25, 0x00, 0x00];
        assert(gate_lines@ =~= seq![0x25u8, 0x00, 0x00]);
        write_command(&mut script, 0xE4, gate_lines.as_slice());
        write_command(&mut script, Instruction::InvOn.code(), none.as_slice());
        write_command(&mut script, Instruction::SlpOut.code(), none.as_slice());
        let ghost before = script.deep_view();
        script.push(Action::DelayMs(120));
        assert(script.deep_view() =~= before + seq![Step::DelayMs(120)]);
        write_command(&mut script, Instruction::DispOn.code(), none.as_slice());
        self.state = Ghost(DriverState::Ready);
        script
    }

    /// Plans the hard reset, which brings the display to a known state
    /// before it is configured.
    pub fn hard_reset(&mut self) -> (script: Vec<Action>)
        ensures
            script.deep_view() == reset_steps(),
            final(self)@ == (DriverView { state: DriverState::Configuring, ..old(self)@ }),
    {
        let mut script: Vec<Action> = Vec::new();
        script.push(Action::SetHigh(Line::Reset));
        script.push(Action::DelayMs(10));
        script.push(Action::SetLow(Line::Reset));
        script.push(Action::DelayMs(10));
        script.push(Action::SetHigh(Line::Reset));
        script.push(Action::DelayMs(10));
        assert(script.deep_view() =~= reset_steps());
        self.state = Ghost(DriverState::Configuring);
        script
    }

    /// Plans the setting of the address window `[start_x, end_x)` by
    /// `[start_y, end_y)`, given in logical coordinates. The window must
    /// have a column and a row.
    pub fn set_address_window(&self, start_x: u16, start_y: u16, end_x: u16, end_y: u16) -> (script:
        Vec<Action>)
        requires
            window_ok(self@.sd, start_x, start_y, end_x, end_y),
        ensures
            script.deep_view() == address_window_steps(self@.sd, start_x, start_y, end_x, end_y),
    {
        let mut script: Vec<Action> = Vec::new();
        push_address_window(&mut script, self.sd, start_x, start_y, end_x, end_y);
        assert(script.deep_view() =~= address_window_steps(
            self@.sd,
            start_x,
            start_y,
            end_x,
            end_y,
        ));
        script
    }

    /// Tells whether `set_address_window` accepts the window.
    pub fn window_fits(&self, start_x: u16, start_y: u16, end_x: u16, end_y: u16) -> (ok: bool)
        ensures
            ok == window_ok(self@.sd, start_x, start_y, end_x, end_y),
    {
        window_fits(self.sd, start_x, start_y, end_x, end_y)
    }

    /// Tells whether the window of the whole screen can be set.
    #[verifier::when_used_as_spec(spec_screen_fits)]
    pub fn screen_fits(&self) -> (ok: bool)
        ensures
            ok == self.spec_screen_fits(),
    {
        self.is_addressable() && self.width >= 1 && self.height >= 1
    }

    /// Tells whether every pixel of the screen can be addressed.
    #[verifier::when_used_as_spec(addressable)]
    pub fn is_addressable(&self) -> (ok: bool)
        ensures
            ok == self.addressable(),
    {
        self.width <= 0xFFFF && self.height <= 0xFFFF && if self.sd == VERTICAL {
            self.height <= 0xFFFF - PANEL_OFFSET as u32
        } else {
            self.width <= 0xFFFF - PANEL_OFFSET as u32
        }
    }

    /// Plans the filling of the whole screen with the packed colour
    /// `color`.
    pub fn clear_screen(&self, color: u16) -> (script: Vec<Action>)
        requires
            self.is_ready(),
            self.spec_screen_fits(),
        ensures
            script.deep_view() == clear_steps(self@.sd, self@.width, self@.height, color),
    {
        let mut script: Vec<Action> = Vec::new();
        push_address_window(&mut script, self.sd, 0, 0, self.width as u16, self.height as u16);
        push_begin_pixels(&mut script);
        let ghost head = script.deep_view();
        assert(head =~= address_window_steps(
            self@.sd,
            0,
            0,
            self@.width as u16,
            self@.height as u16,
        ) + begin_pixels_steps());
        let bytes = word_bytes(color);
        let mut chunk: Vec<u8> = Vec::new();
        let mut i: usize = 0;
        while i < 512
            invariant
                i <= 512,
                chunk@ == filled((2 * i) as nat, color),
                bytes@ == be_bytes(color),
            decreases 512 - i,
        {
            chunk.push(bytes[0]);
            chunk.push(bytes[1]);
            assert(chunk@ =~= filled((2 * (i + 1)) as nat, color));
            i = i + 1;
        }
        assert(self.width * self.height <= 0xFFFF * 0xFFFF) by (nonlinear_arith)
            requires
                self.width <= 0xFFFF,
                self.height <= 0xFFFF,
        ;
        let total_pixels: usize = (self.width * self.height) as usize;
        let full_chunks: usize = total_pixels / 512;
        let remaining_pixels: usize = total_pixels % 512;
        let ghost total_bytes = (2 * total_pixels) as nat;
        let ghost all = chunked_steps(filled(total_bytes, color), CLEAR_CHUNK as nat);
        assert(script.deep_view() + all =~= head + all);
        let mut sent: usize = 0;
        while sent < full_chunks
            invariant
                sent <= full_chunks,
                full_chunks == total_pixels / 512,
                remaining_pixels == total_pixels % 512,
                total_bytes == 2 * total_pixels,
                chunk@ == filled(1024, color),
                script.deep_view() + chunked_steps(
                    filled((total_bytes - 1024 * sent) as nat, color),
                    CLEAR_CHUNK as nat,
                ) == head + all,
            decreases full_chunks - sent,
        {
            let ghost before = script.deep_view();
            let ghost left = (total_bytes - 1024 * sent) as nat;
            write_data(&mut script, chunk.as_slice());
            proof {
                lemma_filled_split(left, 1024, color);
                assert(script.deep_view() + chunked_steps(
                    filled((left - 1024) as nat, color),
                    CLEAR_CHUNK as nat,
                ) =~= before + chunked_steps(filled(left, color), CLEAR_CHUNK as nat));
            }
            sent = sent + 1;
        }
        let ghost left = (2 * remaining_pixels) as nat;
        assert(left == total_bytes - 1024 * sent);
        if remaining_pixels > 0 {
            let ghost before = script.deep_view();
            let tail = slice_subrange(chunk.as_slice(), 0, remaining_pixels * 2);
            write_data(&mut script, tail);
            proof {
                lemma_filled_split(1024, left, color);
                assert(tail@ =~= filled(left, color));
                assert(filled(left, color).take(left as int) =~= filled(left, color));
                assert(filled(left, color).skip(left as int) =~= Seq::<u8>::empty());
                assert(chunked_steps(Seq::<u8>::empty(), CLEAR_CHUNK as nat) == Seq::<
                    Step,
                >::empty());
                assert(script.deep_view() =~= before + chunked_steps(
                    filled(left, color),
                    CLEAR_CHUNK as nat,
                ));
            }
        } else {
            assert(script.deep_view() + Seq::<Step>::empty() =~= script.deep_view());
        }
        assert(script.deep_view() == head + all);
        assert(total_bytes == (self@.width * self@.height * 2) as nat);
        script
    }

    /// Tells whether `write_pixel` accepts the pixel.
    pub fn can_write_pixel(&self, x: u16, y: u16) -> (ok: bool)
        ensures
            ok == pixel_addressable(self@.sd, x, y),
    {
        pixel_fits(self.sd, x, y)
    }

    /// Plans the writing of one pixel with the packed colour `color`.
    pub fn write_pixel(&self, x: u16, y: u16, color: u16) -> (script: Vec<Action>)
        requires
            self.is_ready(),
            pixel_addressable(self@.sd, x, y),
        ensures
            script.deep_view() == pixel_steps(self@.sd, x, y, color),
    {
        let mut script: Vec<Action> = Vec::new();
        self.push_pixel(&mut script, x, y, color);
        assert(script.deep_view() =~= pixel_steps(self@.sd, x, y, color));
        script
    }

    fn push_pixel(&self, script: &mut Vec<Action>, x: u16, y: u16, color: u16)
        requires
            pixel_addressable(self@.sd, x, y),
        ensures
            final(script).deep_view() == old(script).deep_view() + pixel_steps(
                self@.sd,
                x,
                y,
                color,
            ),
    {
        push_address_window(script, self.sd, x, y, x + 1, y + 1);
        push_begin_pixels(script);
        write_word(script, color);
        assert(script.deep_view() =~= old(script).deep_view() + pixel_steps(
            self@.sd,
            x,
            y,
            color,
        ));
    }

    /// Plans the drawing of an image that covers the whole screen, two
    /// bytes per pixel, big-endian, row by row.
    pub fn draw_image(&self, image_data: &[u8]) -> (script: Vec<Action>)
        requires
            self.is_ready(),
            self.spec_screen_fits(),
        ensures
            script.deep_view() == image_steps(
                self@.sd,
                self@.width,
                self@.height,
                image_data@,
            ),
    {
        let mut script: Vec<Action> = Vec::new();
        push_address_window(&mut script, self.sd, 0, 0, self.width as u16, self.height as u16);
        push_begin_pixels(&mut script);
        push_chunks(&mut script, image_data, STREAM_CHUNK);
        assert(script.deep_view() =~= image_steps(
            self@.sd,
            self@.width,
            self@.height,
            image_data@,
        ));
        script
    }

    /// Plans the showing of a whole buffer in the fixed window of 240 by 240
    /// pixels, as a single transfer.
    pub fn show(&self, buffer: &[u8]) -> (script: Vec<Action>)
        requires
            self.is_ready(),
        ensures
            script.deep_view() == show_steps(buffer@),
    {
        let mut script: Vec<Action> = Vec::new();
        let none: [u8; 0] = [];
        assert(none@ =~= Seq::<u8>::empty());
        let window: [u8; 4] = [0x00, 0x00, 0x00, 0xEF];
        assert(window@ =~= show_window());
        write_command(&mut script, Instruction::CaSet.code(), none.as_slice());
        write_data(&mut script, window.as_slice());
        write_command(&mut script, Instruction::RaSet.code(), none.as_slice());
        write_data(&mut script, window.as_slice());
        write_command(&mut script, Instruction::RamWr.code(), none.as_slice());
        write_data(&mut script, buffer);
        assert(script.deep_view() =~= show_steps(buffer@));
        script
    }

    /// Tells whether `show_region` accepts the rectangle with a buffer of
    /// `buffer_len` bytes.
    pub fn can_show_region(
        &self,
        buffer_len: usize,
        x: u16,
        y: u16,
        width: u32,
        height: u32,
    ) -> (ok: bool)
        ensures
            ok == region_showable(self@.sd, self@.width, buffer_len as nat, x, y, width, height),
    {
        region_fits(self.sd, self.width, buffer_len, x, y, width, height)
    }

    /// Plans the update of one rectangle of the display from `buffer`,
    /// which holds the whole screen, `self` wide: the rectangle's window,
    /// then its rows, each in transfers of at most 32 bytes.
    pub fn show_region(
        &self,
        buffer: &[u8],
        top_left_x: u16,
        top_left_y: u16,
        width: u32,
        height: u32,
    ) -> (script: Vec<Action>)
        requires
            self.is_ready(),
            region_showable(
                self@.sd,
                self@.width,
                buffer@.len(),
                top_left_x,
                top_left_y,
                width,
                height,
            ),
        ensures
            script.deep_view() == region_steps(
                self@.sd,
                buffer@,
                self@.width,
                top_left_x,
                top_left_y,
                width,
                height,
            ),
    {
        let mut script: Vec<Action> = Vec::new();
        push_region(
            &mut script,
            self.sd,
            buffer,
            self.width,
            top_left_x,
            top_left_y,
            width,
            height,
        );
        assert(script.deep_view() =~= region_steps(
            self@.sd,
            buffer@,
            self@.width,
            top_left_x,
            top_left_y,
            width,
            height,
        ));
        script
    }

    /// Offers a region to the tracker. A region that covers a pixel takes
    /// the first empty slot. One that covers none is refused, and so is any
    /// region once all ten slots are taken; the tracker is then unchanged
    /// and the region is dropped.
    pub fn store_region(&mut self, region: Region) -> (result: Result<(), StoreError>)
        requires
            old(self).wf(),
        ensures
            final(self)@ == (DriverView {
                regions: stored(old(self)@.regions, region),
                ..old(self)@
            }),
            final(self).wf(),
            result == if !region.spec_is_nonempty() {
                Err::<(), StoreError>(StoreError::EmptyRegion)
            } else if is_full(old(self)@.regions) {
                Err::<(), StoreError>(StoreError::CapacityError)
            } else {
                Ok::<(), StoreError>(())
            },
    {
        if !region.is_nonempty() {
            return Err(StoreError::EmptyRegion);
        }
        let ghost slots = self.regions@;
        let mut i: usize = 0;
        while i < CAPACITY
            invariant
                i <= CAPACITY,
                slots == self.regions@,
                slots.len() == CAPACITY,
                all_nonempty(slots),
                region.spec_is_nonempty(),
                self@ == old(self)@,
                forall|k: int| 0 <= k < i ==> (#[trigger] slots[k]) is Some,
            decreases CAPACITY - i,
        {
            if self.regions[i].is_none() {
                proof {
                    lemma_first_free(slots);
                    assert(slots[i as int] is None);
                    assert(!is_full(slots));
                    assert(first_free(slots) == i) by {
                        if first_free(slots) < i {
                            assert(slots[first_free(slots)] is Some);
                        }
                    }
                }
                self.regions[i] = Some(region);
                assert(self.regions@ =~= stored(slots, region));
                return Ok(());
            }
            i = i + 1;
        }
        assert(is_full(slots));
        Err(StoreError::CapacityError)
    }

    /// Makes a region of the four values and offers it to the tracker, as
    /// `store_region` does.
    pub fn store_region_from_params(&mut self, x: u16, y: u16, width: u32, height: u32) -> (result:
        Result<(), StoreError>)
        requires
            old(self).wf(),
        ensures
            final(self)@ == (DriverView {
                regions: stored(old(self)@.regions, Region { x, y, width, height }),
                ..old(self)@
            }),
            final(self).wf(),
            result == if width == 0 || height == 0 {
                Err::<(), StoreError>(StoreError::EmptyRegion)
            } else if is_full(old(self)@.regions) {
                Err::<(), StoreError>(StoreError::CapacityError)
            } else {
                Ok::<(), StoreError>(())
            },
    {
        let region = Region { x, y, width, height };
        self.store_region(region)
    }

    /// The ten slots of the tracker, in slot order. A region sits in the
    /// slot that was the first empty one when it was stored.
    pub fn get_regions(&self) -> (slots: &[Option<Region>])
        ensures
            slots@ == self@.regions,
    {
        self.regions.as_slice()
    }

    /// Empties every slot of the tracker.
    pub fn clear_regions(&mut self)
        ensures
            final(self)@ == (DriverView { regions: empty_slots(), ..old(self)@ }),
            final(self).wf(),
    {
        let regions: [Option<Region>; 10] = [None; 10];
        assert(regions@ =~= empty_slots());
        self.regions = regions;
    }

    /// Tells whether `show_regions` accepts a buffer of `buffer_len` bytes
    /// with the regions that are pending.
    pub fn can_show_regions(&self, buffer_len: usize) -> (ok: bool)
        ensures
            ok == regions_showable(self@.sd, self@.width, buffer_len as nat, self@.regions),
    {
        let mut i: usize = 0;
        while i < CAPACITY
            invariant
                i <= CAPACITY,
                self@.regions.len() == CAPACITY,
                forall|k: int|
                    0 <= k < i ==> ((#[trigger] self@.regions[k]) matches Some(r)
                        ==> region_showable(
                        self@.sd,
                        self@.width,
                        buffer_len as nat,
                        r.x,
                        r.y,
                        r.width,
                        r.height,
                    )),
            decreases CAPACITY - i,
        {
            match self.regions[i] {
                Some(r) => {
                    if !region_fits(self.sd, self.width, buffer_len, r.x, r.y, r.width, r.height) {
                        assert(self@.regions[i as int] == Some(r));
                        return false;
                    }
                },
                None => {},
            }
            i = i + 1;
        }
        true
    }

    /// Plans the update of every pending region from `buffer`, in slot
    /// order, each as `show_region` does it. Overlapping regions are each
    /// sent in full. The tracker is left as it is.
    pub fn show_regions(&self, buffer: &[u8]) -> (script: Vec<Action>)
        requires
            self.is_ready(),
            regions_showable(self@.sd, self@.width, buffer@.len(), self@.regions),
        ensures
            script.deep_view() == regions_steps(self@.sd, buffer@, self@.width, self@.regions),
    {
        let mut script: Vec<Action> = Vec::new();
        let ghost slots = self@.regions;
        let mut i: usize = 0;
        assert(slots.take(0) =~= Seq::<Option<Region>>::empty());
        assert(script.deep_view() =~= Seq::<Step>::empty());
        while i < CAPACITY
            invariant
                i <= CAPACITY,
                slots == self@.regions,
                slots.len() == CAPACITY,
                regions_showable(self@.sd, self@.width, buffer@.len(), slots),
                script.deep_view() == regions_steps(
                    self@.sd,
                    buffer@,
                    self@.width,
                    slots.take(i as int),
                ),
            decreases CAPACITY - i,
        {
            proof {
                let next = slots.take(i + 1);
                assert(next.drop_last() =~= slots.take(i as int));
                assert(next.last() == slots[i as int]);
            }
            match self.regions[i] {
                Some(r) => {
                    assert(slots[i as int] == Some(r));
                    push_region(
                        &mut script,
                        self.sd,
                        buffer,
                        self.width,
                        r.x,
                        r.y,
                        r.width,
                        r.height,
                    );
                },
                None => {},
            }
            i = i + 1;
        }
        assert(slots.take(CAPACITY as int) =~= slots);
        script
    }

    /// Takes the outcome of running the script of `show_regions` and
    /// concludes the flush: after a success the tracker is emptied; after a
    /// failure it is left exactly as it was, so that showing the regions
    /// again sends all of them, and the failure is handed on.
    pub fn show_regions_and_clear(&mut self, flushed: Result<(), ProtocolError>) -> (result: Result<
        (),
        ProtocolError,
    >)
        ensures
            result == flushed,
            flushed is Ok ==> final(self)@ == (DriverView {
                regions: empty_slots(),
                ..old(self)@
            }),
            flushed is Err ==> final(self)@ == old(self)@,
    {
        if flushed.is_ok() {
            self.clear_regions();
        }
        flushed
    }

    /// Plans the drawing of the pixels of `pixels`, one after another, each
    /// as `write_pixel` does it. Pixels outside the screen are dropped
    /// silently.
    pub fn draw_iter(&self, pixels: &[PixelChange]) -> (script: Vec<Action>)
        requires
            self.is_ready(),
            self.addressable(),
        ensures
            script.deep_view() == pixels_steps(
                self@.sd,
                self@.width,
                self@.height,
                pixels.deep_view(),
            ),
    {
        let mut script: Vec<Action> = Vec::new();
        let ghost dots = pixels.deep_view();
        let mut i: usize = 0;
        assert(dots.take(0) =~= Seq::<Dot>::empty());
        assert(script.deep_view() =~= Seq::<Step>::empty());
        while i < pixels.len()
            invariant
                i <= pixels.len(),
                dots == pixels.deep_view(),
                self.addressable(),
                script.deep_view() == pixels_steps(
                    self@.sd,
                    self@.width,
                    self@.height,
                    dots.take(i as int),
                ),
            decreases pixels.len() - i,
        {
            let pixel = pixels[i];
            let raw = raw_of(pixel.color);
            proof {
                let next = dots.take(i + 1);
                assert(next.drop_last() =~= dots.take(i as int));
                assert(next.last() == dots[i as int]);
                assert(dots[i as int] == pixels@[i as int].deep_view());
            }
            if pixel.x >= 0 && pixel.y >= 0 && (pixel.x as u32) < self.width && (pixel.y as u32)
                < self.height {
                self.push_pixel(&mut script, pixel.x as u16, pixel.y as u16, raw);
            }
            i = i + 1;
        }
        assert(dots.take(i as int) =~= dots);
        script
    }

    /// Width and height of the screen in pixels.
    pub fn size(&self) -> (size: (u32, u32))
        ensures
            size == (self@.width, self@.height),
    {
        (self.width, self.height)
    }
}

} // verus!
