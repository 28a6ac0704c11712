use embedded_graphics::pixelcolor::raw::RawU16;
use embedded_graphics::pixelcolor::Rgb565;
use st7789v2_driver::bus::{
    advance, start_data, write_command, write_data, write_word, Action, Line, Progress,
    ProtocolError,
};
use st7789v2_driver::driver::ST7789V2;
use st7789v2_driver::instruction::Instruction;
use st7789v2_driver::pixel::PixelChange;
use st7789v2_driver::region::{Region, StoreError, CAPACITY};
use st7789v2_driver::{HORIZONTAL, VERTICAL};

fn data(bytes: &[u8]) -> Vec<Action> {
    vec![
        Action::SetHigh(Line::ChipSelect),
        Action::SetHigh(Line::DataCommand),
        Action::SetLow(Line::ChipSelect),
        Action::Write(bytes.to_vec()),
        Action::SetHigh(Line::ChipSelect),
    ]
}

fn command(code: u8, params: &[u8]) -> Vec<Action> {
    let mut out = vec![
        Action::SetHigh(Line::ChipSelect),
        Action::SetLow(Line::DataCommand),
        Action::SetLow(Line::ChipSelect),
        Action::Write(vec![code]),
    ];
    if !params.is_empty() {
        out.push(Action::SetHigh(Line::DataCommand));
        out.extend(data(params));
    }
    out.push(Action::SetHigh(Line::ChipSelect));
    out
}

fn window(columns: (u16, u16), rows: (u16, u16)) -> Vec<Action> {
    let mut out = command(0x2A, &[]);
    out.push(Action::SetHigh(Line::DataCommand));
    out.extend(data(&columns.0.to_be_bytes()));
    out.extend(data(&columns.1.to_be_bytes()));
    out.extend(command(0x2B, &[]));
    out.push(Action::SetHigh(Line::DataCommand));
    out.extend(data(&rows.0.to_be_bytes()));
    out.extend(data(&rows.1.to_be_bytes()));
    out.extend(command(0x2C, &[]));
    out
}

fn begin_pixels() -> Vec<Action> {
    let mut out = command(0x2C, &[]);
    out.push(Action::SetHigh(Line::DataCommand));
    out
}

fn writes(script: &[Action]) -> Vec<Vec<u8>> {
    let mut out = Vec::new();
    for action in script {
        if let Action::Write(bytes) = action {
            out.push(bytes.clone());
        }
    }
    out
}

fn ready(sd: u16, width: u32, height: u32) -> ST7789V2 {
    let mut driver = ST7789V2::new(true, sd, width, height);
    let _ = driver.init();
    driver
}

fn numbered(len: usize) -> Vec<u8> {
    (0..len).map(|i| i as u8).collect()
}

fn region(x: u16, y: u16, width: u32, height: u32) -> Region {
    Region { x, y, width, height }
}

fn change(x: i32, y: i32, raw: u16) -> PixelChange {
    PixelChange { x, y, color: Rgb565::from(RawU16::new(raw)) }
}

#[test]
fn instruction_codes() {
    assert_eq!(Instruction::Nop.code(), 0x00);
    assert_eq!(Instruction::SwReset.code(), 0x01);
    assert_eq!(Instruction::SlpOut.code(), 0x11);
    assert_eq!(Instruction::InvOn.code(), 0x21);
    assert_eq!(Instruction::DispOn.code(), 0x29);
    assert_eq!(Instruction::CaSet.code(), 0x2A);
    assert_eq!(Instruction::RaSet.code(), 0x2B);
    assert_eq!(Instruction::RamWr.code(), 0x2C);
    assert_eq!(Instruction::MadCtl.code(), 0x36);
    assert_eq!(Instruction::ColMod.code(), 0x3A);
    assert_eq!(Instruction::RdId3.code(), 0xDC);
}

#[test]
fn orientation_constants() {
    assert_eq!(HORIZONTAL, 0);
    assert_eq!(VERTICAL, 1);
}

#[test]
fn command_without_parameters_is_one_write_in_command_mode() {
    let mut script = Vec::new();
    write_command(&mut script, 0x29, &[]);
    assert_eq!(
        script,
        vec![
            Action::SetHigh(Line::ChipSelect),
            Action::SetLow(Line::DataCommand),
            Action::SetLow(Line::ChipSelect),
            Action::Write(vec![0x29]),
            Action::SetHigh(Line::ChipSelect),
        ]
    );
}

#[test]
fn command_with_parameters_sends_them_as_one_data_transfer() {
    let mut script = Vec::new();
    write_command(&mut script, 0xB2, &[0x0B, 0x0B, 0x00, 0x33, 0x35]);
    assert_eq!(
        script,
        vec![
            Action::SetHigh(Line::ChipSelect),
            Action::SetLow(Line::DataCommand),
            Action::SetLow(Line::ChipSelect),
            Action::Write(vec![0xB2]),
            Action::SetHigh(Line::DataCommand),
            Action::SetHigh(Line::ChipSelect),
            Action::SetHigh(Line::DataCommand),
            Action::SetLow(Line::ChipSelect),
            Action::Write(vec![0x0B, 0x0B, 0x00, 0x33, 0x35]),
            Action::SetHigh(Line::ChipSelect),
            Action::SetHigh(Line::ChipSelect),
        ]
    );
}

#[test]
fn data_transfer_is_exactly_one_write() {
    let mut script = Vec::new();
    let payload = numbered(300);
    write_data(&mut script, &payload);
    assert_eq!(script, data(&payload));
    assert_eq!(writes(&script), vec![payload]);
}

#[test]
fn emitters_append_to_what_is_there() {
    let mut script = vec![Action::DelayMs(1)];
    start_data(&mut script);
    write_word(&mut script, 0xABCD);
    let mut expected = vec![Action::DelayMs(1), Action::SetHigh(Line::DataCommand)];
    expected.extend(data(&[0xAB, 0xCD]));
    assert_eq!(script, expected);
}

#[test]
fn hard_reset_toggles_the_reset_line_with_ten_millisecond_holds() {
    let mut driver = ST7789V2::new(true, VERTICAL, 240, 280);
    assert_eq!(
        driver.hard_reset(),
        vec![
            Action::SetHigh(Line::Reset),
            Action::DelayMs(10),
            Action::SetLow(Line::Reset),
            Action::DelayMs(10),
            Action::SetHigh(Line::Reset),
            Action::DelayMs(10),
        ]
    );
}

fn expected_init(madctl: u8) -> Vec<Action> {
    let mut out = vec![
        Action::SetHigh(Line::Reset),
        Action::DelayMs(10),
        Action::SetLow(Line::Reset),
        Action::DelayMs(10),
        Action::SetHigh(Line::Reset),
        Action::DelayMs(10),
    ];
    out.extend(command(0x36, &[madctl]));
    out.extend(command(0x3A, &[0x05]));
    out.extend(command(0xB2, &[0x0B, 0x0B, 0x00, 0x33, 0x35]));
    out.extend(command(0xB7, &[0x11]));
    out.extend(command(0xBB, &[0x35]));
    out.extend(command(0xC0, &[0x2C]));
    out.extend(command(0xC2, &[0x01]));
    out.extend(command(0xC3, &[0x0D]));
    out.extend(command(0xC4, &[0x20]));
    out.extend(command(0xC6, &[0x13]));
    out.extend(command(0xD0, &[0xA4, 0xA1]));
    out.extend(command(0xD6, &[0xA1]));
    out.extend(command(
        0xE0,
        &[0xF0, 0x06, 0x0B, 0x0A, 0x09, 0x26, 0x29, 0x33, 0x41, 0x18, 0x16, 0x15, 0x29, 0x2D],
    ));
    out.extend(command(
        0xE1,
        &[0xF0, 0x04, 0x08, 0x08, 0x07, 0x03, 0x28, 0x32, 0x40, 0x3B, 0x19, 0x18, 0x2A, 0x2E],
    ));
    out.extend(command(0xE4, &[0x25, 0x00, 0x00]));
    out.extend(command(0x21, &[]));
    out.extend(command(0x11, &[]));
    out.push(Action::DelayMs(120));
    out.extend(command(0x29, &[]));
    out
}

#[test]
fn init_vertical_script() {
    let mut driver = ST7789V2::new(true, VERTICAL, 240, 280);
    assert_eq!(driver.init(), expected_init(0x00));
}

#[test]
fn init_horizontal_script() {
    let mut driver = ST7789V2::new(false, HORIZONTAL, 280, 240);
    assert_eq!(driver.init(), expected_init(0x78));
}

#[test]
fn init_treats_an_unknown_direction_as_horizontal() {
    let mut driver = ST7789V2::new(false, 7, 280, 240);
    assert_eq!(driver.init(), expected_init(0x78));
}

#[test]
fn address_window_vertical_offsets_the_rows() {
    let driver = ready(VERTICAL, 240, 280);
    let script = driver.set_address_window(10, 20, 50, 60);
    assert_eq!(script, window((10, 49), (40, 79)));
    assert_eq!(
        writes(&script),
        vec![
            vec![0x2A],
            vec![0x00, 10],
            vec![0x00, 49],
            vec![0x2B],
            vec![0x00, 40],
            vec![0x00, 79],
            vec![0x2C],
        ]
    );
}

#[test]
fn address_window_horizontal_offsets_the_columns() {
    let driver = ready(HORIZONTAL, 280, 240);
    let script = driver.set_address_window(10, 20, 50, 60);
    assert_eq!(script, window((30, 69), (20, 59)));
}

#[test]
fn address_window_words_are_big_endian() {
    let driver = ready(VERTICAL, 240, 280);
    let script = driver.set_address_window(0x0102, 0x0304, 0x0506, 0x0708);
    assert_eq!(
        writes(&script),
        vec![
            vec![0x2A],
            vec![0x01, 0x02],
            vec![0x05, 0x05],
            vec![0x2B],
            vec![0x03, 0x18],
            vec![0x07, 0x1B],
            vec![0x2C],
        ]
    );
}

#[test]
fn address_window_at_the_limit_of_the_offset_axis() {
    let driver = ready(VERTICAL, 240, 280);
    assert!(driver.window_fits(0, 0, 0xFFFF, 0xFFFF - 20));
    assert!(!driver.window_fits(0, 0, 0xFFFF, 0xFFFF - 19));
    let script = driver.set_address_window(0xFFFE, 0xFFFF - 21, 0xFFFF, 0xFFFF - 20);
    assert_eq!(script, window((0xFFFE, 0xFFFE), (0xFFFE, 0xFFFE)));
    let sideways = ready(HORIZONTAL, 280, 240);
    assert!(sideways.window_fits(0, 0, 0xFFFF - 20, 0xFFFF));
    assert!(!sideways.window_fits(0, 0, 0xFFFF - 19, 0xFFFF));
}

#[test]
fn empty_windows_do_not_fit() {
    let driver = ready(VERTICAL, 240, 280);
    assert!(!driver.window_fits(5, 5, 5, 9));
    assert!(!driver.window_fits(5, 5, 9, 5));
    assert!(!driver.window_fits(9, 5, 5, 9));
    assert!(driver.window_fits(5, 5, 6, 6));
}

#[test]
fn write_pixel_sets_a_window_of_one_pixel_and_sends_the_color() {
    let driver = ready(VERTICAL, 240, 280);
    let mut expected = window((7, 7), (29, 29));
    expected.extend(begin_pixels());
    expected.extend(data(&[0xF8, 0x1F]));
    assert_eq!(driver.write_pixel(7, 9, 0xF81F), expected);
}

#[test]
fn write_pixel_at_the_origin() {
    let driver = ready(HORIZONTAL, 280, 240);
    let mut expected = window((20, 20), (0, 0));
    expected.extend(begin_pixels());
    expected.extend(data(&[0x00, 0x01]));
    assert_eq!(driver.write_pixel(0, 0, 0x0001), expected);
}

#[test]
fn clear_screen_streams_the_color_in_chunks_of_1024_bytes() {
    let driver = ready(VERTICAL, 240, 240);
    assert!(driver.screen_fits());
    let script = driver.clear_screen(0x12AB);
    let mut expected = window((0, 239), (20, 259));
    expected.extend(begin_pixels());
    let full: Vec<u8> = (0..512).flat_map(|_| [0x12u8, 0xAB]).collect();
    for _ in 0..112 {
        expected.extend(data(&full));
    }
    expected.extend(data(&full[..512]));
    assert_eq!(script, expected);
    let sent: usize = writes(&script)[8..].iter().map(|w| w.len()).sum();
    assert_eq!(sent, 240 * 240 * 2);
}

#[test]
fn clear_screen_that_divides_evenly_has_no_short_transfer() {
    let driver = ready(VERTICAL, 32, 32);
    let script = driver.clear_screen(0xFFFF);
    let mut expected = window((0, 31), (20, 51));
    expected.extend(begin_pixels());
    expected.extend(data(&[0xFF; 1024]));
    expected.extend(data(&[0xFF; 1024]));
    assert_eq!(script, expected);
}

#[test]
fn clear_screen_smaller_than_one_chunk() {
    let driver = ready(HORIZONTAL, 3, 1);
    let script = driver.clear_screen(0x0102);
    let mut expected = window((20, 22), (0, 0));
    expected.extend(begin_pixels());
    expected.extend(data(&[1, 2, 1, 2, 1, 2]));
    assert_eq!(script, expected);
}

#[test]
fn screens_that_cannot_be_addressed() {
    assert!(!ST7789V2::new(true, VERTICAL, 0, 10).screen_fits());
    assert!(!ST7789V2::new(true, VERTICAL, 10, 0).screen_fits());
    assert!(!ST7789V2::new(true, VERTICAL, 0x1_0000, 10).screen_fits());
    assert!(!ST7789V2::new(true, VERTICAL, 10, 0xFFFF - 19).screen_fits());
    assert!(ST7789V2::new(true, VERTICAL, 0xFFFF, 0xFFFF - 20).screen_fits());
    assert!(!ST7789V2::new(true, HORIZONTAL, 0xFFFF - 19, 10).screen_fits());
    assert!(ST7789V2::new(true, HORIZONTAL, 0xFFFF - 20, 0xFFFF).screen_fits());
    assert!(ST7789V2::new(true, VERTICAL, 0, 10).is_addressable());
}

#[test]
fn draw_image_streams_in_chunks_of_32_bytes() {
    let driver = ready(VERTICAL, 5, 4);
    let image = numbered(40);
    let script = driver.draw_image(&image);
    let mut expected = window((0, 4), (20, 23));
    expected.extend(begin_pixels());
    expected.extend(data(&image[..32]));
    expected.extend(data(&image[32..]));
    assert_eq!(script, expected);
}

#[test]
fn draw_image_of_nothing_sends_only_the_window() {
    let driver = ready(VERTICAL, 5, 4);
    let mut expected = window((0, 4), (20, 23));
    expected.extend(begin_pixels());
    assert_eq!(driver.draw_image(&[]), expected);
}

#[test]
fn show_sends_the_fixed_window_and_the_buffer_as_one_transfer() {
    let driver = ready(VERTICAL, 240, 240);
    let buffer = numbered(1000);
    let mut expected = command(0x2A, &[]);
    expected.extend(data(&[0x00, 0x00, 0x00, 0xEF]));
    expected.extend(command(0x2B, &[]));
    expected.extend(data(&[0x00, 0x00, 0x00, 0xEF]));
    expected.extend(command(0x2C, &[]));
    expected.extend(data(&buffer));
    assert_eq!(driver.show(&buffer), expected);
}

#[test]
fn show_region_streams_the_rows_of_the_rectangle() {
    let driver = ready(VERTICAL, 4, 3);
    let buffer = numbered(4 * 3 * 2);
    let script = driver.show_region(&buffer, 1, 1, 2, 2);
    let mut expected = window((1, 2), (21, 22));
    expected.extend(begin_pixels());
    expected.extend(data(&buffer[10..14]));
    expected.extend(data(&buffer[18..22]));
    assert_eq!(script, expected);
}

#[test]
fn show_region_cuts_long_rows_into_chunks_of_32_bytes() {
    let driver = ready(HORIZONTAL, 30, 2);
    let buffer = numbered(30 * 2 * 2);
    let script = driver.show_region(&buffer, 5, 0, 20, 2);
    let mut expected = window((25, 44), (0, 1));
    expected.extend(begin_pixels());
    expected.extend(data(&buffer[10..42]));
    expected.extend(data(&buffer[42..50]));
    expected.extend(data(&buffer[70..102]));
    expected.extend(data(&buffer[102..110]));
    assert_eq!(script, expected);
}

#[test]
fn show_region_of_one_pixel_matches_the_window_of_write_pixel() {
    let driver = ready(VERTICAL, 4, 3);
    let buffer = numbered(24);
    let script = driver.show_region(&buffer, 3, 2, 1, 1);
    let mut expected = window((3, 3), (22, 22));
    expected.extend(begin_pixels());
    expected.extend(data(&buffer[22..24]));
    assert_eq!(script, expected);
}

#[test]
fn regions_that_can_and_cannot_be_shown() {
    let driver = ready(VERTICAL, 4, 3);
    assert!(driver.can_show_region(24, 0, 0, 4, 3));
    assert!(driver.can_show_region(24, 3, 2, 1, 1));
    assert!(!driver.can_show_region(23, 3, 2, 1, 1));
    assert!(!driver.can_show_region(24, 0, 0, 0, 3));
    assert!(!driver.can_show_region(24, 0, 0, 4, 0));
    assert!(!driver.can_show_region(24, 0, 0, 4, 4));
    assert!(!driver.can_show_region(24, 0, 0, 0xFFFF_FFFF, 1));
    assert!(!driver.can_show_region(24, 0, 0, 1, 0xFFFF_FFFF));
    assert!(!driver.can_show_region(usize::MAX, 0xFFFF, 0, 1, 1));
    assert!(!driver.can_show_region(usize::MAX, 0, 0xFFFF - 20, 1, 1));
    assert!(driver.can_show_region(usize::MAX, 0, 0xFFFF - 21, 1, 1));
}

#[test]
fn new_driver_has_ten_empty_slots() {
    let driver = ST7789V2::new(true, VERTICAL, 240, 280);
    assert_eq!(CAPACITY, 10);
    assert_eq!(driver.get_regions(), &[None; 10][..]);
    assert_eq!(driver.size(), (240, 280));
}

#[test]
fn default_region_is_the_zero_rectangle() {
    assert_eq!(Region::default(), region(0, 0, 0, 0));
    assert!(!Region::default().is_nonempty());
    assert!(region(0, 0, 1, 1).is_nonempty());
}

#[test]
fn tracker_takes_ten_regions_and_refuses_the_eleventh() {
    let mut driver = ST7789V2::new(true, VERTICAL, 240, 280);
    let mut expected = Vec::new();
    for i in 0..10u16 {
        let r = region(i, 2 * i, 1 + i as u32, 3);
        assert_eq!(driver.store_region(r), Ok(()));
        expected.push(Some(r));
    }
    assert_eq!(driver.get_regions(), &expected[..]);
    assert_eq!(driver.store_region(region(99, 99, 9, 9)), Err(StoreError::CapacityError));
    assert_eq!(driver.get_regions(), &expected[..]);
    assert_eq!(
        driver.store_region_from_params(1, 1, 1, 1),
        Err(StoreError::CapacityError)
    );
    assert_eq!(driver.get_regions(), &expected[..]);
}

#[test]
fn duplicates_are_stored_as_distinct_entries() {
    let mut driver = ST7789V2::new(true, VERTICAL, 240, 280);
    let r = region(1, 2, 3, 4);
    assert_eq!(driver.store_region(r), Ok(()));
    assert_eq!(driver.store_region(r), Ok(()));
    let slots = driver.get_regions();
    assert_eq!(slots[0], Some(r));
    assert_eq!(slots[1], Some(r));
    assert_eq!(slots[2], None);
}

#[test]
fn region_without_width_is_rejected() {
    let mut driver = ST7789V2::new(true, VERTICAL, 240, 280);
    assert_eq!(driver.store_region(region(0, 0, 0, 5)), Err(StoreError::EmptyRegion));
    assert_eq!(driver.get_regions(), &[None; 10][..]);
}

#[test]
fn region_without_height_is_rejected() {
    let mut driver = ST7789V2::new(true, VERTICAL, 240, 280);
    assert_eq!(driver.store_region_from_params(3, 4, 5, 0), Err(StoreError::EmptyRegion));
    assert_eq!(driver.get_regions(), &[None; 10][..]);
}

#[test]
fn empty_region_is_rejected_before_capacity_is_looked_at() {
    let mut driver = ST7789V2::new(true, VERTICAL, 240, 280);
    for _ in 0..10 {
        assert_eq!(driver.store_region(region(0, 0, 1, 1)), Ok(()));
    }
    assert_eq!(driver.store_region(region(0, 0, 0, 0)), Err(StoreError::EmptyRegion));
}

#[test]
fn store_region_from_params_stores_the_region() {
    let mut driver = ST7789V2::new(true, VERTICAL, 240, 280);
    assert_eq!(driver.store_region_from_params(5, 6, 7, 8), Ok(()));
    assert_eq!(driver.get_regions()[0], Some(region(5, 6, 7, 8)));
}

#[test]
fn clear_regions_empties_every_slot_and_makes_room() {
    let mut driver = ST7789V2::new(true, VERTICAL, 240, 280);
    for _ in 0..10 {
        assert_eq!(driver.store_region(region(1, 1, 1, 1)), Ok(()));
    }
    driver.clear_regions();
    assert_eq!(driver.get_regions(), &[None; 10][..]);
    assert_eq!(driver.store_region(region(2, 2, 2, 2)), Ok(()));
    assert_eq!(driver.get_regions()[0], Some(region(2, 2, 2, 2)));
}

#[test]
fn show_regions_on_an_empty_tracker_sends_nothing() {
    let mut driver = ready(VERTICAL, 240, 240);
    let buffer = vec![0u8; 240 * 240 * 2];
    assert!(driver.can_show_regions(buffer.len()));
    let script = driver.show_regions(&buffer);
    assert!(script.is_empty());
    assert_eq!(driver.show_regions_and_clear(Ok(())), Ok(()));
    assert_eq!(driver.get_regions(), &[None; 10][..]);
}

#[test]
fn show_regions_flushes_each_region_on_its_own_in_slot_order() {
    let mut driver = ready(VERTICAL, 8, 8);
    let buffer = numbered(8 * 8 * 2);
    let first = region(0, 0, 2, 2);
    let second = region(1, 1, 3, 1);
    assert_eq!(driver.store_region(first), Ok(()));
    assert_eq!(driver.store_region(second), Ok(()));
    assert_eq!(driver.store_region(first), Ok(()));
    assert!(driver.can_show_regions(buffer.len()));
    let mut expected = driver.show_region(&buffer, 0, 0, 2, 2);
    expected.extend(driver.show_region(&buffer, 1, 1, 3, 1));
    expected.extend(driver.show_region(&buffer, 0, 0, 2, 2));
    assert_eq!(driver.show_regions(&buffer), expected);
    assert_eq!(driver.get_regions()[0], Some(first));
}

#[test]
fn regions_outside_the_buffer_cannot_be_shown() {
    let mut driver = ready(VERTICAL, 8, 8);
    assert_eq!(driver.store_region(region(0, 0, 2, 2)), Ok(()));
    assert_eq!(driver.store_region(region(7, 7, 2, 1)), Ok(()));
    assert!(!driver.can_show_regions(8 * 8 * 2));
    assert!(driver.can_show_regions(8 * 8 * 2 + 2));
}

#[test]
fn successful_flush_clears_the_tracker() {
    let mut driver = ready(VERTICAL, 8, 8);
    assert_eq!(driver.store_region(region(0, 0, 2, 2)), Ok(()));
    assert_eq!(driver.show_regions_and_clear(Ok(())), Ok(()));
    assert_eq!(driver.get_regions(), &[None; 10][..]);
}

#[test]
fn failed_flush_leaves_the_tracker_unmodified() {
    let mut driver = ready(VERTICAL, 8, 8);
    let buffer = numbered(8 * 8 * 2);
    assert_eq!(driver.store_region(region(0, 0, 2, 2)), Ok(()));
    assert_eq!(driver.store_region(region(4, 4, 1, 1)), Ok(()));
    let before = driver.get_regions().to_vec();
    let script = driver.show_regions(&buffer);
    assert_eq!(driver.show_regions_and_clear(Err(ProtocolError)), Err(ProtocolError));
    assert_eq!(driver.get_regions(), &before[..]);
    assert_eq!(driver.show_regions(&buffer), script);
}

#[test]
fn draw_iter_writes_each_pixel_on_the_screen_and_drops_the_others() {
    let driver = ready(VERTICAL, 4, 3);
    let pixels = [
        change(0, 0, 0x1111),
        change(4, 0, 0x2222),
        change(3, 2, 0x3333),
        change(-1, 2, 0x4444),
        change(0, 3, 0x5555),
        change(2, -7, 0x6666),
    ];
    let mut expected = driver.write_pixel(0, 0, 0x1111);
    expected.extend(driver.write_pixel(3, 2, 0x3333));
    assert_eq!(driver.draw_iter(&pixels), expected);
    assert!(driver.draw_iter(&[]).is_empty());
}

#[test]
fn a_run_performs_every_action_once_in_order() {
    assert_eq!(advance(3, 0, Ok(())), Progress::Perform(0));
    assert_eq!(advance(3, 1, Ok(())), Progress::Perform(1));
    assert_eq!(advance(3, 2, Ok(())), Progress::Perform(2));
    assert_eq!(advance(3, 3, Ok(())), Progress::Finished);
    assert_eq!(advance(0, 0, Ok(())), Progress::Finished);
}

#[test]
fn a_run_stops_at_the_first_failure() {
    assert_eq!(advance(3, 1, Err(ProtocolError)), Progress::Failed(ProtocolError));
    assert_eq!(advance(3, 3, Err(ProtocolError)), Progress::Failed(ProtocolError));
    assert_eq!(advance(0, 0, Err(ProtocolError)), Progress::Failed(ProtocolError));
}

/// Runs a script on a transport that fails at its `fail_at`-th request, and
/// returns the requests that reached it.
fn run_failing(script: &[Action], fail_at: usize) -> (Vec<Action>, Result<(), ProtocolError>) {
    let mut seen = Vec::new();
    let mut performed = 0;
    let mut outcome = Ok(());
    loop {
        match advance(script.len(), performed, outcome) {
            Progress::Perform(index) => {
                seen.push(script[index].clone());
                outcome = if seen.len() == fail_at { Err(ProtocolError) } else { Ok(()) };
                performed = index + 1;
            }
            Progress::Finished => return (seen, Ok(())),
            Progress::Failed(error) => return (seen, Err(error)),
        }
    }
}

#[test]
fn a_failed_flush_stops_halfway_and_keeps_the_regions() {
    let mut driver = ready(VERTICAL, 8, 8);
    let buffer = numbered(8 * 8 * 2);
    assert_eq!(driver.store_region(region(0, 0, 2, 2)), Ok(()));
    assert_eq!(driver.store_region(region(4, 4, 1, 1)), Ok(()));
    let script = driver.show_regions(&buffer);
    let (seen, outcome) = run_failing(&script, 10);
    assert_eq!(seen, script[..10].to_vec());
    assert_eq!(driver.show_regions_and_clear(outcome), Err(ProtocolError));
    assert_eq!(driver.get_regions()[0], Some(region(0, 0, 2, 2)));
    assert_eq!(driver.get_regions()[1], Some(region(4, 4, 1, 1)));
    let (again, outcome) = run_failing(&script, usize::MAX);
    assert_eq!(again, script);
    assert_eq!(driver.show_regions_and_clear(outcome), Ok(()));
    assert_eq!(driver.get_regions(), &[None; 10][..]);
}

#[test]
fn an_empty_flush_makes_no_request_of_the_transport() {
    let mut driver = ready(HORIZONTAL, 280, 240);
    let buffer = vec![0u8; 280 * 240 * 2];
    let script = driver.show_regions(&buffer);
    let (seen, outcome) = run_failing(&script, 1);
    assert!(seen.is_empty());
    assert_eq!(driver.show_regions_and_clear(outcome), Ok(()));
    assert_eq!(driver.get_regions(), &[None; 10][..]);
}

#[test]
fn pixels_that_can_and_cannot_be_written() {
    let driver = ready(VERTICAL, 240, 280);
    assert!(driver.can_write_pixel(0, 0));
    assert!(driver.can_write_pixel(0xFFFE, 0xFFFF - 21));
    assert!(!driver.can_write_pixel(0xFFFF, 0));
    assert!(!driver.can_write_pixel(0, 0xFFFF - 20));
    let sideways = ready(HORIZONTAL, 280, 240);
    assert!(sideways.can_write_pixel(0xFFFF - 21, 0xFFFE));
    assert!(!sideways.can_write_pixel(0xFFFF - 20, 0));
    assert!(!sideways.can_write_pixel(0, 0xFFFF));
}

#[test]
fn a_cloned_action_asks_the_same() {
    let action = Action::Write(vec![1, 2, 3]);
    assert_eq!(action.clone(), action);
    assert_eq!(Action::DelayMs(7).clone(), Action::DelayMs(7));
    assert_eq!(Action::SetLow(Line::Reset).clone(), Action::SetLow(Line::Reset));
}
