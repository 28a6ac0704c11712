use embedded_graphics::pixelcolor::raw::RawU16;
use embedded_graphics::pixelcolor::IntoStorage;
use embedded_graphics::pixelcolor::Rgb565;
use st7789v2_driver::framebuffer::FrameBuffer;
use st7789v2_driver::pixel::{word_bytes, word_from_bytes, PixelChange};
use st7789v2_driver::region::Region;

fn color(raw: u16) -> Rgb565 {
    Rgb565::from(RawU16::new(raw))
}

fn change(x: i32, y: i32, raw: u16) -> PixelChange {
    PixelChange { x, y, color: color(raw) }
}

fn blank(width: u32, height: u32) -> FrameBuffer {
    FrameBuffer::new(vec![0u8; (width * height * 2) as usize], width, height)
}

/// A frame whose byte at offset `i` is `seed + i`, wrapping.
fn numbered(width: u32, height: u32, seed: u8) -> FrameBuffer {
    let len = (width * height * 2) as usize;
    let bytes: Vec<u8> = (0..len).map(|i| seed.wrapping_add(i as u8)).collect();
    FrameBuffer::new(bytes, width, height)
}

#[test]
fn word_bytes_are_big_endian() {
    assert_eq!(word_bytes(0x12AB), [0x12, 0xAB]);
    assert_eq!(word_bytes(0x00FF), [0x00, 0xFF]);
    assert_eq!(word_bytes(0xFF00), [0xFF, 0x00]);
    assert_eq!(word_from_bytes(0x12, 0xAB), 0x12AB);
    assert_eq!(word_from_bytes(0xFF, 0xFF), 0xFFFF);
}

#[test]
fn new_keeps_buffer_and_size() {
    let frame = FrameBuffer::new(vec![1, 2, 3, 4], 2, 1);
    assert_eq!(frame.get_buffer(), &[1, 2, 3, 4][..]);
    assert_eq!(frame.width(), 2);
    assert_eq!(frame.height(), 1);
    assert_eq!(frame.size(), (2, 1));
    assert_eq!(frame.into_buffer(), vec![1, 2, 3, 4]);
}

#[test]
fn clear_writes_big_endian_color_to_every_slot() {
    let mut frame = blank(2, 3);
    frame.clear(color(0x12AB));
    assert_eq!(
        frame.get_buffer(),
        &[0x12, 0xAB, 0x12, 0xAB, 0x12, 0xAB, 0x12, 0xAB, 0x12, 0xAB, 0x12, 0xAB][..]
    );
}

#[test]
fn clear_uses_the_packed_value_of_the_color() {
    let mut frame = blank(1, 1);
    frame.clear(Rgb565::new(0x1f, 0x00, 0x0a));
    assert_eq!(frame.get_buffer(), &[0xF8, 0x0A][..]);
}

#[test]
fn fill_on_an_empty_frame_does_nothing() {
    let mut frame = blank(0, 7);
    frame.fill(0xFFFF);
    assert_eq!(frame.get_buffer().len(), 0);
}

#[test]
fn set_pixel_writes_two_bytes_at_row_major_offset() {
    let mut frame = blank(3, 2);
    frame.set_pixel(2, 1, 0xBEEF);
    let mut expected = vec![0u8; 12];
    expected[10] = 0xBE;
    expected[11] = 0xEF;
    assert_eq!(frame.get_buffer(), &expected[..]);
}

#[test]
fn set_pixel_outside_the_frame_is_dropped() {
    let mut frame = blank(3, 2);
    frame.set_pixel(-1, 0, 0xFFFF);
    frame.set_pixel(0, -1, 0xFFFF);
    frame.set_pixel(3, 0, 0xFFFF);
    frame.set_pixel(0, 2, 0xFFFF);
    frame.set_pixel(i32::MAX, i32::MAX, 0xFFFF);
    frame.set_pixel(i32::MIN, i32::MIN, 0xFFFF);
    assert_eq!(frame.get_buffer(), &[0u8; 12][..]);
}

#[test]
fn draw_iter_draws_in_order_and_filters_bounds() {
    let mut frame = blank(2, 2);
    let pixels = [
        change(0, 0, 0x1111),
        change(5, 5, 0x2222),
        change(1, 1, 0x3333),
        change(0, 0, 0x4444),
        change(-1, 1, 0x5555),
    ];
    frame.draw_iter(&pixels);
    assert_eq!(frame.get_buffer(), &[0x44, 0x44, 0, 0, 0, 0, 0x33, 0x33][..]);
}

#[test]
fn diff_of_a_buffer_with_its_copy_is_empty() {
    let a = numbered(5, 4, 3);
    let b = FrameBuffer::new(a.get_buffer().to_vec(), 5, 4);
    assert!(a.diff_with(&b).is_empty());
    assert!(b.diff_with(&a).is_empty());
}

#[test]
fn diff_reports_coordinates_from_the_linear_index() {
    let a = blank(3, 3);
    let mut b = blank(3, 3);
    b.set_pixel(1, 0, 0x0102);
    b.set_pixel(0, 2, 0x0304);
    b.set_pixel(2, 2, 0x0506);
    let changes = a.diff_with(&b);
    assert_eq!(
        changes,
        vec![change(1, 0, 0x0102), change(0, 2, 0x0304), change(2, 2, 0x0506)]
    );
}

#[test]
fn diff_sees_a_change_in_either_byte_of_a_slot() {
    let a = FrameBuffer::new(vec![0x10, 0x20, 0x30, 0x40, 0x50, 0x60], 3, 1);
    let b = FrameBuffer::new(vec![0x11, 0x20, 0x30, 0x40, 0x50, 0x61], 3, 1);
    let changes = a.diff_with(&b);
    assert_eq!(changes, vec![change(0, 0, 0x1120), change(2, 0, 0x5061)]);
}

#[test]
fn diff_carries_the_color_of_the_other_buffer() {
    let mut a = blank(2, 1);
    a.fill(0xAAAA);
    let mut b = blank(2, 1);
    b.fill(0xBBBB);
    let forward = a.diff_with(&b);
    assert_eq!(forward.len(), 2);
    assert_eq!(forward[0].color.into_storage(), 0xBBBB);
    let backward = b.diff_with(&a);
    assert_eq!(backward[1].color.into_storage(), 0xAAAA);
}

#[test]
fn applying_a_diff_reproduces_the_other_buffer() {
    let a = numbered(7, 5, 1);
    let mut b = numbered(7, 5, 1);
    b.set_pixel(0, 0, 0xFFFF);
    b.set_pixel(6, 4, 0x1234);
    b.set_pixel(3, 2, 0x0001);
    b.set_pixel(4, 2, 0x8000);
    let changes = a.diff_with(&b);
    let mut copy = FrameBuffer::new(a.get_buffer().to_vec(), 7, 5);
    copy.draw_iter(&changes);
    assert_eq!(copy.get_buffer(), b.get_buffer());
}

#[test]
fn applying_a_diff_between_unrelated_buffers_reproduces_the_other() {
    let a = numbered(4, 4, 0);
    let b = numbered(4, 4, 77);
    let changes = a.diff_with(&b);
    assert_eq!(changes.len(), 16);
    let mut copy = FrameBuffer::new(a.get_buffer().to_vec(), 4, 4);
    copy.draw_iter(&changes);
    assert_eq!(copy.get_buffer(), b.get_buffer());
}

#[test]
fn one_changed_pixel_on_a_cleared_240_by_240_frame() {
    let mut fresh = blank(240, 240);
    fresh.clear(color(0x0000));
    let mut drawn = blank(240, 240);
    drawn.clear(color(0x0000));
    drawn.set_pixel(10, 10, 0xFFFF);
    let changes = fresh.diff_with(&drawn);
    assert_eq!(changes, vec![change(10, 10, 0xFFFF)]);
    let back = drawn.diff_with(&fresh);
    assert_eq!(back, vec![change(10, 10, 0x0000)]);
}

#[test]
fn copy_region_moves_a_rectangle() {
    let src = numbered(4, 3, 100);
    let mut dst = blank(4, 3);
    // 2 by 2 pixels from (1, 0) to (2, 1)
    dst.copy_region(src.get_buffer(), 1, 0, 2, 2, 2, 1);
    let mut expected = vec![0u8; 24];
    // destination row 1, columns 2..4 <- source row 0, columns 1..3
    expected[12..16].copy_from_slice(&[102, 103, 104, 105]);
    // destination row 2, columns 2..4 <- source row 1, columns 1..3
    expected[20..24].copy_from_slice(&[110, 111, 112, 113]);
    assert_eq!(dst.get_buffer(), &expected[..]);
}

#[test]
fn copy_region_of_no_pixels_changes_nothing() {
    let src = numbered(4, 3, 100);
    let mut dst = blank(4, 3);
    dst.copy_region(src.get_buffer(), 0, 0, 0, 3, 0, 0);
    dst.copy_region(src.get_buffer(), 0, 0, 4, 0, 0, 0);
    assert_eq!(dst.get_buffer(), &[0u8; 24][..]);
}

#[test]
fn copy_region_of_the_whole_frame_copies_everything() {
    let src = numbered(4, 3, 9);
    let mut dst = blank(4, 3);
    dst.copy_region(src.get_buffer(), 0, 0, 4, 3, 0, 0);
    assert_eq!(dst.get_buffer(), src.get_buffer());
}

#[test]
fn copy_regions_restores_each_present_region_in_place() {
    let src = numbered(4, 4, 50);
    let mut dst = blank(4, 4);
    let regions = [
        None,
        Some(Region { x: 0, y: 0, width: 1, height: 1 }),
        None,
        Some(Region { x: 2, y: 1, width: 2, height: 2 }),
    ];
    dst.copy_regions(src.get_buffer(), &regions);
    let s = src.get_buffer();
    let mut expected = vec![0u8; 32];
    expected[0..2].copy_from_slice(&s[0..2]);
    expected[12..16].copy_from_slice(&s[12..16]);
    expected[20..24].copy_from_slice(&s[20..24]);
    assert_eq!(dst.get_buffer(), &expected[..]);
}

#[test]
fn copy_regions_with_no_region_changes_nothing() {
    let src = numbered(2, 2, 1);
    let mut dst = blank(2, 2);
    dst.copy_regions(src.get_buffer(), &[None, None, None]);
    assert_eq!(dst.get_buffer(), &[0u8; 8][..]);
    dst.copy_regions(src.get_buffer(), &[]);
    assert_eq!(dst.get_buffer(), &[0u8; 8][..]);
}

#[test]
fn copy_region_goes_by_byte_ranges_of_rows() {
    let src = numbered(4, 3, 100);
    let mut dst = blank(4, 3);
    // two pixels from column 3 on run over into the next row
    assert!(dst.can_copy_region(24, 3, 0, 2, 2, 3, 0));
    dst.copy_region(src.get_buffer(), 3, 0, 2, 2, 3, 0);
    let s = src.get_buffer();
    let mut expected = vec![0u8; 24];
    expected[6..10].copy_from_slice(&s[6..10]);
    expected[14..18].copy_from_slice(&s[14..18]);
    assert_eq!(dst.get_buffer(), &expected[..]);
}

#[test]
fn copy_region_later_rows_overwrite_earlier_ones() {
    let src = numbered(2, 4, 10);
    let mut dst = blank(2, 3);
    // rows of three pixels in a frame two pixels wide overlap by one pixel
    assert!(dst.can_copy_region(16, 0, 1, 3, 2, 0, 0));
    dst.copy_region(src.get_buffer(), 0, 1, 3, 2, 0, 0);
    let s = src.get_buffer();
    let mut expected = vec![0u8; 12];
    expected[0..4].copy_from_slice(&s[4..8]);
    expected[4..10].copy_from_slice(&s[8..14]);
    assert_eq!(dst.get_buffer(), &expected[..]);
}

#[test]
fn rectangles_that_can_and_cannot_be_copied() {
    let frame = blank(4, 3);
    assert!(frame.can_copy_region(24, 0, 0, 4, 3, 0, 0));
    assert!(frame.can_copy_region(24, 3, 2, 1, 1, 0, 0));
    assert!(!frame.can_copy_region(23, 3, 2, 1, 1, 0, 0));
    assert!(!frame.can_copy_region(24, 0, 0, 1, 1, 0, 3));
    assert!(!frame.can_copy_region(24, 0, 0, 1, 4, 0, 0));
    assert!(frame.can_copy_region(0, 0xFFFF, 0xFFFF, 0xFFFF_FFFF, 0, 0xFFFF, 0xFFFF));
    assert!(frame.can_copy_region(24, 0, 2, 0, 1, 0, 2));
    assert!(frame.can_copy_region(24, 0, 3, 0, 1, 1, 0));
    assert!(!frame.can_copy_region(24, 0, 4, 0, 1, 1, 0));
    assert!(!frame.can_copy_region(usize::MAX, 0, 0, 0xFFFF_FFFF, 0xFFFF_FFFF, 0, 0));
    let regions = [Some(Region { x: 0, y: 0, width: 4, height: 3 }), None];
    assert!(frame.can_copy_regions(24, &regions));
    assert!(!frame.can_copy_regions(22, &regions));
    assert!(frame.can_copy_regions(0, &[None]));
    assert!(!frame.can_copy_regions(
        1000,
        &[Some(Region { x: 1, y: 2, width: 4, height: 1 })]
    ));
}

#[test]
fn frames_that_can_and_cannot_be_made_or_diffed() {
    assert!(FrameBuffer::fits(24, 4, 3));
    assert!(!FrameBuffer::fits(23, 4, 3));
    assert!(!FrameBuffer::fits(25, 4, 3));
    assert!(FrameBuffer::fits(0, 0, 3));
    assert!(!FrameBuffer::fits(0, 0xFFFF_FFFF, 0xFFFF_FFFF));
    let small = blank(2, 2);
    let large = blank(4, 3);
    assert!(small.can_diff_with(&large));
    assert!(!large.can_diff_with(&small));
    assert!(small.can_diff_with(&small));
    let wide = FrameBuffer::new(Vec::new(), 0x8000_0000, 0);
    assert!(!wide.can_diff_with(&wide));
}
