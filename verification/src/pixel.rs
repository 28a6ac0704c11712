use vstd::prelude::*;
use embedded_graphics::pixelcolor::Rgb565;
use crate::color::storage_bits;

verus! {

/// The two bytes of a 16-bit word, most significant first.
pub open spec fn be_bytes(value: u16) -> Seq<u8> {
    seq![(value / 256) as u8, (value % 256) as u8]
}

/// The word that two bytes spell, the first being the most significant.
pub open spec fn be_word(high: u8, low: u8) -> u16 {
    (high as int * 256 + low as int) as u16
}

/// `len` bytes in which every pixel slot holds `raw`, big-endian: the high
/// byte at the even offsets, the low byte at the odd ones.
pub open spec fn filled(len: nat, raw: u16) -> Seq<u8> {
    Seq::new(
        len,
        |i: int|
            if i % 2 == 0 {
                (raw / 256) as u8
            } else {
                (raw % 256) as u8
            },
    )
}

/// One changed pixel: where it lies and the colour it takes.
#[derive(Clone, Copy, Debug, PartialEq, Eq)]
pub struct PixelChange {
    pub x: i32,
    pub y: i32,
    pub color: Rgb565,
}

/// The mathematical content of a [`PixelChange`]: the coordinates and the
/// packed 16-bit value of the colour.
pub struct Dot {
    pub x: int,
    pub y: int,
    pub raw: u16,
}

impl DeepView for PixelChange {
    type V = Dot;

    open spec fn deep_view(&self) -> Dot {
        Dot { x: self.x as int, y: self.y as int, raw: storage_bits(self.color) }
    }
}

/// Splits a word into its two bytes, most significant first.
pub fn word_bytes(value: u16) -> (bytes: [u8; 2])
    ensures
        bytes@ == be_bytes(value),
{
    let high: u8 = (value >> 8) as u8;
    let low: u8 = (value & 0xff) as u8;
    assert(value >> 8 == value / 256 && value & 0xff == value % 256) by (bit_vector);
    let bytes: [u8; 2] = [high, low];
    assert(bytes@ =~= be_bytes(value));
    bytes
}

/// Joins two bytes into the word they spell, the first being the most
/// significant.
pub fn word_from_bytes(high: u8, low: u8) -> (value: u16)
    ensures
        value == be_word(high, low),
        be_bytes(value) == seq![high, low],
{
    let value: u16 = (high as u16) * 256 + (low as u16);
    assert(be_bytes(value) =~= seq![high, low]);
    value
}

} // verus!
