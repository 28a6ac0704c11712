use vstd::prelude::*;
use embedded_graphics::pixelcolor::raw::RawU16;
use embedded_graphics::pixelcolor::IntoStorage;
use embedded_graphics::pixelcolor::Rgb565;

verus! {

/// `embedded_graphics::pixelcolor::Rgb565`, a colour of five bits red, six
/// bits green and five bits blue. Nothing inside a value is visible here; a
/// colour is known only by its packed value, `storage_bits`.
#[verifier::external_type_specification]
#[verifier::external_body]
pub struct ExRgb565(Rgb565);

/// The packed 16-bit value of a colour: what
/// `embedded_graphics::pixelcolor::IntoStorage::into_storage` returns for
/// it.
pub uninterp spec fn storage_bits(color: Rgb565) -> u16;

/// Calls `IntoStorage::into_storage` on the colour. Not proved: that the
/// result is the colour's packed value, which is what `storage_bits` names.
#[verifier::external_body]
pub(crate) fn raw_of(color: Rgb565) -> (raw: u16)
    ensures
        raw == storage_bits(color),
{
    color.into_storage()
}

/// Calls `Rgb565::from` on `RawU16::new(raw)`. Not proved: that the colour
/// made this way has `raw` as its packed value. `RawU16::new` keeps all
/// sixteen bits, and `Rgb565::from` masks with the three channel masks,
/// which together cover all sixteen.
#[verifier::external_body]
pub(crate) fn color_of(raw: u16) -> (color: Rgb565)
    ensures
        storage_bits(color) == raw,
{
    Rgb565::from(RawU16::new(raw))
}

} // verus!
