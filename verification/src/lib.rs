//! Planning driver for an SPI colour display with a windowed partial-update
//! engine: a tracker of dirty regions, a frame buffer that can be diffed
//! against another, and the address-window protocol of the controller.
//!
//! Nothing here touches hardware. Every operation of the driver returns the
//! list of transport requests that carries it out; the owner of the bus and
//! the pins performs them.

use vstd::prelude::*;

pub mod bus;
pub mod color;
pub mod driver;
pub mod framebuffer;
pub mod instruction;
pub mod pixel;
pub mod region;
pub mod transfer;

verus! {

/// Scan direction in which the long edge of the panel is horizontal.
pub const HORIZONTAL: u16 = 0;

/// Scan direction in which the long edge of the panel is vertical.
pub const VERTICAL: u16 = 1;

} // verus!
