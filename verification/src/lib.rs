//! A CHIP-8 style interpreter: a bounded call stack, a monochrome
//! framebuffer and the engine that fetches, decodes and executes opcodes.

use vstd::prelude::*;

pub mod collections;
pub mod instruction;
pub mod memory;
pub mod screen;
pub mod sprite;

verus! {

/// Pixels in a framebuffer row.
pub const WIDTH: usize = 64;

/// Rows of the framebuffer.
pub const HEIGHT: usize = 32;

/// Side of the square that presents one pixel, in units of the display surface.
pub const SCALE: usize = 16;

} // verus!
