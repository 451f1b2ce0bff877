//! An interpreter for the CHIP-8 instruction set: sixteen 8-bit registers,
//! 4 KiB of memory, a 64x32 one-bit display, a call stack and two timers.

pub mod font;
pub mod machine;
pub mod cpu;
pub mod rom_loader;
pub mod laws;

use vstd::prelude::*;

verus! {

/// Display width in pixels.
pub const WIDTH: usize = 64;

/// Display height in pixels.
pub const HEIGHT: usize = 32;

/// Number of display pixels, stored row-major.
pub const PIXELS: usize = 2048;

/// Size of the addressable memory in bytes.
pub const RAM_SIZE: usize = 4096;

/// Number of general registers V0..VF.
pub const REGISTER_COUNT: usize = 16;

/// Depth of the call stack.
pub const STACK_SIZE: usize = 16;

/// Number of logical keys 0x0..0xF.
pub const KEYPAD_SIZE: usize = 16;

/// Address at which programs are loaded and execution starts.
pub const INITIAL_PC: u16 = 0x200;

/// Largest program image that fits between the load address and the end of memory.
pub const ROM_SIZE: usize = 3584;

} // verus!
