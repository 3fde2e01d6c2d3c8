//! A verified CHIP-8 virtual machine core: 4KB memory, 16 registers, a
//! 16-level call stack, two countdown timers, a 64x32 monochrome
//! framebuffer and a 16-key pad, driven by `tick` (one fetch-decode-execute
//! cycle) and `tick_timers` (one timer countdown step).

use vstd::prelude::*;

pub mod emulator;
pub mod laws;
pub mod model;
pub mod ops;
mod rng;

pub use emulator::Emulator;
pub use model::{EmuError, RunMode};

verus! {

/// Width of the framebuffer in pixels.
pub const SCREEN_WIDTH: usize = 64;

/// Height of the framebuffer in pixels.
pub const SCREEN_HEIGHT: usize = 32;

} // verus!
