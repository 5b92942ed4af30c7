//! A verified CHIP-8 virtual machine core.
//!
//! The crate models the classic CHIP-8 interpreter: a 4096-byte memory image,
//! sixteen 8-bit registers, a call stack, two 60 Hz timers, a 64x32 monochrome
//! framebuffer and a 16-key input latch.  Instructions are fetched from
//! memory, decoded into a closed enum and executed against the machine state;
//! every observable effect is specified against a mathematical model of that
//! state.

use vstd::prelude::*;

pub mod caps;
pub mod errors;
pub mod font;
pub mod inst;
pub mod laws;
pub mod machine;
mod rng;
pub mod step;

pub use caps::{Audio, Graphics};
pub use errors::VmError;
pub use inst::Instruction;
pub use machine::{check_coordinates, Chip8};

verus! {

/// Number of pixel columns of the display.
pub const TERMINAL_WIDTH: usize = 64;

/// Number of pixel rows of the display.
pub const TERMINAL_HEIGHT: usize = 32;

/// Ticks per second: the rate at which the host is expected to drive the
/// machine, and the rate at which the two timers count down.
pub const FPS: u64 = 60;

} // verus!
