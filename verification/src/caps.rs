//! Capability surfaces the execution engine drives.

use vstd::prelude::*;

verus! {

/// Graphics abstraction for the machine.
///
/// Clients implement this trait in accordance with the graphics library used.
/// The engine calls it only for coordinates inside the 64x32 display, and
/// calls it exactly once for every framebuffer bit it flips.
pub trait Graphics {
    /// Clears/turns off the pixel at the given coordinate.
    fn clear_pixel(&mut self, x: usize, y: usize)
        requires
            x < crate::TERMINAL_WIDTH,
            y < crate::TERMINAL_HEIGHT,
    ;

    /// Draws/turns on the pixel at the given coordinate.
    fn draw_pixel(&mut self, x: usize, y: usize)
        requires
            x < crate::TERMINAL_WIDTH,
            y < crate::TERMINAL_HEIGHT,
    ;
}

/// Audio abstraction for the machine.
///
/// Clients implement this trait in accordance with the sound library used.
/// The engine calls each method only on the edge where the beep state
/// actually changes, never redundantly.
pub trait Audio {
    /// Starts the beep sound.
    fn start_beep(&mut self);

    /// Stops the beep sound.
    fn stop_beep(&mut self);
}

} // verus!
