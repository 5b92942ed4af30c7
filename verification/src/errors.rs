//! The fatal error taxonomy of the virtual machine.

use vstd::prelude::*;

verus! {

/// A fatal condition raised by the machine.
///
/// Any of these aborts the emulation: CHIP-8 programs are assumed to be
/// well-formed, so an unrecognized opcode, an out-of-range memory access or a
/// stack underflow indicates a malformed ROM and is surfaced to the host
/// rather than silently ignored.  `RomTooLarge` is reported at load time,
/// before execution begins.
#[derive(Debug, Clone, Copy, PartialEq, Eq, Structural)]
pub enum VmError {
    /// A two-byte opcode that is not in the decode table.
    UnknownOpcode,
    /// A read or write outside the 4096-byte memory, or a coordinate outside
    /// the 64x32 display.
    OutOfRangeMemory,
    /// A subroutine return with an empty call stack.
    StackUnderflow,
    /// A ROM image longer than the memory left above the program start.
    RomTooLarge,
}

} // verus!
