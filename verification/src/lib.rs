//! A verified interpreter for a small, fixed 8-bit instruction set: sixteen
//! 8-bit registers, 4KB of byte-addressable memory, a 64 by 32 monochrome
//! framebuffer with XOR sprite drawing, a 16-key input snapshot and an
//! 8-bit countdown timer.  Each machine step fetches one two-byte
//! instruction, decodes it, mutates machine state and advances the program
//! counter; the step's entire effect is pinned down by `cpu::step_spec`.
//! The host drives timing, rendering and input from outside.

use vstd::prelude::*;

pub mod bus;
pub mod chip8;
pub mod cpu;
pub mod display;
pub mod keyboard;
pub mod ram;

verus! {

/// Fatal, unrecoverable conditions of a machine step: a malformed guest
/// program or a host misuse.  There is no safe way to continue after one.
#[derive(Clone, Copy, Debug, PartialEq, Eq, Structural)]
pub enum Chip8Error {
    /// The operation group or sub-field of this instruction word is not part
    /// of the instruction set.
    UnknownOpcode(u16),
    /// A decoded address reached past the end of memory; the payload is the
    /// first out-of-range address of the attempted access.
    MemoryOutOfBounds(u16),
    /// A return instruction ran while the call stack was empty.
    StackUnderflow,
}

} // verus!
