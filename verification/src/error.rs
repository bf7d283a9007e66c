use vstd::prelude::*;

verus! {

/// The fatal conditions a run can hit. Each variant carries the offending
/// opcode, address, or size so a caller can diagnose the failure.
#[derive(Clone, Copy, Debug, PartialEq, Eq, Structural)]
pub enum Chip8Error {
    /// A fetched word matched no instruction at either decode level.
    UnknownOpcode(u16),
    /// A subroutine call was made with the stack already at full depth.
    StackOverflow(u16),
    /// A return was executed with an empty call stack.
    StackUnderflow(u16),
    /// An instruction computed a memory address at or past the end of memory.
    AddressOutOfRange(u16),
    /// A keypad instruction or accessor named a key index of 16 or more.
    KeyOutOfRange(u8),
    /// An accessor named a register index of 16 or more.
    RegisterOutOfRange(u8),
    /// An accessor named a framebuffer cell outside the 64x32 grid.
    PixelOutOfRange(usize, usize),
    /// A program image too large to fit between 0x200 and the end of memory.
    ProgramTooLarge(usize),
}

} // verus!
