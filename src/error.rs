//! Errors reported by the codec and the machine.

use vstd::prelude::*;

verus! {

/// What can go wrong while decoding or running a program.
#[derive(Debug, Clone, PartialEq, Eq)]
pub enum Chip8Error {
    /// The word at the program counter is no known instruction.
    InvalidOpcode(u16),
    /// A `0NNN` machine-code routine call, which this machine does not run.
    MachineCallUnsupported(u16),
    /// A subroutine call with all sixteen stack slots in use.
    StackOverflow,
    /// A return with no active call frame.
    StackUnderflow,
    /// An instruction needed memory at or past the end of the 4 KiB address
    /// space; carries the highest address it needed.
    AddressOutOfRange(u32),
    /// No program of the given name could be supplied.
    RomNotFound(String),
    /// A program of the given size does not fit between `0x200` and the end of memory.
    RomTooLarge(usize),
    /// A keyboard character outside the sixteen-key layout.
    UnsupportedKey(char),
    /// A textual opcode that is not a string of hexadecimal digit pairs.
    InvalidHex,
    /// A textual opcode that decodes to some byte count other than two.
    WrongByteCount(usize),
}

} // verus!
