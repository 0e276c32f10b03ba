use vstd::prelude::*;

verus! {

/// The fatal conditions that stop an emulated program.
#[derive(Clone, Copy, Debug, PartialEq, Eq, Structural)]
pub enum EmuError {
    /// The program does not fit between the load address and the end of memory.
    ProgramTooLarge,
    /// The opcode encodes no instruction of the set.
    UnknownOpcode(u16),
    /// An instruction would read or write past the end of memory.
    MemoryOutOfRange,
    /// A key index is 16 or more.
    KeyOutOfRange,
    /// A call with the stack already full.
    StackOverflow,
    /// A return with nothing on the stack.
    StackUnderflow,
}

} // verus!
