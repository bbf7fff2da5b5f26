use vstd::prelude::*;

verus! {

/// The ways in which an operation on the machine can fail.
#[derive(Debug, Clone, Copy, PartialEq, Eq, Structural)]
pub enum Error {
    /// The bytes to load do not fit between the load origin and the end of memory.
    RomTooLarge,
    /// A return was executed while the call stack was empty.
    StackUnderflow,
    /// A call was executed while the call stack was at its configured limit.
    StackOverflow,
    /// The instruction word matches no known instruction.
    UnimplementedOpcode(u16),
    /// A key index outside `0..16` was used.
    InvalidKeyIndex,
    /// An instruction computed an address outside the 4096 bytes of memory.
    MemoryOutOfBounds,
}

} // verus!
