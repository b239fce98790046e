use vstd::prelude::*;

verus! {

/// The faults that stop interpretation, surfaced to the host.
#[derive(Debug, Clone, Copy, PartialEq, Eq)]
pub enum Error {
    /// An instruction word whose bit pattern names no operation.
    UnknownOpcode(u16),
    /// A ROM that does not fit between the load address and the top of memory.
    RomTooLarge,
    /// A subroutine call with all sixteen stack slots in use.
    StackOverflow,
    /// A return with no return address on the stack.
    StackUnderflow,
}

} // verus!
