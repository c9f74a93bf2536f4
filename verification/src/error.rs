//! The fatal conditions that the machine reports to its host.

use vstd::prelude::*;

verus! {

/// A fatal condition.  All of these signal a malformed program or host
/// misuse; none is retried internally, and the machine never continues with
/// partial state: an operation that fails leaves the state as it was.
#[derive(Clone, Copy, Debug, PartialEq, Eq, Structural)]
pub enum VmError {
    /// A memory access (instruction fetch, or an indirect load or store
    /// through the index register) fell beyond the end of memory.
    MemOutOfBounds,
    /// A subroutine call was made with the call stack already full.
    StackOverflow,
    /// A return was executed with the call stack empty.
    StackUnderflow,
    /// The fetched instruction word matches no known pattern; carries the
    /// offending word and the address it was fetched from.
    UnknownOpcode { op: u16, pc: u16 },
    /// A key index at or beyond the number of keys was supplied.
    InvalidKey,
}

} // verus!
