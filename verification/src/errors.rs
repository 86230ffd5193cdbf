use vstd::prelude::*;

verus! {

/// Failures that the virtual machine reports to its driver instead of
/// panicking: every fallible operation of the core returns one of these.
#[derive(Clone, Copy, Debug, PartialEq, Eq, Structural)]
pub enum VmError {
    /// A memory access touched an address outside `0..4096`, or a block
    /// request would run past the end of memory.
    OutOfRange,
    /// A general-purpose register index outside `0..=15` was used.
    InvalidRegister,
    /// A return was executed while the call stack was empty.
    StackUnderflow,
    /// A call was executed while the call stack already held 16 return
    /// addresses.
    StackOverflow,
    /// The opcode matches no instruction of the machine.
    UnknownOpcode,
}

} // verus!
