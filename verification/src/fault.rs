use vstd::prelude::*;

verus! {

/// A fatal condition observed by the run loop.  No fault is recovered or
/// retried: each one aborts the run and is surfaced to the caller.
#[derive(Clone, Copy, Debug, PartialEq, Eq, Structural)]
pub enum Fault {
    /// A fetch would read past the end of memory.
    AddressOutOfRange,
    /// The decoded fields match no dispatch arm; carries the raw
    /// instruction for diagnosis.
    UnimplementedOpcode(u16),
    /// A subroutine call was attempted while the call stack was full.
    StackOverflow,
    /// A subroutine return was attempted while the call stack was empty.
    StackUnderflow,
}

} // verus!
