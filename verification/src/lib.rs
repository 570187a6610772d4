//! A fetch-decode-execute interpreter for a fixed-width 16-bit instruction
//! encoding in the style of the CHIP-8 virtual machine.
//!
//! The machine owns a byte-addressable memory, a bank of 8-bit registers
//! (the last one reserved as the carry flag), a program counter and a
//! bounded call stack.  The run loop fetches a big-endian 16-bit
//! instruction, advances the program counter, decodes four nibble fields
//! and dispatches: halt, subroutine call, subroutine return and
//! add-with-carry are implemented; every other encoding is a fatal error.

pub mod cpu;
pub mod fault;
pub mod semantics;
