//! The mathematical model of the machine: a ghost state record, pure
//! decode functions, and a small-step transition function that the
//! executable interpreter is proved to follow.

use vstd::prelude::*;

use crate::fault::Fault;

verus! {

/// Number of bytes of simulated memory, addressable by the 12-bit
/// address operand.
pub const MEMORY_SIZE: usize = 4096;

/// Number of 8-bit general-purpose registers, indexable by a 4-bit
/// nibble.
pub const REGISTER_COUNT: usize = 16;

/// Index of the register reserved as the carry flag.
pub const CARRY_REGISTER: usize = 15;

/// Capacity of the call stack.
pub const STACK_DEPTH: usize = 16;

/// Width in addressable units of every instruction.
pub const INSTRUCTION_WIDTH: usize = 2;

/// The abstract machine state: what the interpreter's contracts speak of.
#[verifier::ext_equal]
pub ghost struct CpuView {
    /// Address of the next instruction to fetch.
    pub program_counter: nat,
    /// The register file; the last entry is the carry flag.
    pub registers: Seq<u8>,
    /// The byte-addressable memory.
    pub memory: Seq<u8>,
    /// Saved return addresses; only the first `stack_pointer` are live.
    pub stack: Seq<u16>,
    /// Count of call-stack entries in use.
    pub stack_pointer: nat,
}

impl CpuView {
    /// Well-formedness: the three fixed-capacity containers have their
    /// configured sizes and the stack pointer stays within capacity.
    pub open spec fn wf(self) -> bool {
        &&& self.registers.len() == REGISTER_COUNT
        &&& self.memory.len() == MEMORY_SIZE
        &&& self.stack.len() == STACK_DEPTH
        &&& self.stack_pointer <= STACK_DEPTH
    }
}

/// Both bytes of the instruction at the program counter are in bounds.
pub open spec fn fetch_ok(v: CpuView) -> bool {
    v.program_counter + 1 < v.memory.len()
}

/// The big-endian 16-bit instruction at the program counter: the byte at
/// the counter is the high-order half, the next byte the low-order half.
pub open spec fn opcode_at(v: CpuView) -> u16 {
    ((v.memory[v.program_counter as int] as u16) << 8) | (v.memory[v.program_counter as int + 1]
        as u16)
}

/// Decode: the instruction-family nibble (bits 12..=15).
pub open spec fn op_group(op: u16) -> u8 {
    ((op & 0xF000) >> 12) as u8
}

/// Decode: the first register index x (bits 8..=11).
pub open spec fn op_x(op: u16) -> u8 {
    ((op & 0x0F00) >> 8) as u8
}

/// Decode: the second register index y (bits 4..=7).
pub open spec fn op_y(op: u16) -> u8 {
    ((op & 0x00F0) >> 4) as u8
}

/// Decode: the sub-opcode selector d (bits 0..=3).
pub open spec fn op_d(op: u16) -> u8 {
    (op & 0x000F) as u8
}

/// Decode: the 12-bit address operand (bits 0..=11).
pub open spec fn op_addr(op: u16) -> u16 {
    op & 0x0FFF
}

/// The state after the unconditional advance of the program counter by
/// one instruction width, performed between fetch and dispatch.
pub open spec fn advance(v: CpuView) -> CpuView {
    CpuView { program_counter: v.program_counter + INSTRUCTION_WIDTH as nat, ..v }
}

/// Effect of a subroutine call on an already-advanced state: push the
/// current program counter, then jump to the target address.
pub open spec fn spec_call(v: CpuView, address: u16) -> CpuView {
    CpuView {
        stack: v.stack.update(v.stack_pointer as int, v.program_counter as u16),
        stack_pointer: v.stack_pointer + 1,
        program_counter: address as nat,
        ..v
    }
}

/// Effect of a subroutine return: pop the youngest saved address and
/// jump to it.
pub open spec fn spec_ret(v: CpuView) -> CpuView {
    CpuView {
        stack_pointer: (v.stack_pointer - 1) as nat,
        program_counter: v.stack[v.stack_pointer - 1] as nat,
        ..v
    }
}

/// The low 8 bits of the true sum of two registers.
pub open spec fn wrapped_sum(a: u8, b: u8) -> u8 {
    ((a + b) % 256) as u8
}

/// The carry flag produced by adding two registers: 1 exactly when the
/// true sum does not fit in 8 bits, else 0.
pub open spec fn carry_of(a: u8, b: u8) -> u8 {
    if a + b >= 256 {
        1
    } else {
        0
    }
}

/// Effect of add-with-carry: store the wrapped sum of registers x and y
/// into register x, then unconditionally overwrite the carry register
/// with the overflow flag (so the flag wins when x is the carry
/// register itself).
pub open spec fn spec_add(v: CpuView, x: u8, y: u8) -> CpuView {
    CpuView {
        registers: v.registers.update(
            x as int,
            wrapped_sum(v.registers[x as int], v.registers[y as int]),
        ).update(CARRY_REGISTER as int, carry_of(v.registers[x as int], v.registers[y as int])),
        ..v
    }
}

/// What one cycle leads to: either the machine keeps running in a new
/// state, halts, or faults.  The state carried by `Halted` and
/// `Faulted` is the state at the moment the run stops.
pub ghost enum Outcome {
    Running(CpuView),
    Halted(CpuView),
    Faulted(Fault, CpuView),
}

/// One fetch-advance-decode-dispatch cycle.  A fetch out of bounds
/// faults without touching the state; otherwise the program counter
/// advances first, so call and return operate on the post-advance
/// value and the halted or faulted state records the advanced counter.
pub open spec fn spec_step(v: CpuView) -> Outcome {
    if !fetch_ok(v) {
        Outcome::Faulted(Fault::AddressOutOfRange, v)
    } else {
        let op = opcode_at(v);
        let c = op_group(op);
        let x = op_x(op);
        let y = op_y(op);
        let d = op_d(op);
        let w = advance(v);
        if c == 0 && x == 0 && y == 0 && d == 0 {
            Outcome::Halted(w)
        } else if c == 0 && x == 0 && y == 0xE && d == 0xE {
            if w.stack_pointer == 0 {
                Outcome::Faulted(Fault::StackUnderflow, w)
            } else {
                Outcome::Running(spec_ret(w))
            }
        } else if c == 0x2 {
            if w.stack_pointer >= STACK_DEPTH {
                Outcome::Faulted(Fault::StackOverflow, w)
            } else {
                Outcome::Running(spec_call(w, op_addr(op)))
            }
        } else if c == 0x8 && d == 0x4 {
            Outcome::Running(spec_add(w, x, y))
        } else {
            Outcome::Faulted(Fault::UnimplementedOpcode(op), w)
        }
    }
}

/// Up to `n` cycles from `v`: the result is `Running` while the budget
/// runs out first, and sticks at the first halt or fault.
pub open spec fn run_n(v: CpuView, n: nat) -> Outcome
    decreases n,
{
    if n == 0 {
        Outcome::Running(v)
    } else {
        match spec_step(v) {
            Outcome::Running(w) => run_n(w, (n - 1) as nat),
            Outcome::Halted(w) => Outcome::Halted(w),
            Outcome::Faulted(f, w) => Outcome::Faulted(f, w),
        }
    }
}

/// The next `n` instructions, followed through the transitions they
/// cause, are all fetchable subroutine calls.
pub open spec fn calls_ahead(v: CpuView, n: nat) -> bool
    decreases n,
{
    n > 0 ==> {
        &&& fetch_ok(v)
        &&& op_group(opcode_at(v)) == 0x2
        &&& calls_ahead(spec_call(advance(v), op_addr(opcode_at(v))), (n - 1) as nat)
    }
}

/// Law: a subroutine call immediately followed by the subroutine's
/// return brings the program counter to the instruction after the
/// call, with the stack pointer, registers and memory unchanged from
/// before the call.
pub proof fn lemma_call_then_ret_balanced(v: CpuView)
    requires
        v.wf(),
        fetch_ok(v),
        op_group(opcode_at(v)) == 0x2,
        v.stack_pointer < STACK_DEPTH,
        ({
            let w = spec_call(advance(v), op_addr(opcode_at(v)));
            fetch_ok(w) && opcode_at(w) == 0x00EE
        }),
    ensures
        ({
            let w = spec_call(advance(v), op_addr(opcode_at(v)));
            let u = spec_ret(advance(w));
            &&& spec_step(v) == Outcome::Running(w)
            &&& spec_step(w) == Outcome::Running(u)
            &&& u.program_counter == v.program_counter + INSTRUCTION_WIDTH as nat
            &&& u.stack_pointer == v.stack_pointer
            &&& u.registers == v.registers
            &&& u.memory == v.memory
        }),
{
    assert(op_group(0x00EEu16) == 0 && op_x(0x00EEu16) == 0 && op_y(0x00EEu16) == 0xE && op_d(
        0x00EEu16,
    ) == 0xE) by (bit_vector);
}

/// Law: with the call stack already at capacity, a subroutine call
/// faults with `StackOverflow` and changes nothing but the already
/// advanced program counter: registers, memory, call stack and stack
/// pointer are exactly as before the cycle.
pub proof fn lemma_call_at_capacity_overflows(v: CpuView)
    requires
        v.wf(),
        fetch_ok(v),
        op_group(opcode_at(v)) == 0x2,
        v.stack_pointer == STACK_DEPTH,
    ensures
        spec_step(v) == Outcome::Faulted(Fault::StackOverflow, advance(v)),
        advance(v).program_counter == v.program_counter + INSTRUCTION_WIDTH as nat,
        advance(v).registers == v.registers,
        advance(v).memory == v.memory,
        advance(v).stack == v.stack,
        advance(v).stack_pointer == v.stack_pointer,
{
}

/// Law: nested subroutine calls succeed as long as the call stack has
/// room for them, each one deepening the stack by exactly one entry
/// and leaving registers and memory untouched.
pub proof fn lemma_nested_calls_succeed(v: CpuView, n: nat)
    requires
        v.wf(),
        calls_ahead(v, n),
        v.stack_pointer + n <= STACK_DEPTH,
    ensures
        run_n(v, n) matches Outcome::Running(w) && {
            &&& w.wf()
            &&& w.stack_pointer == v.stack_pointer + n
            &&& w.registers == v.registers
            &&& w.memory == v.memory
        },
    decreases n,
{
    if n == 0 {
    } else {
        let w1 = spec_call(advance(v), op_addr(opcode_at(v)));
        assert(spec_step(v) == Outcome::Running(w1));
        lemma_nested_calls_succeed(w1, (n - 1) as nat);
    }
}

/// Law: a subroutine return with an empty call stack faults with
/// `StackUnderflow`.
pub proof fn lemma_ret_with_empty_stack_underflows(v: CpuView)
    requires
        v.wf(),
        fetch_ok(v),
        opcode_at(v) == 0x00EE,
        v.stack_pointer == 0,
    ensures
        spec_step(v) == Outcome::Faulted(Fault::StackUnderflow, advance(v)),
{
    assert(op_group(0x00EEu16) == 0 && op_x(0x00EEu16) == 0 && op_y(0x00EEu16) == 0xE && op_d(
        0x00EEu16,
    ) == 0xE) by (bit_vector);
}

/// Once a run has halted or faulted, a larger cycle budget changes
/// nothing: the terminal outcome sticks.
pub proof fn lemma_run_n_sticky(v: CpuView, n: nat, m: nat)
    requires
        n <= m,
        !(run_n(v, n) is Running),
    ensures
        run_n(v, m) == run_n(v, n),
    decreases n,
{
    if n == 0 {
    } else {
        match spec_step(v) {
            Outcome::Running(u) => {
                lemma_run_n_sticky(u, (n - 1) as nat, (m - 1) as nat);
            },
            Outcome::Halted(_) => {},
            Outcome::Faulted(_, _) => {},
        }
    }
}

/// Extending a run that is still going by one cycle performs exactly one
/// more step.
pub proof fn lemma_run_n_step(v: CpuView, w: CpuView, n: nat)
    requires
        run_n(v, n) == Outcome::Running(w),
    ensures
        run_n(v, n + 1) == spec_step(w),
    decreases n,
{
    if n == 0 {
        reveal_with_fuel(run_n, 2);
    } else {
        match spec_step(v) {
            Outcome::Running(u) => {
                lemma_run_n_step(u, w, (n - 1) as nat);
            },
            Outcome::Halted(_) => {},
            Outcome::Faulted(_, _) => {},
        }
    }
}

} // verus!
