//! The executable machine: one owned memory, register file, program
//! counter and call stack, mutated only by the verified interpreter
//! loop once a loader has filled in the initial state.

use vstd::prelude::*;

use crate::fault::Fault;
use crate::semantics::CpuView;
use crate::semantics::Outcome;
use crate::semantics::CARRY_REGISTER;
use crate::semantics::INSTRUCTION_WIDTH;
use crate::semantics::MEMORY_SIZE;
use crate::semantics::REGISTER_COUNT;
use crate::semantics::STACK_DEPTH;
use crate::semantics::advance;
use crate::semantics::carry_of;
use crate::semantics::fetch_ok;
use crate::semantics::lemma_run_n_step;
use crate::semantics::lemma_run_n_sticky;
use crate::semantics::opcode_at;
use crate::semantics::run_n;
use crate::semantics::spec_add;
use crate::semantics::spec_call;
use crate::semantics::spec_ret;
use crate::semantics::wrapped_sum;

verus! {

/// How a bounded run ended: still running when the cycle ceiling ran
/// out, halted on the all-zero sentinel, or stopped by a fatal fault.
#[derive(Clone, Copy, Debug, PartialEq, Eq, Structural)]
pub enum RunState {
    Running,
    Halted,
    Faulted(Fault),
}

/// The interpreter state.  Constructed zeroed; a loader writes a
/// program and an initial register snapshot into the public fields
/// before `run` takes over all mutation.
pub struct CPU {
    /// Address of the next instruction to fetch.
    pub program_counter: usize,
    /// The register file; the last entry is the carry flag.
    pub registers: Vec<u8>,
    /// The byte-addressable memory.
    pub memory: Vec<u8>,
    /// Saved return addresses; only the first `stack_pointer` are live.
    pub stack: Vec<u16>,
    /// Count of call-stack entries in use.
    pub stack_pointer: usize,
}

impl View for CPU {
    type V = CpuView;

    open spec fn view(&self) -> CpuView {
        CpuView {
            program_counter: self.program_counter as nat,
            registers: self.registers@,
            memory: self.memory@,
            stack: self.stack@,
            stack_pointer: self.stack_pointer as nat,
        }
    }
}

impl CPU {
    /// A machine with zeroed memory, registers and stack, the program
    /// counter at address 0 and an empty call stack.  Zeroed memory
    /// decodes to the halt sentinel, so a fresh machine halts at once.
    pub fn new() -> (cpu: CPU)
        ensures
            cpu@.wf(),
            cpu@.program_counter == 0,
            cpu@.stack_pointer == 0,
            forall|i: int| 0 <= i < REGISTER_COUNT ==> cpu@.registers[i] == 0,
            forall|i: int| 0 <= i < MEMORY_SIZE ==> cpu@.memory[i] == 0,
            forall|i: int| 0 <= i < STACK_DEPTH ==> cpu@.stack[i] == 0,
    {
        let mut registers: Vec<u8> = Vec::new();
        while registers.len() < REGISTER_COUNT
            invariant
                registers.len() <= REGISTER_COUNT,
                forall|i: int| 0 <= i < registers.len() ==> registers[i] == 0,
            decreases REGISTER_COUNT - registers.len(),
        {
            registers.push(0);
        }
        let mut memory: Vec<u8> = Vec::new();
        while memory.len() < MEMORY_SIZE
            invariant
                memory.len() <= MEMORY_SIZE,
                forall|i: int| 0 <= i < memory.len() ==> memory[i] == 0,
            decreases MEMORY_SIZE - memory.len(),
        {
            memory.push(0);
        }
        let mut stack: Vec<u16> = Vec::new();
        while stack.len() < STACK_DEPTH
            invariant
                stack.len() <= STACK_DEPTH,
                forall|i: int| 0 <= i < stack.len() ==> stack[i] == 0,
            decreases STACK_DEPTH - stack.len(),
        {
            stack.push(0);
        }
        CPU { program_counter: 0, registers, memory, stack, stack_pointer: 0 }
    }

    /// Fetch: read the two bytes at the program counter as one
    /// big-endian 16-bit instruction, without advancing the counter.
    /// Fails with `AddressOutOfRange` exactly when fewer than two bytes
    /// remain.
    pub fn read_opcode(&self) -> (r: Result<u16, Fault>)
        requires
            self@.wf(),
        ensures
            match r {
                Ok(op) => fetch_ok(self@) && op == opcode_at(self@),
                Err(f) => f == Fault::AddressOutOfRange && !fetch_ok(self@),
            },
    {
        if self.program_counter >= self.memory.len() - 1 {
            return Err(Fault::AddressOutOfRange);
        }
        let opbyte_1 = self.memory[self.program_counter] as u16;
        let opbyte_2 = self.memory[self.program_counter + 1] as u16;
        Ok((opbyte_1 << 8u16) | opbyte_2)
    }

    /// The interpreter loop: fetch, advance the program counter by one
    /// instruction width, decode the four nibble fields, dispatch; at
    /// most `max_cycles` cycles.  The result and the final state are
    /// exactly what iterating the small-step semantics from the
    /// initial state produces: `Halted` on the all-zero sentinel,
    /// `Faulted` on the first fatal condition, and `Running` when the
    /// cycle ceiling ran out first.  Bounded execution is the caller's
    /// policy: the core never infers termination of a loaded program.
    pub fn run(&mut self, max_cycles: usize) -> (r: RunState)
        requires
            old(self)@.wf(),
        ensures
            final(self)@.wf(),
            match r {
                RunState::Running => run_n(old(self)@, max_cycles as nat) == Outcome::Running(
                    final(self)@,
                ),
                RunState::Halted => run_n(old(self)@, max_cycles as nat) == Outcome::Halted(
                    final(self)@,
                ),
                RunState::Faulted(f) => run_n(old(self)@, max_cycles as nat) == Outcome::Faulted(
                    f,
                    final(self)@,
                ),
            },
    {
        let ghost orig: CpuView = self@;
        let mut cycle: usize = 0;

        #[verifier::loop_isolation(false)]
        while cycle < max_cycles
            invariant
                cycle <= max_cycles,
                self@.wf(),
                run_n(orig, cycle as nat) == Outcome::Running(self@),
            decreases max_cycles - cycle,
        {
            let ghost pre: CpuView = self@;
            let ghost n: nat = cycle as nat;

            let opcode = match self.read_opcode() {
                Ok(op) => op,
                Err(f) => {
                    proof {
                        lemma_run_n_step(orig, pre, n);
                        lemma_run_n_sticky(orig, n + 1, max_cycles as nat);
                        assert(run_n(orig, n + 1) == Outcome::Faulted(f, self@));
                    }
                    return RunState::Faulted(f);
                },
            };

            self.program_counter += INSTRUCTION_WIDTH;

            assert(((opcode & 0xF000) >> 12) < 16 && ((opcode & 0x0F00) >> 8) < 16 && ((opcode
                & 0x00F0) >> 4) < 16 && (opcode & 0x000F) < 16 && (opcode & 0x0FFF) < 4096)
                by (bit_vector);

            let c = ((opcode & 0xF000) >> 12) as u8;
            let x = ((opcode & 0x0F00) >> 8) as u8;
            let y = ((opcode & 0x00F0) >> 4) as u8;
            let d = (opcode & 0x000F) as u8;

            let nnn = opcode & 0x0FFF;

            proof {
                assert(advance(pre) == self@);
                lemma_run_n_step(orig, pre, n);
            }

            match (c, x, y, d) {
                (0, 0, 0, 0) => {
                    proof {
                        assert(run_n(orig, n + 1) == Outcome::Halted(self@));
                        lemma_run_n_sticky(orig, n + 1, max_cycles as nat);
                    }
                    return RunState::Halted;
                },
                (0, 0, 0xE, 0xE) => {
                    if let Err(f) = self.ret() {
                        proof {
                            assert(run_n(orig, n + 1) == Outcome::Faulted(f, self@));
                            lemma_run_n_sticky(orig, n + 1, max_cycles as nat);
                        }
                        return RunState::Faulted(f);
                    }
                    proof {
                        assert(run_n(orig, n + 1) == Outcome::Running(self@));
                    }
                },
                (0x2, _, _, _) => {
                    if let Err(f) = self.call(nnn) {
                        proof {
                            assert(run_n(orig, n + 1) == Outcome::Faulted(f, self@));
                            lemma_run_n_sticky(orig, n + 1, max_cycles as nat);
                        }
                        return RunState::Faulted(f);
                    }
                    proof {
                        assert(run_n(orig, n + 1) == Outcome::Running(self@));
                    }
                },
                (0x8, _, _, 0x4) => {
                    self.add_xy(x, y);
                    proof {
                        assert(run_n(orig, n + 1) == Outcome::Running(self@));
                    }
                },
                _ => {
                    proof {
                        assert(run_n(orig, n + 1) == Outcome::Faulted(
                            Fault::UnimplementedOpcode(opcode),
                            self@,
                        ));
                        lemma_run_n_sticky(orig, n + 1, max_cycles as nat);
                    }
                    return RunState::Faulted(Fault::UnimplementedOpcode(opcode));
                },
            }

            cycle += 1;
        }

        RunState::Running
    }

    /// Subroutine call: push the current (already-advanced) program
    /// counter onto the call stack and jump to `address`.  Fails with
    /// `StackOverflow`, leaving the state untouched, exactly when the
    /// stack is full.
    pub fn call(&mut self, address: u16) -> (r: Result<(), Fault>)
        requires
            old(self)@.wf(),
        ensures
            final(self)@.wf(),
            match r {
                Ok(()) => old(self)@.stack_pointer < STACK_DEPTH && final(self)@ == spec_call(
                    old(self)@,
                    address,
                ),
                Err(f) => f == Fault::StackOverflow && old(self)@.stack_pointer == STACK_DEPTH
                    && final(self)@ == old(self)@,
            },
    {
        let p = self.stack_pointer;

        if p >= self.stack.len() {
            return Err(Fault::StackOverflow);
        }

        self.stack[p] = #[verifier::truncate] (self.program_counter as u16);
        self.stack_pointer = p + 1;
        self.program_counter = address as usize;
        Ok(())
    }

    /// Subroutine return: pop the youngest saved address and jump to
    /// it.  Fails with `StackUnderflow`, leaving the state untouched,
    /// exactly when the stack is empty.
    pub fn ret(&mut self) -> (r: Result<(), Fault>)
        requires
            old(self)@.wf(),
        ensures
            final(self)@.wf(),
            match r {
                Ok(()) => old(self)@.stack_pointer > 0 && final(self)@ == spec_ret(old(self)@),
                Err(f) => f == Fault::StackUnderflow && old(self)@.stack_pointer == 0
                    && final(self)@ == old(self)@,
            },
    {
        if self.stack_pointer == 0 {
            return Err(Fault::StackUnderflow);
        }

        self.stack_pointer = self.stack_pointer - 1;
        let address = self.stack[self.stack_pointer];
        self.program_counter = address as usize;
        Ok(())
    }

    /// Add-with-carry: store the 8-bit wrapped sum of registers x and y
    /// into register x and unconditionally overwrite the carry register
    /// with 1 when the true sum overflowed 8 bits, else with 0.
    pub fn add_xy(&mut self, x: u8, y: u8)
        requires
            old(self)@.wf(),
            x < REGISTER_COUNT,
            y < REGISTER_COUNT,
        ensures
            final(self)@.wf(),
            final(self)@ == spec_add(old(self)@, x, y),
            final(self)@.registers[CARRY_REGISTER as int] == carry_of(
                old(self)@.registers[x as int],
                old(self)@.registers[y as int],
            ),
            x != CARRY_REGISTER ==> final(self)@.registers[x as int] == wrapped_sum(
                old(self)@.registers[x as int],
                old(self)@.registers[y as int],
            ),
            forall|i: int|
                0 <= i < REGISTER_COUNT && i != x && i != CARRY_REGISTER
                    ==> final(self)@.registers[i] == old(self)@.registers[i],
            final(self)@.program_counter == old(self)@.program_counter,
            final(self)@.stack == old(self)@.stack,
            final(self)@.stack_pointer == old(self)@.stack_pointer,
            final(self)@.memory == old(self)@.memory,
    {
        let arg1 = self.registers[x as usize];
        let arg2 = self.registers[y as usize];

        let sum: u16 = arg1 as u16 + arg2 as u16;
        let val: u8 = (sum % 256) as u8;

        self.registers[x as usize] = val;

        if sum >= 256 {
            self.registers[CARRY_REGISTER] = 1;
        } else {
            self.registers[CARRY_REGISTER] = 0;
        }
    }
}

} // verus!
