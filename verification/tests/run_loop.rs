use chip8::cpu::{CPU, RunState};
use chip8::fault::Fault;

/// Store one 16-bit instruction at `addr`, high byte first.
fn load(cpu: &mut CPU, addr: usize, op: u16) {
    cpu.memory[addr] = (op >> 8) as u8;
    cpu.memory[addr + 1] = (op & 0xFF) as u8;
}

const PLENTY: usize = 1000;

#[test]
fn fresh_machine_halts_at_once() {
    let mut cpu = CPU::new();
    assert_eq!(cpu.run(PLENTY), RunState::Halted);
    assert_eq!(cpu.program_counter, 2);
    assert_eq!(cpu.stack_pointer, 0);
}

#[test]
fn zero_cycle_budget_reports_still_running() {
    let mut cpu = CPU::new();
    assert_eq!(cpu.run(0), RunState::Running);
    assert_eq!(cpu.program_counter, 0);
}

#[test]
fn scenario_one_add() {
    let mut cpu = CPU::new();
    cpu.registers[0] = 5;
    cpu.registers[1] = 10;
    load(&mut cpu, 0, 0x8014); // add register 1 into register 0
    assert_eq!(cpu.run(PLENTY), RunState::Halted);
    assert_eq!(cpu.registers[0], 15);
    assert_eq!(cpu.registers[0xF], 0);
}

#[test]
fn scenario_three_sequential_adds() {
    let mut cpu = CPU::new();
    cpu.registers[0] = 5;
    cpu.registers[1] = 10;
    cpu.registers[2] = 10;
    cpu.registers[3] = 10;
    load(&mut cpu, 0, 0x8014);
    load(&mut cpu, 2, 0x8024);
    load(&mut cpu, 4, 0x8034);
    assert_eq!(cpu.run(PLENTY), RunState::Halted);
    assert_eq!(cpu.registers[0], 35);
}

#[test]
fn scenario_two_calls_to_doubling_subroutine() {
    let mut cpu = CPU::new();
    cpu.registers[0] = 5;
    cpu.registers[1] = 10;
    load(&mut cpu, 0x000, 0x2100); // call the subroutine at 0x100
    load(&mut cpu, 0x002, 0x2100); // call it again
    load(&mut cpu, 0x004, 0x0000); // halt
    load(&mut cpu, 0x100, 0x8014); // add register 1 into register 0
    load(&mut cpu, 0x102, 0x8014); // and again
    load(&mut cpu, 0x104, 0x00EE); // return
    assert_eq!(cpu.run(PLENTY), RunState::Halted);
    assert_eq!(cpu.registers[0], 45);
}

#[test]
fn scenario_overflowing_add() {
    let mut cpu = CPU::new();
    cpu.registers[0] = 250;
    cpu.registers[1] = 10;
    load(&mut cpu, 0, 0x8014);
    assert_eq!(cpu.run(PLENTY), RunState::Halted);
    assert_eq!(cpu.registers[0], 4);
    assert_eq!(cpu.registers[0xF], 1);
}

#[test]
fn call_then_return_is_stack_balanced() {
    let mut cpu = CPU::new();
    load(&mut cpu, 0x000, 0x2100); // call
    load(&mut cpu, 0x002, 0x0000); // halt right after the call
    load(&mut cpu, 0x100, 0x00EE); // the subroutine returns at once
    assert_eq!(cpu.run(PLENTY), RunState::Halted);
    // the return came back to the instruction after the call, whose
    // halt then advanced the counter once more
    assert_eq!(cpu.program_counter, 4);
    assert_eq!(cpu.stack_pointer, 0);
}

#[test]
fn nested_calls_up_to_capacity_succeed() {
    let mut cpu = CPU::new();
    // sixteen calls, each to the next instruction, then a halt
    for k in 0..16u16 {
        load(&mut cpu, 2 * k as usize, 0x2000 | (2 * k + 2));
    }
    load(&mut cpu, 32, 0x0000);
    assert_eq!(cpu.run(PLENTY), RunState::Halted);
    assert_eq!(cpu.stack_pointer, 16);
}

#[test]
fn one_call_beyond_capacity_overflows() {
    let mut cpu = CPU::new();
    // seventeen nested calls: one more than the stack can hold
    for k in 0..17u16 {
        load(&mut cpu, 2 * k as usize, 0x2000 | (2 * k + 2));
    }
    assert_eq!(cpu.run(PLENTY), RunState::Faulted(Fault::StackOverflow));
    // the machine stopped at the failing call, its counter advanced
    // past it but the stack still as the sixteen successful calls
    // left it
    assert_eq!(cpu.stack_pointer, 16);
    assert_eq!(cpu.program_counter, 34);
}

#[test]
fn return_with_empty_stack_underflows() {
    let mut cpu = CPU::new();
    load(&mut cpu, 0, 0x00EE);
    assert_eq!(cpu.run(PLENTY), RunState::Faulted(Fault::StackUnderflow));
}

#[test]
fn unrecognized_opcode_faults_with_raw_value() {
    let mut cpu = CPU::new();
    load(&mut cpu, 0, 0x1234);
    assert_eq!(
        cpu.run(PLENTY),
        RunState::Faulted(Fault::UnimplementedOpcode(0x1234))
    );
}

#[test]
fn fetch_past_end_of_memory_faults() {
    let mut cpu = CPU::new();
    cpu.program_counter = 4095;
    assert_eq!(cpu.run(PLENTY), RunState::Faulted(Fault::AddressOutOfRange));
    assert_eq!(cpu.program_counter, 4095);
}

#[test]
fn run_resumes_after_budget_exhaustion() {
    let mut cpu = CPU::new();
    cpu.registers[0] = 1;
    cpu.registers[1] = 2;
    cpu.registers[2] = 3;
    load(&mut cpu, 0, 0x8014);
    load(&mut cpu, 2, 0x8024);
    assert_eq!(cpu.run(1), RunState::Running);
    assert_eq!(cpu.registers[0], 3);
    assert_eq!(cpu.run(PLENTY), RunState::Halted);
    assert_eq!(cpu.registers[0], 6);
}
