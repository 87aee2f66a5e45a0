//! Running a whole program on a fresh machine.
use crate::cpu::{initial_state, step, Cpu, CpuState, DEFAULT_MEMORY_SIZE};
use crate::instruction::{program_valid, Instruction};
use vstd::prelude::*;

verus! {

/// The most steps that `run_program` executes.
pub const STEP_LIMIT: u64 = 0xFFFF_FFFF_FFFF_FFFF;

/// The state reached from `s` after at most `fuel` steps: execution stops early when the
/// machine halts or an instruction fails, leaving the state before the failing instruction.
pub open spec fn run(s: CpuState, fuel: nat) -> CpuState
    decreases fuel,
{
    if fuel == 0 || s.halted() {
        s
    } else {
        match step(s) {
            Ok(t) => run(t, (fuel - 1) as nat),
            Err(_) => s,
        }
    }
}

/// Runs `program` from instruction `entry` on a default machine until it halts, an
/// instruction fails, or `STEP_LIMIT` steps have run; returns the machine.
pub fn run_program(program: Vec<Instruction>, entry: usize) -> (r: Cpu)
    requires
        program_valid(program@),
    ensures
        r@ == run(
            initial_state(DEFAULT_MEMORY_SIZE as nat, program@, entry),
            STEP_LIMIT as nat,
        ),
{
    let mut cpu = Cpu::default();
    cpu.load_program_at(program, entry);
    let ghost start = cpu@;
    let mut fuel: u64 = STEP_LIMIT;
    while fuel > 0
        invariant
            cpu.valid(),
            cpu@.regs.len() == 32,
            run(start, STEP_LIMIT as nat) == run(cpu@, fuel as nat),
        decreases fuel,
    {
        match cpu.execute_next() {
            Ok(true) => fuel = fuel - 1,
            _ => fuel = 0,
        }
    }
    cpu
}

} // verus!
