//! The execution engine: registers, memory, program and program counter, advanced one
//! instruction at a time.
use crate::alu::{
    address, add_index, alu, alu_spec, effective_address, from_bits, shift_upper, to_unsigned,
    unsigned, upper_immediate, wrap32, AluOp,
};
use crate::instruction::{program_valid, Instruction};
use crate::memory::{
    access_error, half_at, lemma_pow2_small, sign_extend, store_byte, store_half, store_word,
    word_at, Memory, MemoryError,
};
use std::io::Write;
use vstd::prelude::*;

verus! {

#[derive(Clone, Copy, Debug, PartialEq, Eq, Structural)]
pub enum CpuError {
    MemoryError(MemoryError),
}

/// The mathematical state of a machine.
pub struct CpuState {
    pub regs: Seq<i32>,
    pub mem: Seq<u8>,
    pub pc: usize,
    pub program: Seq<Instruction>,
}

/// The program counter after a jump to instruction index `t`. A target outside the range
/// of indices halts the machine.
pub open spec fn target_pc(t: int) -> usize {
    if 0 <= t <= usize::MAX {
        t as usize
    } else {
        usize::MAX
    }
}

impl CpuState {
    pub open spec fn halted(self) -> bool {
        self.pc >= self.program.len()
    }

    pub open spec fn reg(self, r: usize) -> i32 {
        self.regs[r as int]
    }

    /// The state after an instruction: register 0 is forced back to zero.
    pub open spec fn finish(self, regs: Seq<i32>, mem: Seq<u8>, pc: usize) -> CpuState {
        CpuState { regs: regs.update(0, 0), mem, pc, program: self.program }
    }

    /// The state after an instruction that writes `v` to `rd` and falls through.
    pub open spec fn with_reg(self, rd: usize, v: int) -> CpuState {
        self.finish(self.regs.update(rd as int, v as i32), self.mem, (self.pc + 1) as usize)
    }

    /// The state after a branch, taken when `cond` holds.
    pub open spec fn branch(self, cond: bool, offset: i32) -> CpuState {
        let next = if cond {
            target_pc(self.pc + offset)
        } else {
            (self.pc + 1) as usize
        };
        self.finish(self.regs, self.mem, next)
    }

    /// The state after an operation of the arithmetic unit.
    pub open spec fn alu_step(self, op: AluOp, rd: usize, a: i32, b: i32) -> CpuState {
        self.with_reg(rd, alu_spec(op, a, b))
    }

    /// The state after a load of `width` bytes at `reg[rs1] + imm` whose result `value`
    /// gives from the bytes; or the failure of the access.
    pub open spec fn load(self, rd: usize, rs1: usize, imm: i32, width: nat, value: int) -> Result<
        CpuState,
        MemoryError,
    > {
        let a = effective_address(self.reg(rs1), imm);
        match access_error(self.mem.len(), a, width) {
            Some(e) => Err(e),
            None => Ok(self.with_reg(rd, value)),
        }
    }

    /// The state after a store whose memory `stored` gives; or the failure of the access.
    pub open spec fn store(self, a: u32, width: nat, stored: Seq<u8>) -> Result<
        CpuState,
        MemoryError,
    > {
        match access_error(self.mem.len(), a, width) {
            Some(e) => Err(e),
            None => Ok(self.finish(self.regs, stored, (self.pc + 1) as usize)),
        }
    }

    /// The state after a store of the low `width` bytes of `value` at `a`; or the failure of
    /// the access.
    pub open spec fn store_value(self, a: u32, width: nat, value: i32) -> Result<
        CpuState,
        MemoryError,
    > {
        let u = unsigned(value);
        let stored = if width == 1 {
            store_byte(self.mem, a as int, u % 0x100)
        } else if width == 2 {
            store_half(self.mem, a as int, u % 0x1_0000)
        } else {
            store_word(self.mem, a as int, u)
        };
        self.store(a, width, stored)
    }
}

/// The result of executing the instruction at `s.pc` (which must be in the program):
/// the next state, or the memory error that stops the instruction.
pub open spec fn step(s: CpuState) -> Result<CpuState, MemoryError> {
    let m = s.mem;
    match s.program[s.pc as int] {
        Instruction::Add { rd, rs1, rs2 } => Ok(s.alu_step(AluOp::Add, rd, s.reg(rs1), s.reg(rs2))),
        Instruction::Sub { rd, rs1, rs2 } => Ok(s.alu_step(AluOp::Sub, rd, s.reg(rs1), s.reg(rs2))),
        Instruction::Mul { rd, rs1, rs2 } => Ok(s.alu_step(AluOp::Mul, rd, s.reg(rs1), s.reg(rs2))),
        Instruction::Mulh { rd, rs1, rs2 } => Ok(
            s.alu_step(AluOp::Mulh, rd, s.reg(rs1), s.reg(rs2)),
        ),
        Instruction::Mulhsu { rd, rs1, rs2 } => Ok(
            s.alu_step(AluOp::Mulhsu, rd, s.reg(rs1), s.reg(rs2)),
        ),
        Instruction::Mulhu { rd, rs1, rs2 } => Ok(
            s.alu_step(AluOp::Mulhu, rd, s.reg(rs1), s.reg(rs2)),
        ),
        Instruction::Div { rd, rs1, rs2 } => Ok(s.alu_step(AluOp::Div, rd, s.reg(rs1), s.reg(rs2))),
        Instruction::Divu { rd, rs1, rs2 } => Ok(
            s.alu_step(AluOp::Divu, rd, s.reg(rs1), s.reg(rs2)),
        ),
        Instruction::Rem { rd, rs1, rs2 } => Ok(s.alu_step(AluOp::Rem, rd, s.reg(rs1), s.reg(rs2))),
        Instruction::Remu { rd, rs1, rs2 } => Ok(
            s.alu_step(AluOp::Remu, rd, s.reg(rs1), s.reg(rs2)),
        ),
        Instruction::And { rd, rs1, rs2 } => Ok(s.alu_step(AluOp::And, rd, s.reg(rs1), s.reg(rs2))),
        Instruction::Or { rd, rs1, rs2 } => Ok(s.alu_step(AluOp::Or, rd, s.reg(rs1), s.reg(rs2))),
        Instruction::Xor { rd, rs1, rs2 } => Ok(s.alu_step(AluOp::Xor, rd, s.reg(rs1), s.reg(rs2))),
        Instruction::Sll { rd, rs1, rs2 } => Ok(s.alu_step(AluOp::Sll, rd, s.reg(rs1), s.reg(rs2))),
        Instruction::Srl { rd, rs1, rs2 } => Ok(s.alu_step(AluOp::Srl, rd, s.reg(rs1), s.reg(rs2))),
        Instruction::Sra { rd, rs1, rs2 } => Ok(s.alu_step(AluOp::Sra, rd, s.reg(rs1), s.reg(rs2))),
        Instruction::Slt { rd, rs1, rs2 } => Ok(s.alu_step(AluOp::Slt, rd, s.reg(rs1), s.reg(rs2))),
        Instruction::Sltu { rd, rs1, rs2 } => Ok(
            s.alu_step(AluOp::Sltu, rd, s.reg(rs1), s.reg(rs2)),
        ),
        Instruction::Addi { rd, rs1, imm } => Ok(s.alu_step(AluOp::Add, rd, s.reg(rs1), imm)),
        Instruction::Andi { rd, rs1, imm } => Ok(s.alu_step(AluOp::And, rd, s.reg(rs1), imm)),
        Instruction::Ori { rd, rs1, imm } => Ok(s.alu_step(AluOp::Or, rd, s.reg(rs1), imm)),
        Instruction::Xori { rd, rs1, imm } => Ok(s.alu_step(AluOp::Xor, rd, s.reg(rs1), imm)),
        Instruction::Slli { rd, rs1, imm } => Ok(s.alu_step(AluOp::Sll, rd, s.reg(rs1), imm)),
        Instruction::Srli { rd, rs1, imm } => Ok(s.alu_step(AluOp::Srl, rd, s.reg(rs1), imm)),
        Instruction::Srai { rd, rs1, imm } => Ok(s.alu_step(AluOp::Sra, rd, s.reg(rs1), imm)),
        Instruction::Slti { rd, rs1, imm } => Ok(s.alu_step(AluOp::Slt, rd, s.reg(rs1), imm)),
        Instruction::Sltiu { rd, rs1, imm } => Ok(s.alu_step(AluOp::Sltu, rd, s.reg(rs1), imm)),
        Instruction::Lb { rd, rs1, imm } => {
            let a = effective_address(s.reg(rs1), imm) as int;
            s.load(rd, rs1, imm, 1, sign_extend(m[a] as int, 8))
        },
        Instruction::Lbu { rd, rs1, imm } => {
            let a = effective_address(s.reg(rs1), imm) as int;
            s.load(rd, rs1, imm, 1, m[a] as int)
        },
        Instruction::Lh { rd, rs1, imm } => {
            let a = effective_address(s.reg(rs1), imm) as int;
            s.load(rd, rs1, imm, 2, sign_extend(half_at(m, a), 16))
        },
        Instruction::Lhu { rd, rs1, imm } => {
            let a = effective_address(s.reg(rs1), imm) as int;
            s.load(rd, rs1, imm, 2, half_at(m, a))
        },
        Instruction::Lw { rd, rs1, imm } => {
            let a = effective_address(s.reg(rs1), imm) as int;
            s.load(rd, rs1, imm, 4, sign_extend(word_at(m, a), 32))
        },
        Instruction::Sb { rs1, rs2, imm } => s.store_value(
            effective_address(s.reg(rs2), imm),
            1,
            s.reg(rs1),
        ),
        Instruction::Sh { rs1, rs2, imm } => s.store_value(
            effective_address(s.reg(rs2), imm),
            2,
            s.reg(rs1),
        ),
        Instruction::Sw { rs1, rs2, imm } => s.store_value(
            effective_address(s.reg(rs2), imm),
            4,
            s.reg(rs1),
        ),
        Instruction::Beq { rs1, rs2, offset } => Ok(s.branch(s.reg(rs1) == s.reg(rs2), offset)),
        Instruction::Bne { rs1, rs2, offset } => Ok(s.branch(s.reg(rs1) != s.reg(rs2), offset)),
        Instruction::Blt { rs1, rs2, offset } => Ok(s.branch(s.reg(rs1) < s.reg(rs2), offset)),
        Instruction::Bltu { rs1, rs2, offset } => Ok(
            s.branch(unsigned(s.reg(rs1)) < unsigned(s.reg(rs2)), offset),
        ),
        Instruction::Bge { rs1, rs2, offset } => Ok(s.branch(s.reg(rs1) >= s.reg(rs2), offset)),
        Instruction::Bgeu { rs1, rs2, offset } => Ok(
            s.branch(unsigned(s.reg(rs1)) >= unsigned(s.reg(rs2)), offset),
        ),
        Instruction::Jal { rd, offset } => Ok(
            s.finish(
                s.regs.update(rd as int, wrap32(s.pc + 1) as i32),
                m,
                target_pc(s.pc + offset),
            ),
        ),
        Instruction::Jalr { rd, rs1, imm } => Ok(
            s.finish(
                s.regs.update(rd as int, wrap32(s.pc + 1) as i32),
                m,
                target_pc(s.reg(rs1) + imm),
            ),
        ),
        Instruction::Lui { rd, imm } => Ok(s.with_reg(rd, upper_immediate(imm))),
        Instruction::Auipc { rd, imm } => Ok(s.with_reg(rd, wrap32(s.pc + upper_immediate(imm)))),
        Instruction::Print { .. } => Ok(s.finish(s.regs, m, (s.pc + 1) as usize)),
    }
}

/// The address and width of the memory access that the instruction at `s.pc` makes, if any.
pub open spec fn memory_access(s: CpuState) -> Option<(u32, nat)> {
    match s.program[s.pc as int] {
        Instruction::Lb { rs1, imm, .. } | Instruction::Lbu { rs1, imm, .. } => Some(
            (effective_address(s.reg(rs1), imm), 1),
        ),
        Instruction::Lh { rs1, imm, .. } | Instruction::Lhu { rs1, imm, .. } => Some(
            (effective_address(s.reg(rs1), imm), 2),
        ),
        Instruction::Lw { rs1, imm, .. } => Some((effective_address(s.reg(rs1), imm), 4)),
        Instruction::Sb { rs2, imm, .. } => Some((effective_address(s.reg(rs2), imm), 1)),
        Instruction::Sh { rs2, imm, .. } => Some((effective_address(s.reg(rs2), imm), 2)),
        Instruction::Sw { rs2, imm, .. } => Some((effective_address(s.reg(rs2), imm), 4)),
        _ => None,
    }
}

/// The number of bytes a store writes.
pub open spec fn store_width(i: Instruction) -> nat {
    match i {
        Instruction::Sb { .. } => 1,
        Instruction::Sh { .. } => 2,
        _ => 4,
    }
}

/// A machine state whose registers are the 32 of the machine and whose current
/// instruction names valid registers.
pub open spec fn running(s: CpuState) -> bool {
    &&& s.regs.len() == 32
    &&& !s.halted()
    &&& s.program[s.pc as int].regs_valid()
}

/// Whatever an instruction writes to register 0, the step leaves it reading zero, and the
/// machine keeps its 32 registers and its program.
pub proof fn lemma_step_zero_register(s: CpuState)
    requires
        running(s),
    ensures
        step(s) matches Ok(t) ==> t.regs[0] == 0 && t.regs.len() == 32 && t.program == s.program,
{
}

/// Division and remainder by zero are no faults: `div` writes -1, `divu` the all-ones
/// pattern, `rem` and `remu` the dividend.
pub proof fn lemma_division_by_zero(s: CpuState)
    requires
        running(s),
    ensures
        s.program[s.pc as int] matches Instruction::Div { rd, rs2, .. } ==> (s.reg(rs2) == 0
            ==> step(s) == Ok::<CpuState, MemoryError>(s.with_reg(rd, -1))),
        s.program[s.pc as int] matches Instruction::Divu { rd, rs2, .. } ==> (s.reg(rs2) == 0
            ==> step(s) == Ok::<CpuState, MemoryError>(s.with_reg(rd, -1))),
        s.program[s.pc as int] matches Instruction::Rem { rd, rs1, rs2 } ==> (s.reg(rs2) == 0
            ==> step(s) == Ok::<CpuState, MemoryError>(s.with_reg(rd, s.reg(rs1) as int))),
        s.program[s.pc as int] matches Instruction::Remu { rd, rs1, rs2 } ==> (s.reg(rs2) == 0
            ==> step(s) == Ok::<CpuState, MemoryError>(s.with_reg(rd, s.reg(rs1) as int))),
        unsigned(-1i32) == 0xFFFF_FFFF,
{
}

/// A word load from an address that is not a multiple of four fails as misaligned; a byte
/// store never fails on alignment, and succeeds at any address inside memory.
pub proof fn lemma_alignment(s: CpuState, a: u32)
    requires
        running(s),
    ensures
        s.program[s.pc as int] is Lw && memory_access(s) == Some((a, 4nat)) && a % 4 != 0
            ==> step(s) == Err::<CpuState, MemoryError>(MemoryError::MisalignedAccess(a)),
        s.program[s.pc as int] is Sb && memory_access(s) == Some((a, 1nat)) ==> step(s) != Err::<
            CpuState,
            MemoryError,
        >(MemoryError::MisalignedAccess(a)),
        s.program[s.pc as int] is Sb && memory_access(s) == Some((a, 1nat)) && a < s.mem.len()
            ==> step(s) is Ok,
{
}

/// An aligned access of `w` bytes at `a` with `a + w` past the end of memory fails as out of
/// bounds.
pub proof fn lemma_out_of_bounds(s: CpuState, a: u32, w: nat)
    requires
        running(s),
        memory_access(s) == Some((a, w)),
        (a as nat) % w == 0,
        a + w > s.mem.len(),
    ensures
        step(s) == Err::<CpuState, MemoryError>(MemoryError::OutOfBounds(a)),
{
}

/// The registers of a machine with `mem_size` bytes of memory: all zero but the stack
/// pointer, register 2, which holds the memory size.
pub open spec fn initial_regs(mem_size: nat) -> Seq<i32> {
    Seq::new(32, |i: int| if i == 2 { wrap32(mem_size as int) as i32 } else { 0i32 })
}

/// A fresh machine with `mem_size` bytes of zeroed memory and `program` loaded at `entry`.
pub open spec fn initial_state(mem_size: nat, program: Seq<Instruction>, entry: usize) -> CpuState {
    CpuState {
        regs: initial_regs(mem_size),
        mem: Seq::new(mem_size, |_i: int| 0u8),
        pc: entry,
        program,
    }
}

/// The memory size of a default machine, in bytes.
pub const DEFAULT_MEMORY_SIZE: usize = 1024;

/// A machine running a program.
pub struct Cpu {
    pub regs: [i32; 32],
    pub memory: Memory,
    pub pc: usize,
    pub program: Vec<Instruction>,
}

/// Relies on std's `writeln!` on standard output to show the value of register `index`.
#[verifier::external_body]
fn emit_register(index: usize, value: i32) {
    let _ = writeln!(std::io::stdout(), "x{}: {}", index, value);
}

/// The program counter after a jump to `base + offset`.
fn jump_target(base: i128, offset: i32) -> (r: usize)
    requires
        -0x1_0000_0000_0000_0000 < base < 0x1_0000_0000_0000_0000,
    ensures
        r == target_pc(base + offset),
{
    let t: i128 = base + offset as i128;
    if t < 0 || t > usize::MAX as i128 {
        usize::MAX
    } else {
        t as usize
    }
}

impl View for Cpu {
    type V = CpuState;

    open spec fn view(&self) -> CpuState {
        CpuState { regs: self.regs@, mem: self.memory@, pc: self.pc, program: self.program@ }
    }
}

impl Cpu {
    /// Every instruction of the loaded program names valid registers.
    pub open spec fn valid(&self) -> bool {
        program_valid(self@.program)
    }

    /// The view shows the public fields as they are: 32 registers and the program counter;
    /// the program fits the range of `usize`.
    pub proof fn lemma_view_fields(&self)
        ensures
            self@.regs == self.regs@,
            self@.pc == self.pc,
            self@.regs.len() == 32,
            self@.program.len() <= usize::MAX,
    {
        assert(self.program@.len() == self.program.len());
    }
}

impl Default for Cpu {
    /// A machine with `DEFAULT_MEMORY_SIZE` bytes of memory and no program.
    fn default() -> (r: Cpu)
        ensures
            r@ == initial_state(DEFAULT_MEMORY_SIZE as nat, Seq::empty(), 0),
            r.valid(),
    {
        Cpu::new(DEFAULT_MEMORY_SIZE)
    }
}

impl Cpu {
    /// A machine with `mem_size` bytes of zeroed memory and no program.
    pub fn new(mem_size: usize) -> (r: Cpu)
        ensures
            r@ == initial_state(mem_size as nat, Seq::empty(), 0),
            r.valid(),
    {
        let mut regs = [0i32; 32];
        regs[2] = from_bits(mem_size as u64);
        let r = Cpu { regs, memory: Memory::new(mem_size), pc: 0, program: Vec::new() };
        assert(r@.regs =~= initial_regs(mem_size as nat));
        r
    }

    /// Replaces the program and restarts it at its first instruction.
    pub fn load_program(&mut self, program: Vec<Instruction>)
        requires
            program_valid(program@),
        ensures
            final(self)@ == (CpuState { program: program@, pc: 0, ..old(self)@ }),
            final(self).valid(),
    {
        self.program = program;
        self.pc = 0;
    }

    /// Replaces the program and restarts it at instruction `entry`.
    pub fn load_program_at(&mut self, program: Vec<Instruction>, entry: usize)
        requires
            program_valid(program@),
        ensures
            final(self)@ == (CpuState { program: program@, pc: entry, ..old(self)@ }),
            final(self).valid(),
    {
        self.program = program;
        self.pc = entry;
    }

    /// The register file.
    pub fn registers(&self) -> (r: &[i32; 32])
        ensures
            r@ == self@.regs,
    {
        &self.regs
    }

    /// The loaded program.
    pub fn program(&self) -> (r: &Vec<Instruction>)
        ensures
            r@ == self@.program,
    {
        &self.program
    }

    /// Executes the instruction at the program counter.
    ///
    /// Returns `Ok(false)`, changing nothing, when the program counter is past the program;
    /// `Ok(true)` after a step; the memory error of a failing load or store, changing
    /// nothing.
    pub fn execute_next(&mut self) -> (r: Result<bool, CpuError>)
        requires
            old(self).valid(),
        ensures
            final(self).valid(),
            old(self)@.halted() ==> r == Ok::<bool, CpuError>(false) && final(self)@ == old(self)@,
            !old(self)@.halted() ==> match step(old(self)@) {
                Ok(t) => r == Ok::<bool, CpuError>(true) && final(self)@ == t,
                Err(e) => r == Err::<bool, CpuError>(CpuError::MemoryError(e)) && final(self)@
                    == old(self)@,
            },
            r == Ok::<bool, CpuError>(true) ==> final(self)@.regs[0] == 0,
    {
        if self.pc >= self.program.len() {
            return Ok(false);
        }
        let pc = self.pc;
        let inst = self.program[pc];
        assert(inst.regs_valid());
        proof {
            lemma_pow2_small();
        }
        let mut next_pc: usize = pc + 1;
        match inst {
            Instruction::Add { rd, rs1, rs2 } => {
                self.regs[rd] = alu(AluOp::Add, self.regs[rs1], self.regs[rs2]);
            },
            Instruction::Sub { rd, rs1, rs2 } => {
                self.regs[rd] = alu(AluOp::Sub, self.regs[rs1], self.regs[rs2]);
            },
            Instruction::Mul { rd, rs1, rs2 } => {
                self.regs[rd] = alu(AluOp::Mul, self.regs[rs1], self.regs[rs2]);
            },
            Instruction::Mulh { rd, rs1, rs2 } => {
                self.regs[rd] = alu(AluOp::Mulh, self.regs[rs1], self.regs[rs2]);
            },
            Instruction::Mulhsu { rd, rs1, rs2 } => {
                self.regs[rd] = alu(AluOp::Mulhsu, self.regs[rs1], self.regs[rs2]);
            },
            Instruction::Mulhu { rd, rs1, rs2 } => {
                self.regs[rd] = alu(AluOp::Mulhu, self.regs[rs1], self.regs[rs2]);
            },
            Instruction::Div { rd, rs1, rs2 } => {
                self.regs[rd] = alu(AluOp::Div, self.regs[rs1], self.regs[rs2]);
            },
            Instruction::Divu { rd, rs1, rs2 } => {
                self.regs[rd] = alu(AluOp::Divu, self.regs[rs1], self.regs[rs2]);
            },
            Instruction::Rem { rd, rs1, rs2 } => {
                self.regs[rd] = alu(AluOp::Rem, self.regs[rs1], self.regs[rs2]);
            },
            Instruction::Remu { rd, rs1, rs2 } => {
                self.regs[rd] = alu(AluOp::Remu, self.regs[rs1], self.regs[rs2]);
            },
            Instruction::And { rd, rs1, rs2 } => {
                self.regs[rd] = alu(AluOp::And, self.regs[rs1], self.regs[rs2]);
            },
            Instruction::Or { rd, rs1, rs2 } => {
                self.regs[rd] = alu(AluOp::Or, self.regs[rs1], self.regs[rs2]);
            },
            Instruction::Xor { rd, rs1, rs2 } => {
                self.regs[rd] = alu(AluOp::Xor, self.regs[rs1], self.regs[rs2]);
            },
            Instruction::Sll { rd, rs1, rs2 } => {
                self.regs[rd] = alu(AluOp::Sll, self.regs[rs1], self.regs[rs2]);
            },
            Instruction::Srl { rd, rs1, rs2 } => {
                self.regs[rd] = alu(AluOp::Srl, self.regs[rs1], self.regs[rs2]);
            },
            Instruction::Sra { rd, rs1, rs2 } => {
                self.regs[rd] = alu(AluOp::Sra, self.regs[rs1], self.regs[rs2]);
            },
            Instruction::Slt { rd, rs1, rs2 } => {
                self.regs[rd] = alu(AluOp::Slt, self.regs[rs1], self.regs[rs2]);
            },
            Instruction::Sltu { rd, rs1, rs2 } => {
                self.regs[rd] = alu(AluOp::Sltu, self.regs[rs1], self.regs[rs2]);
            },
            Instruction::Addi { rd, rs1, imm } => {
                self.regs[rd] = alu(AluOp::Add, self.regs[rs1], imm);
            },
            Instruction::Andi { rd, rs1, imm } => {
                self.regs[rd] = alu(AluOp::And, self.regs[rs1], imm);
            },
            Instruction::Ori { rd, rs1, imm } => {
                self.regs[rd] = alu(AluOp::Or, self.regs[rs1], imm);
            },
            Instruction::Xori { rd, rs1, imm } => {
                self.regs[rd] = alu(AluOp::Xor, self.regs[rs1], imm);
            },
            Instruction::Slli { rd, rs1, imm } => {
                self.regs[rd] = alu(AluOp::Sll, self.regs[rs1], imm);
            },
            Instruction::Srli { rd, rs1, imm } => {
                self.regs[rd] = alu(AluOp::Srl, self.regs[rs1], imm);
            },
            Instruction::Srai { rd, rs1, imm } => {
                self.regs[rd] = alu(AluOp::Sra, self.regs[rs1], imm);
            },
            Instruction::Slti { rd, rs1, imm } => {
                self.regs[rd] = alu(AluOp::Slt, self.regs[rs1], imm);
            },
            Instruction::Sltiu { rd, rs1, imm } => {
                self.regs[rd] = alu(AluOp::Sltu, self.regs[rs1], imm);
            },
            Instruction::Lb { rd, rs1, imm } => {
                match self.memory.read_byte(address(self.regs[rs1], imm)) {
                    Ok(v) => self.regs[rd] = v as i32,
                    Err(e) => return Err(CpuError::MemoryError(e)),
                }
            },
            Instruction::Lbu { rd, rs1, imm } => {
                match self.memory.read_byte(address(self.regs[rs1], imm)) {
                    Ok(v) => self.regs[rd] = if v < 0 {
                        v as i32 + 0x100
                    } else {
                        v as i32
                    },
                    Err(e) => return Err(CpuError::MemoryError(e)),
                }
            },
            Instruction::Lh { rd, rs1, imm } => {
                match self.memory.read_halfword(address(self.regs[rs1], imm)) {
                    Ok(v) => self.regs[rd] = v as i32,
                    Err(e) => return Err(CpuError::MemoryError(e)),
                }
            },
            Instruction::Lhu { rd, rs1, imm } => {
                match self.memory.read_halfword(address(self.regs[rs1], imm)) {
                    Ok(v) => self.regs[rd] = if v < 0 {
                        v as i32 + 0x1_0000
                    } else {
                        v as i32
                    },
                    Err(e) => return Err(CpuError::MemoryError(e)),
                }
            },
            Instruction::Lw { rd, rs1, imm } => {
                match self.memory.read_word(address(self.regs[rs1], imm)) {
                    Ok(v) => self.regs[rd] = v,
                    Err(e) => return Err(CpuError::MemoryError(e)),
                }
            },
            Instruction::Sb { rs1, rs2, imm } => {
                let v = (to_unsigned(self.regs[rs1]) % 0x100) as u8;
                if let Err(e) = self.memory.write_byte(address(self.regs[rs2], imm), v) {
                    return Err(CpuError::MemoryError(e));
                }
            },
            Instruction::Sh { rs1, rs2, imm } => {
                let v = (to_unsigned(self.regs[rs1]) % 0x1_0000) as u16;
                if let Err(e) = self.memory.write_halfword(address(self.regs[rs2], imm), v) {
                    return Err(CpuError::MemoryError(e));
                }
            },
            Instruction::Sw { rs1, rs2, imm } => {
                let v = self.regs[rs1];
                if let Err(e) = self.memory.write_word(address(self.regs[rs2], imm), v) {
                    return Err(CpuError::MemoryError(e));
                }
            },
            Instruction::Beq { rs1, rs2, offset } => {
                if self.regs[rs1] == self.regs[rs2] {
                    next_pc = jump_target(pc as i128, offset);
                }
            },
            Instruction::Bne { rs1, rs2, offset } => {
                if self.regs[rs1] != self.regs[rs2] {
                    next_pc = jump_target(pc as i128, offset);
                }
            },
            Instruction::Blt { rs1, rs2, offset } => {
                if self.regs[rs1] < self.regs[rs2] {
                    next_pc = jump_target(pc as i128, offset);
                }
            },
            Instruction::Bltu { rs1, rs2, offset } => {
                if to_unsigned(self.regs[rs1]) < to_unsigned(self.regs[rs2]) {
                    next_pc = jump_target(pc as i128, offset);
                }
            },
            Instruction::Bge { rs1, rs2, offset } => {
                if self.regs[rs1] >= self.regs[rs2] {
                    next_pc = jump_target(pc as i128, offset);
                }
            },
            Instruction::Bgeu { rs1, rs2, offset } => {
                if to_unsigned(self.regs[rs1]) >= to_unsigned(self.regs[rs2]) {
                    next_pc = jump_target(pc as i128, offset);
                }
            },
            Instruction::Jal { rd, offset } => {
                self.regs[rd] = add_index(pc, 1);
                next_pc = jump_target(pc as i128, offset);
            },
            Instruction::Jalr { rd, rs1, imm } => {
                let base = self.regs[rs1];
                self.regs[rd] = add_index(pc, 1);
                next_pc = jump_target(base as i128, imm);
            },
            Instruction::Lui { rd, imm } => {
                self.regs[rd] = shift_upper(imm);
            },
            Instruction::Auipc { rd, imm } => {
                self.regs[rd] = add_index(pc, shift_upper(imm));
            },
            Instruction::Print { rs } => {
                emit_register(rs, self.regs[rs]);
            },
        }
        self.regs[0] = 0;
        self.pc = next_pc;
        Ok(true)
    }

    /// Appends `inst` to the program and executes it at once, as an interactive session does.
    pub fn execute_instruction(&mut self, inst: Instruction) -> (r: Result<bool, CpuError>)
        requires
            old(self).valid(),
            inst.regs_valid(),
        ensures
            final(self).valid(),
            ({
                let s = CpuState {
                    program: old(self)@.program.push(inst),
                    pc: old(self)@.program.len() as usize,
                    ..old(self)@
                };
                match step(s) {
                    Ok(t) => r == Ok::<bool, CpuError>(true) && final(self)@ == t,
                    Err(e) => r == Err::<bool, CpuError>(CpuError::MemoryError(e)) && final(self)@
                        == s,
                }
            }),
    {
        let ghost before = self.program@;
        self.pc = self.program.len();
        self.program.push(inst);
        assert(self.program@ == before.push(inst));
        assert forall|i: int| 0 <= i < self.program@.len() implies (
        #[trigger] self.program@[i]).regs_valid() by {
            if i < before.len() {
                assert(self.program@[i] == before[i]);
            }
        }
        self.execute_next()
    }
}

} // verus!
