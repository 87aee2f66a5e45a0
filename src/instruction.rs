//! The instruction set: one variant per operation, each with the operand fields of its format.
use vstd::prelude::*;

verus! {

/// A decoded instruction.
///
/// Branch and jump offsets count instructions, not bytes: they are added to the index of
/// the instruction that carries them.
#[derive(Clone, Copy, Debug, PartialEq, Eq, Structural)]
pub enum Instruction {
    // Register-register operations.
    Add { rd: usize, rs1: usize, rs2: usize },
    Sub { rd: usize, rs1: usize, rs2: usize },
    Mul { rd: usize, rs1: usize, rs2: usize },
    Mulh { rd: usize, rs1: usize, rs2: usize },
    Mulhsu { rd: usize, rs1: usize, rs2: usize },
    Mulhu { rd: usize, rs1: usize, rs2: usize },
    Div { rd: usize, rs1: usize, rs2: usize },
    Divu { rd: usize, rs1: usize, rs2: usize },
    Rem { rd: usize, rs1: usize, rs2: usize },
    Remu { rd: usize, rs1: usize, rs2: usize },
    And { rd: usize, rs1: usize, rs2: usize },
    Or { rd: usize, rs1: usize, rs2: usize },
    Xor { rd: usize, rs1: usize, rs2: usize },
    Sll { rd: usize, rs1: usize, rs2: usize },
    Srl { rd: usize, rs1: usize, rs2: usize },
    Sra { rd: usize, rs1: usize, rs2: usize },
    Slt { rd: usize, rs1: usize, rs2: usize },
    Sltu { rd: usize, rs1: usize, rs2: usize },
    // Register-immediate operations, loads and `jalr`.
    Addi { rd: usize, rs1: usize, imm: i32 },
    Andi { rd: usize, rs1: usize, imm: i32 },
    Ori { rd: usize, rs1: usize, imm: i32 },
    Xori { rd: usize, rs1: usize, imm: i32 },
    Slli { rd: usize, rs1: usize, imm: i32 },
    Srli { rd: usize, rs1: usize, imm: i32 },
    Srai { rd: usize, rs1: usize, imm: i32 },
    Slti { rd: usize, rs1: usize, imm: i32 },
    Lw { rd: usize, rs1: usize, imm: i32 },
    Jalr { rd: usize, rs1: usize, imm: i32 },
    Lb { rd: usize, rs1: usize, imm: i32 },
    Lh { rd: usize, rs1: usize, imm: i32 },
    Lbu { rd: usize, rs1: usize, imm: i32 },
    Lhu { rd: usize, rs1: usize, imm: i32 },
    Sltiu { rd: usize, rs1: usize, imm: i32 },
    // Stores: the machine writes register `rs1` at address `reg[rs2] + imm`.
    Sw { rs1: usize, rs2: usize, imm: i32 },
    Sb { rs1: usize, rs2: usize, imm: i32 },
    Sh { rs1: usize, rs2: usize, imm: i32 },
    // Conditional branches.
    Beq { rs1: usize, rs2: usize, offset: i32 },
    Bne { rs1: usize, rs2: usize, offset: i32 },
    Blt { rs1: usize, rs2: usize, offset: i32 },
    Bltu { rs1: usize, rs2: usize, offset: i32 },
    Bge { rs1: usize, rs2: usize, offset: i32 },
    Bgeu { rs1: usize, rs2: usize, offset: i32 },
    // Jump and link.
    Jal { rd: usize, offset: i32 },
    // Upper immediates.
    Lui { rd: usize, imm: i32 },
    Auipc { rd: usize, imm: i32 },
    // Debug output of one register.
    Print { rs: usize },
}

/// A register index names one of the 32 registers.
pub open spec fn is_reg(r: usize) -> bool {
    r < 32
}

impl Instruction {
    /// Every register index of the instruction is in `0..32`.
    pub open spec fn regs_valid(self) -> bool {
        match self {
            Instruction::Add { rd, rs1, rs2 }
            | Instruction::Sub { rd, rs1, rs2 }
            | Instruction::Mul { rd, rs1, rs2 }
            | Instruction::Mulh { rd, rs1, rs2 }
            | Instruction::Mulhsu { rd, rs1, rs2 }
            | Instruction::Mulhu { rd, rs1, rs2 }
            | Instruction::Div { rd, rs1, rs2 }
            | Instruction::Divu { rd, rs1, rs2 }
            | Instruction::Rem { rd, rs1, rs2 }
            | Instruction::Remu { rd, rs1, rs2 }
            | Instruction::And { rd, rs1, rs2 }
            | Instruction::Or { rd, rs1, rs2 }
            | Instruction::Xor { rd, rs1, rs2 }
            | Instruction::Sll { rd, rs1, rs2 }
            | Instruction::Srl { rd, rs1, rs2 }
            | Instruction::Sra { rd, rs1, rs2 }
            | Instruction::Slt { rd, rs1, rs2 }
            | Instruction::Sltu { rd, rs1, rs2 } => is_reg(rd) && is_reg(rs1) && is_reg(rs2),
            Instruction::Addi { rd, rs1, .. }
            | Instruction::Andi { rd, rs1, .. }
            | Instruction::Ori { rd, rs1, .. }
            | Instruction::Xori { rd, rs1, .. }
            | Instruction::Slli { rd, rs1, .. }
            | Instruction::Srli { rd, rs1, .. }
            | Instruction::Srai { rd, rs1, .. }
            | Instruction::Slti { rd, rs1, .. }
            | Instruction::Lw { rd, rs1, .. }
            | Instruction::Jalr { rd, rs1, .. }
            | Instruction::Lb { rd, rs1, .. }
            | Instruction::Lh { rd, rs1, .. }
            | Instruction::Lbu { rd, rs1, .. }
            | Instruction::Lhu { rd, rs1, .. }
            | Instruction::Sltiu { rd, rs1, .. } => is_reg(rd) && is_reg(rs1),
            Instruction::Sw { rs1, rs2, .. }
            | Instruction::Sb { rs1, rs2, .. }
            | Instruction::Sh { rs1, rs2, .. }
            | Instruction::Beq { rs1, rs2, .. }
            | Instruction::Bne { rs1, rs2, .. }
            | Instruction::Blt { rs1, rs2, .. }
            | Instruction::Bltu { rs1, rs2, .. }
            | Instruction::Bge { rs1, rs2, .. }
            | Instruction::Bgeu { rs1, rs2, .. } => is_reg(rs1) && is_reg(rs2),
            Instruction::Jal { rd, .. } | Instruction::Lui { rd, .. } | Instruction::Auipc {
                rd,
                ..
            } => is_reg(rd),
            Instruction::Print { rs } => is_reg(rs),
        }
    }

    /// Whether every register index of the instruction is in `0..32`.
    pub fn registers_valid(&self) -> (r: bool)
        ensures
            r == self.regs_valid(),
    {
        match *self {
            Instruction::Add { rd, rs1, rs2 }
            | Instruction::Sub { rd, rs1, rs2 }
            | Instruction::Mul { rd, rs1, rs2 }
            | Instruction::Mulh { rd, rs1, rs2 }
            | Instruction::Mulhsu { rd, rs1, rs2 }
            | Instruction::Mulhu { rd, rs1, rs2 }
            | Instruction::Div { rd, rs1, rs2 }
            | Instruction::Divu { rd, rs1, rs2 }
            | Instruction::Rem { rd, rs1, rs2 }
            | Instruction::Remu { rd, rs1, rs2 }
            | Instruction::And { rd, rs1, rs2 }
            | Instruction::Or { rd, rs1, rs2 }
            | Instruction::Xor { rd, rs1, rs2 }
            | Instruction::Sll { rd, rs1, rs2 }
            | Instruction::Srl { rd, rs1, rs2 }
            | Instruction::Sra { rd, rs1, rs2 }
            | Instruction::Slt { rd, rs1, rs2 }
            | Instruction::Sltu { rd, rs1, rs2 } => rd < 32 && rs1 < 32 && rs2 < 32,
            Instruction::Addi { rd, rs1, .. }
            | Instruction::Andi { rd, rs1, .. }
            | Instruction::Ori { rd, rs1, .. }
            | Instruction::Xori { rd, rs1, .. }
            | Instruction::Slli { rd, rs1, .. }
            | Instruction::Srli { rd, rs1, .. }
            | Instruction::Srai { rd, rs1, .. }
            | Instruction::Slti { rd, rs1, .. }
            | Instruction::Lw { rd, rs1, .. }
            | Instruction::Jalr { rd, rs1, .. }
            | Instruction::Lb { rd, rs1, .. }
            | Instruction::Lh { rd, rs1, .. }
            | Instruction::Lbu { rd, rs1, .. }
            | Instruction::Lhu { rd, rs1, .. }
            | Instruction::Sltiu { rd, rs1, .. } => rd < 32 && rs1 < 32,
            Instruction::Sw { rs1, rs2, .. }
            | Instruction::Sb { rs1, rs2, .. }
            | Instruction::Sh { rs1, rs2, .. }
            | Instruction::Beq { rs1, rs2, .. }
            | Instruction::Bne { rs1, rs2, .. }
            | Instruction::Blt { rs1, rs2, .. }
            | Instruction::Bltu { rs1, rs2, .. }
            | Instruction::Bge { rs1, rs2, .. }
            | Instruction::Bgeu { rs1, rs2, .. } => rs1 < 32 && rs2 < 32,
            Instruction::Jal { rd, .. } | Instruction::Lui { rd, .. } | Instruction::Auipc {
                rd,
                ..
            } => rd < 32,
            Instruction::Print { rs } => rs < 32,
        }
    }
}

impl Instruction {
    /// A branch or a jump: an instruction whose target is written as a label.
    pub open spec fn is_jump(self) -> bool {
        self is Beq || self is Bne || self is Blt || self is Bltu || self is Bge || self is Bgeu
            || self is Jal
    }

    /// The instruction with its branch or jump offset set to `offset`; other instructions are
    /// unchanged.
    pub open spec fn with_offset(self, offset: i32) -> Instruction {
        match self {
            Instruction::Beq { rs1, rs2, .. } => Instruction::Beq { rs1, rs2, offset },
            Instruction::Bne { rs1, rs2, .. } => Instruction::Bne { rs1, rs2, offset },
            Instruction::Blt { rs1, rs2, .. } => Instruction::Blt { rs1, rs2, offset },
            Instruction::Bltu { rs1, rs2, .. } => Instruction::Bltu { rs1, rs2, offset },
            Instruction::Bge { rs1, rs2, .. } => Instruction::Bge { rs1, rs2, offset },
            Instruction::Bgeu { rs1, rs2, .. } => Instruction::Bgeu { rs1, rs2, offset },
            Instruction::Jal { rd, .. } => Instruction::Jal { rd, offset },
            _ => self,
        }
    }

    /// Whether the instruction is a branch or a jump.
    pub fn has_label_target(&self) -> (r: bool)
        ensures
            r == self.is_jump(),
    {
        match self {
            Instruction::Beq { .. } => true,
            Instruction::Bne { .. } => true,
            Instruction::Blt { .. } => true,
            Instruction::Bltu { .. } => true,
            Instruction::Bge { .. } => true,
            Instruction::Bgeu { .. } => true,
            Instruction::Jal { .. } => true,
            _ => false,
        }
    }

    /// Sets the offset of a branch or a jump to `offset`; leaves other instructions as
    /// they are.
    pub fn patch_label(&mut self, offset: i32)
        ensures
            *final(self) == old(self).with_offset(offset),
    {
        *self = match *self {
            Instruction::Beq { rs1, rs2, .. } => Instruction::Beq { rs1, rs2, offset },
            Instruction::Bne { rs1, rs2, .. } => Instruction::Bne { rs1, rs2, offset },
            Instruction::Blt { rs1, rs2, .. } => Instruction::Blt { rs1, rs2, offset },
            Instruction::Bltu { rs1, rs2, .. } => Instruction::Bltu { rs1, rs2, offset },
            Instruction::Bge { rs1, rs2, .. } => Instruction::Bge { rs1, rs2, offset },
            Instruction::Bgeu { rs1, rs2, .. } => Instruction::Bgeu { rs1, rs2, offset },
            Instruction::Jal { rd, .. } => Instruction::Jal { rd, offset },
            other => other,
        };
    }
}

/// Every instruction of the program names only valid registers.
pub open spec fn program_valid(p: Seq<Instruction>) -> bool {
    forall|i: int| 0 <= i < p.len() ==> (#[trigger] p[i]).regs_valid()
}

} // verus!
