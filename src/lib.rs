//! An interpreter for a 32-bit RISC-V-like instruction set, with a two-pass assembler.
//!
//! - `instruction`: the instructions and their operand fields.
//! - `alu`: register arithmetic, stated over mathematical integers.
//! - `memory`: a bounds- and alignment-checked little-endian byte store.
//! - `cpu`: the machine, its step function and the laws that the step obeys.
//! - `asm_parser`: source lines to instructions, labels to relative offsets.
//! - `utils`: running a whole program on a fresh machine.
pub mod alu;
pub mod asm_parser;
pub mod cpu;
pub mod instruction;
pub mod memory;
pub mod utils;
