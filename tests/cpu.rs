use riscviz::cpu::Cpu;
use riscviz::instruction::Instruction;

#[test]
fn cpu_test_div_by_zero() {
    let mut cpu = Cpu::default();
    cpu.load_program(vec![
        Instruction::Div { rd: 1, rs1: 5, rs2: 0 }
    ]);
    let result = cpu.execute_next();
    assert!(matches!(result, Ok(true)));
    assert_eq!(cpu.regs[1], -1);
}

#[test]
fn cpu_test_arithmetic_ops() {
    let mut cpu = Cpu::default();
    cpu.load_program(vec![
        Instruction::Addi { rd: 1, rs1: 0, imm: 10 },
        Instruction::Addi { rd: 2, rs1: 0, imm: 5 },
        Instruction::Add { rd: 3, rs1: 1, rs2: 2 },
        Instruction::Sub { rd: 4, rs1: 1, rs2: 2 },
        Instruction::Mul { rd: 5, rs1: 1, rs2: 2 },
        Instruction::Div { rd: 6, rs1: 1, rs2: 2 },
    ]);

    while cpu.execute_next().unwrap() {}

    assert_eq!(cpu.regs[1], 10);
    assert_eq!(cpu.regs[2], 5);
    assert_eq!(cpu.regs[3], 15);
    assert_eq!(cpu.regs[4], 5);
    assert_eq!(cpu.regs[5], 50);
    assert_eq!(cpu.regs[6], 2);
}

#[test]
fn cpu_test_branch_not_equal_loop() {
    let mut cpu = Cpu::default();
    cpu.load_program(vec![
        Instruction::Addi { rd: 5, rs1: 0, imm: 3 },
        Instruction::Addi { rd: 5, rs1: 5, imm: -1 },
        Instruction::Bne { rs1: 5, rs2: 0, offset: -1 },
    ]);

    let mut steps = 0;
    while cpu.execute_next().unwrap() && steps < 20 {
        steps += 1;
    }

    assert_eq!(cpu.regs[5], 0);
}

#[test]
fn cpu_test_branch_equal() {
    let mut cpu = Cpu::default();
    cpu.load_program(vec![
        Instruction::Addi { rd: 1, rs1: 0, imm: 5 },
        Instruction::Addi { rd: 2, rs1: 0, imm: 5 },
        Instruction::Beq { rs1: 1, rs2: 2, offset: 2 },
        Instruction::Addi { rd: 3, rs1: 0, imm: 99 },
        Instruction::Addi { rd: 4, rs1: 0, imm: 42 },
    ]);

    while cpu.execute_next().unwrap() {}

    assert_eq!(cpu.regs[3], 0);
    assert_eq!(cpu.regs[4], 42);
}

#[test]
fn test_branch_less_than() {
    let mut cpu = Cpu::default();
    cpu.load_program(vec![
        Instruction::Addi { rd: 1, rs1: 0, imm: 3 },
        Instruction::Addi { rd: 2, rs1: 0, imm: 5 },
        Instruction::Blt { rs1: 1, rs2: 2, offset: 2 },
        Instruction::Addi { rd: 3, rs1: 0, imm: 99 },
        Instruction::Addi { rd: 4, rs1: 0, imm: 42 },
    ]);

    while cpu.execute_next().unwrap() {}

    assert_eq!(cpu.regs[3], 0);
    assert_eq!(cpu.regs[4], 42);
}

#[test]
fn test_branch_greater_equal() {
    let mut cpu = Cpu::default();
    cpu.load_program(vec![
        Instruction::Addi { rd: 1, rs1: 0, imm: 7 },
        Instruction::Addi { rd: 2, rs1: 0, imm: 5 },
        Instruction::Bge { rs1: 1, rs2: 2, offset: 2 },
        Instruction::Addi { rd: 3, rs1: 0, imm: 99 },
        Instruction::Addi { rd: 4, rs1: 0, imm: 42 },
    ]);

    while cpu.execute_next().unwrap() {}

    assert_eq!(cpu.regs[3], 0);
    assert_eq!(cpu.regs[4], 42);
}

#[test]
fn cpu_test_memory_ops() {
    let mut cpu = Cpu::default();
    cpu.load_program(vec![
        Instruction::Addi { rd: 1, rs1: 0, imm: 100 },
        Instruction::Addi { rd: 2, rs1: 0, imm: 0 },
        Instruction::Sw { rs1: 1, rs2: 2, imm: 0 },
        Instruction::Lw { rd: 3, rs1: 2, imm: 0 },
    ]);

    while cpu.execute_next().unwrap() {}

    assert_eq!(cpu.regs[3], 100);
}

#[test]
fn cpu_test_x0_immutable() {
    let mut cpu = Cpu::default();
    cpu.load_program(vec![
        Instruction::Addi { rd: 0, rs1: 0, imm: 999 },
    ]);

    cpu.execute_next().unwrap();

    assert_eq!(cpu.regs[0], 0);
}

#[test]
fn test_program_counter_end() {
    let mut cpu = Cpu::default();
    cpu.load_program(vec![
        Instruction::Addi { rd: 1, rs1: 0, imm: 1 },
    ]);

    assert_eq!(cpu.execute_next().unwrap(), true);
    assert_eq!(cpu.execute_next().unwrap(), false);
}
#[test]
fn cpu_test_while_loop() {
    let mut cpu = Cpu::default();

    cpu.load_program(vec![
        // int i = 0;
        // while (i < 10) {
        //     i++;
        // }
        Instruction::Addi { rd: 1, rs1: 0, imm: 0 },
        Instruction::Addi { rd: 2, rs1: 0, imm: 10 },
        Instruction::Bge { rs1: 1, rs2: 2, offset: 2 },
        Instruction::Addi { rd: 1, rs1: 1, imm: 1 },
        Instruction::Blt { rs1: 1, rs2: 2, offset: -2 },
    ]);

    while cpu.execute_next().unwrap() {}
    assert_eq!(cpu.regs[1], 10);
}

#[test]
fn cpu_test_for_loop() {
    let mut cpu = Cpu::default();

    cpu.load_program(vec![
        // int sum = 0;
        // for (int i = 0; i < 5; i++) {
        //     sum += i;
        // }
        Instruction::Addi { rd: 1, rs1: 0, imm: 0 },
        Instruction::Addi { rd: 2, rs1: 0, imm: 5 },
        Instruction::Addi { rd: 3, rs1: 0, imm: 0 },
        Instruction::Bge { rs1: 1, rs2: 2, offset: 3 },
        Instruction::Add { rd: 3, rs1: 3, rs2: 1 },
        Instruction::Addi { rd: 1, rs1: 1, imm: 1 },
        Instruction::Blt { rs1: 1, rs2: 2, offset: -3 },
    ]);

    while cpu.execute_next().unwrap() {}
    assert_eq!(cpu.regs[3], 10);
}
#[test]
fn cpu_test_non_leaf_function() {
    let mut cpu = Cpu::default();

    cpu.load_program(vec![
        // int bar() { return 41; }
        Instruction::Addi { rd: 10, rs1: 0, imm: 41 },   // 0
        Instruction::Jalr { rd: 0, rs1: 1, imm: 0 },     // 1: return

        // int foo() { return bar() + 1; }
        Instruction::Addi { rd: 2, rs1: 2, imm: -4 },    // 2: sp -= 4
        Instruction::Sw   { rs1: 1, rs2: 2, imm: 0 },    // 3: save ra
        Instruction::Jal  { rd: 1, offset: -4 },         // 4: call bar (→0)
        Instruction::Addi { rd: 10, rs1: 10, imm: 1 },   // 5: result += 1
        Instruction::Lw   { rd: 1, rs1: 2, imm: 0 },     // 6: restore ra
        Instruction::Addi { rd: 2, rs1: 2, imm: 4 },     // 7: sp += 4
        Instruction::Jalr { rd: 0, rs1: 1, imm: 0 },     // 8: return

        // int main() { foo(); }
        Instruction::Jal  { rd: 1, offset: -7 },         // 9: call foo (→2)
    ]);

    cpu.pc = 9; // entry point
    while cpu.execute_next().unwrap() {}
    assert_eq!(cpu.regs[10], 42);
}
#[test]
fn cpu_test_simple_recursion() {
    let mut cpu = Cpu::default();

    cpu.load_program(vec![
        // int f(int n) {
        //     if (n == 0) return 0;
        //     return 1 + f(n - 1);
        // }
        Instruction::Beq  { rs1: 10, rs2: 0, offset: 9 },  // 0: if n==0 goto base
        Instruction::Addi { rd: 2, rs1: 2, imm: -4 },      // 1: sp -= 4
        Instruction::Sw   { rs1: 1, rs2: 2, imm: 0 },      // 2: save ra
        Instruction::Addi { rd: 10, rs1: 10, imm: -1 },    // 3: n -= 1
        Instruction::Jal  { rd: 1, offset: -4 },           // 4: call f(n-1)
        Instruction::Lw   { rd: 1, rs1: 2, imm: 0 },       // 5: restore ra
        Instruction::Addi { rd: 2, rs1: 2, imm: 4 },       // 6: sp += 4
        Instruction::Addi { rd: 10, rs1: 10, imm: 1 },     // 7: result += 1
        Instruction::Jalr { rd: 0, rs1: 1, imm: 0 },       // 8: return

        // base case: return 0
        Instruction::Addi { rd: 10, rs1: 0, imm: 0 },      // 9
        Instruction::Jalr { rd: 0, rs1: 1, imm: 0 },       // 10

        // int main() { f(3); }
        Instruction::Addi { rd: 10, rs1: 0, imm: 3 },      // 11
        Instruction::Jal  { rd: 1, offset: -12 },          // 12: call f
    ]);

    cpu.pc = 11; // entry point
    while cpu.execute_next().unwrap() {}
    assert_eq!(cpu.regs[10], 3);
}
