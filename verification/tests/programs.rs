//! End-to-end tests: programs deposited into memory and run through the
//! fetch-decode-execute loop.

use risc240::cpu::{
    ConditionCode, Instr, CPU, OP_ADD, OP_ADDI, OP_AND, OP_BRA, OP_BRC, OP_BRN, OP_BRNZ, OP_BRV,
    OP_BRZ, OP_LW, OP_MV, OP_NOT, OP_OR, OP_SLL, OP_SLLI, OP_SLT, OP_SLTI, OP_SRA, OP_SRAI,
    OP_SRL, OP_SRLI, OP_STOP, OP_SUB, OP_SW, OP_XOR,
};

/// Deposits a program image word by word, starting at address 0.
fn load(cpu: &mut CPU, words: &[u16]) {
    for (k, w) in words.iter().enumerate() {
        cpu.mem.write_word((k * 2) as u16, *w);
    }
}

fn reg(cpu: &CPU, i: u8) -> u16 {
    cpu.rf.read(i, 0).0
}

#[test]
fn test_mv_addi_stop_end_to_end() {
    let mut cpu = CPU::new();
    load(
        &mut cpu,
        &[
            Instr::encode(OP_MV, 1, 0, 0),   // MV r1, r0
            Instr::encode(OP_ADDI, 1, 1, 0), // ADDI r1, r1, #5
            0x0005,
            Instr::encode(OP_STOP, 0, 0, 0), // STOP
        ],
    );
    cpu.run(100);
    assert_eq!(reg(&cpu, 1), 5);
    assert!(cpu.halted);
    // The program counter rests on the STOP instruction.
    assert_eq!(cpu.pc.read(), 6);
}

#[test]
fn test_store_load_end_to_end() {
    let mut cpu = CPU::new();
    load(
        &mut cpu,
        &[
            Instr::encode(OP_ADDI, 1, 0, 0), // LI r1, #0x1234
            0x1234,
            Instr::encode(OP_SW, 0, 0, 1), // SW r1, r0, #0x10
            0x0010,
            Instr::encode(OP_LW, 2, 0, 0), // LW r2, r0, #0x10
            0x0010,
            Instr::encode(OP_STOP, 0, 0, 0),
        ],
    );
    cpu.run(100);
    assert!(cpu.halted);
    assert_eq!(cpu.mem.read_word(0x0010), 0x1234);
    assert_eq!(reg(&cpu, 2), 0x1234);
}

#[test]
fn test_add_overflow_sets_v_not_c() {
    let mut cpu = CPU::new();
    load(
        &mut cpu,
        &[
            Instr::encode(OP_ADDI, 1, 0, 0), // LI r1, #0x7FFF
            0x7FFF,
            Instr::encode(OP_ADDI, 2, 0, 0), // LI r2, #1
            0x0001,
            Instr::encode(OP_ADD, 3, 1, 2), // ADD r3, r1, r2
        ],
    );
    cpu.step();
    cpu.step();
    cpu.step();
    assert_eq!(reg(&cpu, 3), 0x8000);
    assert!(cpu.cc.get(ConditionCode::V));
    assert!(!cpu.cc.get(ConditionCode::C));
    assert!(cpu.cc.get(ConditionCode::N));
    assert!(!cpu.cc.get(ConditionCode::Z));
}

#[test]
fn test_add_carry_sets_c_and_z_not_v() {
    let mut cpu = CPU::new();
    load(
        &mut cpu,
        &[
            Instr::encode(OP_ADDI, 1, 0, 0), // LI r1, #0xFFFF
            0xFFFF,
            Instr::encode(OP_ADDI, 2, 0, 0), // LI r2, #1
            0x0001,
            Instr::encode(OP_ADD, 3, 1, 2), // ADD r3, r1, r2
        ],
    );
    cpu.step();
    cpu.step();
    cpu.step();
    assert_eq!(reg(&cpu, 3), 0x0000);
    assert!(cpu.cc.get(ConditionCode::C));
    assert!(cpu.cc.get(ConditionCode::Z));
    assert!(!cpu.cc.get(ConditionCode::V));
    assert!(!cpu.cc.get(ConditionCode::N));
}

#[test]
fn test_brz_taken_goes_to_target() {
    let mut cpu = CPU::new();
    load(
        &mut cpu,
        &[
            Instr::encode(OP_ADD, 1, 0, 0), // ADD r1, r0, r0 : result 0, sets Z
            Instr::encode(OP_BRZ, 0, 0, 0), // BRZ #0x10
            0x0010,
        ],
    );
    cpu.mem.write_word(0x0010, Instr::encode(OP_STOP, 0, 0, 0));
    cpu.step();
    assert!(cpu.cc.get(ConditionCode::Z));
    cpu.step();
    // The program counter equals the branch target, not the fall-through.
    assert_eq!(cpu.pc.read(), 0x0010);
    assert_ne!(cpu.pc.read(), 0x0006);
    assert!(!cpu.halted);
    cpu.step();
    assert!(cpu.halted);
}

#[test]
fn test_bra_is_unconditional() {
    let mut cpu = CPU::new();
    load(
        &mut cpu,
        &[
            Instr::encode(OP_BRA, 0, 0, 0), // BRA #0x30, with no flag set
            0x0030,
        ],
    );
    cpu.mem.write_word(0x0030, Instr::encode(OP_STOP, 0, 0, 0));
    cpu.run(100);
    assert!(cpu.halted);
    assert_eq!(cpu.pc.read(), 0x0030);
}

#[test]
fn test_mv_copies_value() {
    let mut cpu = CPU::new();
    load(
        &mut cpu,
        &[
            Instr::encode(OP_ADDI, 1, 0, 0), // LI r1, #9
            0x0009,
            Instr::encode(OP_MV, 2, 1, 0), // MV r2, r1
            Instr::encode(OP_STOP, 0, 0, 0),
        ],
    );
    cpu.run(100);
    assert_eq!(reg(&cpu, 2), 9);
    // MV defines no flags: the Zero flag stays clear even though r0 reads 0.
    assert!(!cpu.cc.get(ConditionCode::ALL));
}

#[test]
fn test_branch_not_taken_falls_through() {
    let mut cpu = CPU::new();
    load(
        &mut cpu,
        &[
            Instr::encode(OP_BRC, 0, 0, 0), // BRC with Carry clear
            0x0020,
        ],
    );
    cpu.step();
    assert_eq!(cpu.pc.read(), 4);
    assert!(!cpu.halted);
}

#[test]
fn test_brn_taken_after_negative_result() {
    let mut cpu = CPU::new();
    load(
        &mut cpu,
        &[
            Instr::encode(OP_ADDI, 1, 0, 0), // LI r1, #1
            0x0001,
            Instr::encode(OP_SUB, 3, 0, 1), // SUB r3, r0, r1 : 0xFFFF, sets N
            Instr::encode(OP_BRN, 0, 0, 0), // BRN #0x20
            0x0020,
        ],
    );
    cpu.mem.write_word(0x0020, Instr::encode(OP_STOP, 0, 0, 0));
    cpu.run(100);
    assert!(cpu.halted);
    assert_eq!(cpu.pc.read(), 0x0020);
    assert_eq!(reg(&cpu, 3), 0xFFFF);
}

#[test]
fn test_brnz_taken_after_nonzero_result() {
    let mut cpu = CPU::new();
    load(
        &mut cpu,
        &[
            Instr::encode(OP_ADDI, 1, 0, 0), // LI r1, #1
            0x0001,
            Instr::encode(OP_ADD, 3, 1, 0),  // ADD r3, r1, r0 : 1, clears Z
            Instr::encode(OP_BRNZ, 0, 0, 0), // BRNZ #0x20
            0x0020,
        ],
    );
    cpu.mem.write_word(0x0020, Instr::encode(OP_STOP, 0, 0, 0));
    cpu.run(100);
    assert!(cpu.halted);
    assert_eq!(cpu.pc.read(), 0x0020);
}

#[test]
fn test_brv_taken_after_signed_overflow() {
    let mut cpu = CPU::new();
    load(
        &mut cpu,
        &[
            Instr::encode(OP_ADDI, 1, 0, 0), // LI r1, #0x7FFF
            0x7FFF,
            Instr::encode(OP_ADD, 3, 1, 1), // ADD r3, r1, r1 : signed overflow
            Instr::encode(OP_BRV, 0, 0, 0), // BRV #0x20
            0x0020,
        ],
    );
    cpu.mem.write_word(0x0020, Instr::encode(OP_STOP, 0, 0, 0));
    cpu.run(100);
    assert!(cpu.halted);
    assert_eq!(cpu.pc.read(), 0x0020);
    assert_eq!(reg(&cpu, 3), 0xFFFE);
}

#[test]
fn test_sub_flags() {
    let mut cpu = CPU::new();
    load(
        &mut cpu,
        &[
            Instr::encode(OP_ADDI, 1, 0, 0), // LI r1, #7
            0x0007,
            Instr::encode(OP_SUB, 2, 1, 1), // SUB r2, r1, r1 : 0
        ],
    );
    cpu.step();
    cpu.step();
    assert_eq!(reg(&cpu, 2), 0);
    assert!(cpu.cc.get(ConditionCode::Z));
    // No borrow: the two's-complement carry out is set.
    assert!(cpu.cc.get(ConditionCode::C));
    assert!(!cpu.cc.get(ConditionCode::N));
    assert!(!cpu.cc.get(ConditionCode::V));
}

#[test]
fn test_logic_ops_and_flag_preservation() {
    let mut cpu = CPU::new();
    load(
        &mut cpu,
        &[
            Instr::encode(OP_ADDI, 1, 0, 0), // LI r1, #0xFFFF
            0xFFFF,
            Instr::encode(OP_ADDI, 2, 0, 0), // LI r2, #1
            0x0001,
            Instr::encode(OP_ADD, 3, 1, 2), // ADD r3, r1, r2 : sets C and Z
            Instr::encode(OP_AND, 4, 1, 2), // AND r4, r1, r2 : 1
            Instr::encode(OP_OR, 5, 1, 2),  // OR r5, r1, r2 : 0xFFFF
            Instr::encode(OP_XOR, 6, 1, 2), // XOR r6, r1, r2 : 0xFFFE
            Instr::encode(OP_NOT, 7, 1, 0), // NOT r7, r1 : 0
        ],
    );
    for _ in 0..4 {
        cpu.step();
    }
    // After AND: result 1, so Z clears and N clears, but C (and V) persist.
    assert_eq!(reg(&cpu, 4), 0x0001);
    assert!(!cpu.cc.get(ConditionCode::Z));
    assert!(cpu.cc.get(ConditionCode::C));
    assert!(!cpu.cc.get(ConditionCode::V));
    cpu.step();
    assert_eq!(reg(&cpu, 5), 0xFFFF);
    assert!(cpu.cc.get(ConditionCode::N));
    assert!(cpu.cc.get(ConditionCode::C));
    cpu.step();
    assert_eq!(reg(&cpu, 6), 0xFFFE);
    cpu.step();
    // NOT defines no flags: Z stays as XOR left it (clear), C persists.
    assert_eq!(reg(&cpu, 7), 0x0000);
    assert!(!cpu.cc.get(ConditionCode::Z));
    assert!(cpu.cc.get(ConditionCode::C));
}

#[test]
fn test_shifts() {
    let mut cpu = CPU::new();
    load(
        &mut cpu,
        &[
            Instr::encode(OP_ADDI, 1, 0, 0), // LI r1, #0x8001
            0x8001,
            Instr::encode(OP_ADDI, 2, 0, 0), // LI r2, #4
            0x0004,
            Instr::encode(OP_SLL, 3, 1, 2),  // SLL r3, r1, r2 : 0x0010
            Instr::encode(OP_SRL, 4, 1, 2),  // SRL r4, r1, r2 : 0x0800
            Instr::encode(OP_SRA, 5, 1, 2),  // SRA r5, r1, r2 : 0xF800
            Instr::encode(OP_SLLI, 6, 1, 1), // SLLI r6, r1, #1 : 0x0002
            Instr::encode(OP_SRAI, 7, 1, 1), // SRAI r7, r1, #1 : 0xC000
        ],
    );
    for _ in 0..7 {
        cpu.step();
    }
    assert_eq!(reg(&cpu, 3), 0x0010);
    assert_eq!(reg(&cpu, 4), 0x0800);
    assert_eq!(reg(&cpu, 5), 0xF800);
    assert_eq!(reg(&cpu, 6), 0x0002);
    assert_eq!(reg(&cpu, 7), 0xC000);
}

#[test]
fn test_shift_by_sixteen_or_more() {
    let mut cpu = CPU::new();
    load(
        &mut cpu,
        &[
            Instr::encode(OP_ADDI, 1, 0, 0), // LI r1, #0x8001 (negative)
            0x8001,
            Instr::encode(OP_ADDI, 2, 0, 0), // LI r2, #16
            0x0010,
            Instr::encode(OP_SLL, 3, 1, 2), // SLL r3, r1, r2 : 0
            Instr::encode(OP_SRL, 4, 1, 2), // SRL r4, r1, r2 : 0
            Instr::encode(OP_SRA, 5, 1, 2), // SRA r5, r1, r2 : sign fill
            Instr::encode(OP_SRLI, 6, 1, 0), // SRLI r6, r1, #0 : unchanged
        ],
    );
    for _ in 0..6 {
        cpu.step();
    }
    assert_eq!(reg(&cpu, 3), 0x0000);
    assert_eq!(reg(&cpu, 4), 0x0000);
    assert_eq!(reg(&cpu, 5), 0xFFFF);
    assert_eq!(reg(&cpu, 6), 0x8001);
}

#[test]
fn test_slt_signed() {
    let mut cpu = CPU::new();
    load(
        &mut cpu,
        &[
            Instr::encode(OP_ADDI, 1, 0, 0), // LI r1, #0xFFFF (-1)
            0xFFFF,
            Instr::encode(OP_ADDI, 2, 0, 0), // LI r2, #1
            0x0001,
            Instr::encode(OP_SLT, 3, 1, 2),  // SLT r3, r1, r2 : -1 < 1
            Instr::encode(OP_SLT, 4, 2, 1),  // SLT r4, r2, r1 : 1 < -1 is false
            Instr::encode(OP_SLTI, 5, 1, 0), // SLTI r5, r1, #0 : -1 < 0
            0x0000,
            Instr::encode(OP_SLTI, 6, 1, 0), // SLTI r6, r1, #0xFFFE : -1 < -2 is false
            0xFFFE,
        ],
    );
    for _ in 0..6 {
        cpu.step();
    }
    assert_eq!(reg(&cpu, 3), 1);
    assert_eq!(reg(&cpu, 4), 0);
    assert_eq!(reg(&cpu, 5), 1);
    assert_eq!(reg(&cpu, 6), 0);
}

#[test]
fn test_unrecognized_opcode_is_noop() {
    let mut cpu = CPU::new();
    // Opcode 0x7E names no operation: the word 0xFC00 executes as a no-op.
    load(&mut cpu, &[0xFC00]);
    cpu.step();
    assert_eq!(cpu.pc.read(), 2);
    assert!(!cpu.halted);
    for i in 0..8 {
        assert_eq!(reg(&cpu, i), 0);
    }
    assert!(!cpu.cc.get(ConditionCode::ALL));
}

#[test]
fn test_write_to_r0_is_discarded() {
    let mut cpu = CPU::new();
    load(
        &mut cpu,
        &[
            Instr::encode(OP_ADDI, 0, 0, 0), // ADDI r0, r0, #5
            0x0005,
            Instr::encode(OP_STOP, 0, 0, 0),
        ],
    );
    cpu.run(100);
    assert!(cpu.halted);
    assert_eq!(reg(&cpu, 0), 0);
    assert_eq!(cpu.rf.read(0, 0), (0, 0));
}

#[test]
fn test_run_step_limit_stops_runaway_program() {
    let mut cpu = CPU::new();
    // All-zero memory decodes as ADD r0, r0, r0 forever; no STOP is reached.
    cpu.run(10);
    assert!(!cpu.halted);
    assert_eq!(cpu.pc.read(), 20);
}

#[test]
fn test_addi_wraps_around() {
    let mut cpu = CPU::new();
    load(
        &mut cpu,
        &[
            Instr::encode(OP_ADDI, 1, 0, 0), // LI r1, #0xFFFF
            0xFFFF,
            Instr::encode(OP_ADDI, 1, 1, 0), // ADDI r1, r1, #2
            0x0002,
            Instr::encode(OP_STOP, 0, 0, 0),
        ],
    );
    cpu.run(100);
    assert_eq!(reg(&cpu, 1), 1);
}

#[test]
fn test_init_allows_a_fresh_run() {
    let mut cpu = CPU::new();
    load(
        &mut cpu,
        &[
            Instr::encode(OP_ADDI, 1, 1, 0), // ADDI r1, r1, #5
            0x0005,
            Instr::encode(OP_STOP, 0, 0, 0),
        ],
    );
    cpu.run(100);
    assert!(cpu.halted);
    assert_eq!(reg(&cpu, 1), 5);
    cpu.init();
    assert!(!cpu.halted);
    assert_eq!(cpu.pc.read(), 0);
    // The program image and registers survive re-initialization.
    assert_eq!(cpu.mem.read_word(0), Instr::encode(OP_ADDI, 1, 1, 0));
    assert_eq!(reg(&cpu, 1), 5);
    cpu.run(100);
    assert!(cpu.halted);
    assert_eq!(reg(&cpu, 1), 10);
}

#[test]
fn test_cpu_new_is_zeroed() {
    let cpu = CPU::new();
    assert_eq!(cpu.pc.read(), 0);
    assert!(!cpu.halted);
    for i in 0..8 {
        assert_eq!(reg(&cpu, i), 0);
    }
    assert!(!cpu.cc.get(ConditionCode::ALL));
    assert_eq!(cpu.mem.read_word(0x8000), 0);
}
