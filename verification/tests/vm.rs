use riscv_vm::vm::bus::{Bus, DRAM_BASE};
use riscv_vm::vm::cpu::Cpu;

#[test]
fn test_add_instructions() {
    let mut bus = Bus::new();

    // Instructions:
    // addi x1, x0, 1  -> 00100093 (opcode 0x13, rd=1, rs1=0, imm=1, funct3=0)
    // addi x2, x0, 1  -> 00100113 (opcode 0x13, rd=2, rs1=0, imm=1, funct3=0)
    // add x3, x1, x2  -> 002081b3 (opcode 0x33, rd=3, rs1=1, rs2=2, funct3=0, funct7=0)

    // Little endian encoding:
    // 00100093 -> 93 00 10 00
    // 00100113 -> 13 01 10 00
    // 002081b3 -> b3 81 20 00

    let code = vec![
        0x93, 0x00, 0x10, 0x00, 0x13, 0x01, 0x10, 0x00, 0xb3, 0x81, 0x20, 0x00,
    ];

    bus.initialize_dram(&code)
        .expect("Failed to initialize DRAM");

    let mut cpu = Cpu::new(bus);

    // Run 3 steps
    cpu.step().expect("Step 1 failed"); // addi x1, x0, 1
    cpu.step().expect("Step 2 failed"); // addi x2, x0, 1
    cpu.step().expect("Step 3 failed"); // add x3, x1, x2

    assert_eq!(cpu.read_reg(1), 1);
    assert_eq!(cpu.read_reg(2), 1);
    assert_eq!(cpu.read_reg(3), 2);
}

#[test]
fn test_memory_and_jumps() {
    let mut bus = Bus::new();

    // 0: LUI x2, 0x80000     -> x2 = 0xffffffff80000000
    //    0x80000137 -> 37 01 00 80

    // 4: SLLI x2, x2, 32     -> x2 = 0x8000000000000000
    //    0x02011113 -> 13 11 01 02

    // 8: SRLI x2, x2, 32     -> x2 = 0x0000000080000000
    //    0x02015113 -> 13 51 01 02

    // 12: ADDI x1, x0, 42    -> x1 = 42
    //    0x02a00093 -> 93 00 a0 02

    // 16: SW x1, 0(x2)       -> mem[0x80000000] = 42
    //    0x00112023 -> 23 20 11 00

    // 20: LW x3, 0(x2)       -> x3 = 42
    //     0x00012183 -> 83 21 01 00

    // 24: JAL x0, 8          -> pc += 8. Skip next instruction.
    //     0x0080006f -> 6f 00 80 00

    // 28: ADDI x3, x3, 1     (Should be skipped)
    //     0x00118193 -> 93 81 11 00

    // 32: ADDI x3, x3, 2     (Target)
    //     0x00218193 -> 93 81 21 00

    let code = vec![
        0x37, 0x01, 0x00, 0x80, 0x13, 0x11, 0x01, 0x02, 0x13, 0x51, 0x01, 0x02, 0x93, 0x00,
        0xa0, 0x02, 0x23, 0x20, 0x11, 0x00, 0x83, 0x21, 0x01, 0x00, 0x6f, 0x00, 0x80, 0x00,
        0x93, 0x81, 0x11, 0x00, 0x93, 0x81, 0x21, 0x00,
    ];

    bus.initialize_dram(&code)
        .expect("Failed to initialize DRAM");
    let mut cpu = Cpu::new(bus);

    // Execute steps
    cpu.step().expect("Step 1 (LUI) failed");
    assert_eq!(cpu.read_reg(2), 0xffffffff80000000);

    cpu.step().expect("Step 2 (SLLI) failed");
    assert_eq!(cpu.read_reg(2), 0x8000000000000000);

    cpu.step().expect("Step 3 (SRLI) failed");
    assert_eq!(cpu.read_reg(2), 0x80000000);

    cpu.step().expect("Step 4 (ADDI) failed");
    assert_eq!(cpu.read_reg(1), 42);

    cpu.step().expect("Step 5 (SW) failed");

    cpu.step().expect("Step 6 (LW) failed");
    assert_eq!(cpu.read_reg(3), 42);

    cpu.step().expect("Step 7 (JAL) failed");
    // PC should be 24 + 8 = 32. (0x80000020)
    assert_eq!(cpu.pc, DRAM_BASE + 32);

    cpu.step().expect("Step 8 (ADDI target) failed");
    // x3 was 42. +2 = 44.
    assert_eq!(cpu.read_reg(3), 44);
}

#[test]
fn test_branch_instructions() {
    fn encode_branch(funct3: u32, rs1: u32, rs2: u32, imm: i32) -> u32 {
        assert_eq!(imm % 2, 0, "Branch immediate must be 2-byte aligned");
        assert!(
            (-4096..=4094).contains(&imm),
            "Immediate out of 13-bit branch range"
        );
        let imm_u = (imm as u32) & 0x1fff;
        let imm12 = ((imm_u >> 12) & 0x1) << 31;
        let imm10_5 = ((imm_u >> 5) & 0x3f) << 25;
        let imm4_1 = ((imm_u >> 1) & 0xf) << 8;
        let imm11 = ((imm_u >> 11) & 0x1) << 7;

        imm12 | imm10_5 | (rs2 << 20) | (rs1 << 15) | (funct3 << 12) | imm4_1 | imm11 | 0x63
    }

    let bus = Bus::new();
    let mut cpu = Cpu::new(bus);

    // BEQ: taken
    cpu.pc = DRAM_BASE;
    cpu.regs[1] = 5;
    cpu.regs[2] = 5;
    let beq = encode_branch(0x0, 1, 2, 8);
    cpu.execute(beq).expect("BEQ failed");
    assert_eq!(cpu.pc, DRAM_BASE + 8);

    // BNE: taken with negative offset
    cpu.pc = DRAM_BASE + 16;
    cpu.regs[1] = 1;
    cpu.regs[2] = 2;
    let bne = encode_branch(0x1, 1, 2, -8);
    cpu.execute(bne).expect("BNE failed");
    assert_eq!(cpu.pc, DRAM_BASE + 8);

    // BLT: signed comparison
    cpu.pc = DRAM_BASE;
    cpu.regs[3] = (-1i64) as u64;
    cpu.regs[4] = 1;
    let blt = encode_branch(0x4, 3, 4, 12);
    cpu.execute(blt).expect("BLT failed");
    assert_eq!(cpu.pc, DRAM_BASE + 12);

    // BGE: not taken (signed)
    cpu.pc = DRAM_BASE;
    cpu.regs[5] = (-1i64) as u64;
    cpu.regs[6] = 10;
    let bge = encode_branch(0x5, 5, 6, 12);
    cpu.execute(bge).expect("BGE failed");
    assert_eq!(cpu.pc, DRAM_BASE + 4);

    // BLTU: unsigned comparison taken
    cpu.pc = DRAM_BASE;
    cpu.regs[7] = 1;
    cpu.regs[8] = 2;
    let bltu = encode_branch(0x6, 7, 8, 10);
    cpu.execute(bltu).expect("BLTU failed");
    assert_eq!(cpu.pc, DRAM_BASE + 10);

    // BGEU: unsigned comparison taken
    cpu.pc = DRAM_BASE;
    cpu.regs[9] = 10;
    cpu.regs[10] = 1;
    let bgeu = encode_branch(0x7, 9, 10, 14);
    cpu.execute(bgeu).expect("BGEU failed");
    assert_eq!(cpu.pc, DRAM_BASE + 14);
}

#[test]
fn test_bus_load_store() {
    let mut bus = Bus::new();

    // Test loading a dummy binary
    let dummy_binary = vec![0xAA, 0xBB, 0xCC, 0xDD];
    bus.initialize_dram(&dummy_binary)
        .expect("Failed to initialize DRAM");

    // Read back from 0x8000_0000 (DRAM base)
    let val = bus.load(0x8000_0000, 1).expect("Failed to load byte");
    assert_eq!(val, 0xAA);

    let val = bus.load(0x8000_0001, 1).expect("Failed to load byte");
    assert_eq!(val, 0xBB);

    // Test 32-bit load
    let val = bus.load(0x8000_0000, 4).expect("Failed to load word");
    // Little endian: 0xDDCCBBAA
    assert_eq!(val, 0xDDCCBBAA);
}
