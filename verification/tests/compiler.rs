use riscv_vm::engine::block::Block;
use riscv_vm::engine::microop::MicroOp;
use riscv_vm::jit::compiler::{is_backward_branch, JitCompiler};
use riscv_vm::jit::encoder::WasmModuleBuilder;
use riscv_vm::jit::types::{CompilationResult, JitConfig};
use riscv_vm::jit::wasm::{Instruction, ValType};

fn make_test_block(ops: &[MicroOp]) -> Block {
    let mut block = Block::new(0x8000_0000, 0x8000_0000, 0);
    for op in ops {
        block.push(*op, 4);
    }
    block
}

#[test]
fn test_compile_addi() {
    let mut compiler = JitCompiler::default();
    let block = make_test_block(&[
        MicroOp::Addi {
            rd: 1,
            rs1: 0,
            imm: 42,
        },
        MicroOp::Addi {
            rd: 2,
            rs1: 1,
            imm: 10,
        },
        MicroOp::Add {
            rd: 3,
            rs1: 1,
            rs2: 2,
        },
        MicroOp::Lui {
            rd: 4,
            imm: 0x12345000,
        },
    ]);

    match compiler.compile(&block) {
        CompilationResult::Success(bytes) => {
            assert!(!bytes.is_empty());
            println!("Compiled {} ops to {} WASM bytes", block.len, bytes.len());
        }
        other => panic!("Expected Success, got {:?}", other),
    }
}

#[test]
fn test_compile_load_store() {
    let mut compiler = JitCompiler::default();

    // Block with load and store operations
    let block = make_test_block(&[
        // Load doubleword
        MicroOp::Ld {
            rd: 1,
            rs1: 0,
            imm: 0x8000_0000,
            pc_offset: 0,
        },
        // Store doubleword
        MicroOp::Sd {
            rs1: 0,
            rs2: 1,
            imm: 0x8000_0008,
            pc_offset: 4,
        },
        // Load word (sign-extended)
        MicroOp::Lw {
            rd: 2,
            rs1: 0,
            imm: 0x8000_0000,
            pc_offset: 8,
        },
        // Store word
        MicroOp::Sw {
            rs1: 0,
            rs2: 2,
            imm: 0x8000_0010,
            pc_offset: 12,
        },
    ]);

    match compiler.compile(&block) {
        CompilationResult::Success(bytes) => {
            assert!(!bytes.is_empty());
            println!(
                "Compiled {} memory ops to {} WASM bytes",
                block.len,
                bytes.len()
            );
            // Verify WASM magic bytes
            assert_eq!(&bytes[0..4], b"\x00asm");
        }
        other => panic!("Expected Success, got {:?}", other),
    }
}

#[test]
fn test_compile_all_loads() {
    let mut compiler = JitCompiler::default();

    let block = make_test_block(&[
        MicroOp::Ld {
            rd: 1,
            rs1: 0,
            imm: 0,
            pc_offset: 0,
        },
        MicroOp::Lw {
            rd: 2,
            rs1: 0,
            imm: 8,
            pc_offset: 4,
        },
        MicroOp::Lwu {
            rd: 3,
            rs1: 0,
            imm: 12,
            pc_offset: 8,
        },
        MicroOp::Lh {
            rd: 4,
            rs1: 0,
            imm: 16,
            pc_offset: 12,
        },
        MicroOp::Lhu {
            rd: 5,
            rs1: 0,
            imm: 18,
            pc_offset: 16,
        },
        MicroOp::Lb {
            rd: 6,
            rs1: 0,
            imm: 20,
            pc_offset: 20,
        },
        MicroOp::Lbu {
            rd: 7,
            rs1: 0,
            imm: 21,
            pc_offset: 24,
        },
    ]);

    match compiler.compile(&block) {
        CompilationResult::Success(bytes) => {
            assert!(!bytes.is_empty());
            println!("All loads compiled to {} WASM bytes", bytes.len());
        }
        other => panic!("Expected Success, got {:?}", other),
    }
}

#[test]
fn test_compile_all_stores() {
    let mut compiler = JitCompiler::default();

    let block = make_test_block(&[
        MicroOp::Sd {
            rs1: 0,
            rs2: 1,
            imm: 0,
            pc_offset: 0,
        },
        MicroOp::Sw {
            rs1: 0,
            rs2: 2,
            imm: 8,
            pc_offset: 4,
        },
        MicroOp::Sh {
            rs1: 0,
            rs2: 3,
            imm: 12,
            pc_offset: 8,
        },
        MicroOp::Sb {
            rs1: 0,
            rs2: 4,
            imm: 14,
            pc_offset: 12,
        },
    ]);

    match compiler.compile(&block) {
        CompilationResult::Success(bytes) => {
            assert!(!bytes.is_empty());
            println!("All stores compiled to {} WASM bytes", bytes.len());
        }
        other => panic!("Expected Success, got {:?}", other),
    }
}

#[test]
fn test_write_to_x0_is_nop() {
    let mut compiler = JitCompiler::default();

    // Writes to x0 should compile but be no-ops
    let block = make_test_block(&[
        MicroOp::Ld {
            rd: 0,
            rs1: 1,
            imm: 0,
            pc_offset: 0,
        },
        MicroOp::Addi {
            rd: 0,
            rs1: 1,
            imm: 42,
        },
        MicroOp::Add {
            rd: 0,
            rs1: 1,
            rs2: 2,
        },
        MicroOp::Lui { rd: 0, imm: 0x1000 },
    ]);

    match compiler.compile(&block) {
        CompilationResult::Success(bytes) => {
            assert!(!bytes.is_empty());
            println!(
                "x0 writes compiled to {} WASM bytes (should be minimal)",
                bytes.len()
            );
        }
        other => panic!("Expected Success, got {:?}", other),
    }
}

#[test]
fn test_unsuitable_block() {
    let mut compiler = JitCompiler::default();

    // Block with ecall (not JIT-able)
    let block = make_test_block(&[
        MicroOp::Addi {
            rd: 17,
            rs1: 0,
            imm: 93,
        }, // a7 = 93 (exit)
        MicroOp::Addi {
            rd: 10,
            rs1: 0,
            imm: 0,
        }, // a0 = 0
        MicroOp::Ecall { pc_offset: 8 },
    ]);

    match compiler.compile(&block) {
        CompilationResult::Unsuitable => {}
        other => panic!("Expected Unsuitable, got {:?}", other),
    }
}

#[test]
fn test_small_block_unsuitable() {
    let mut compiler = JitCompiler::default();

    // Block too small (less than min_block_size)
    let block = make_test_block(&[MicroOp::Addi {
        rd: 1,
        rs1: 0,
        imm: 1,
    }]);

    match compiler.compile(&block) {
        CompilationResult::Unsuitable => {}
        other => panic!("Expected Unsuitable (too small), got {:?}", other),
    }
}

// Branch Instruction Tests

#[test]
fn test_compile_beq() {
    let mut compiler = JitCompiler::default();

    let block = make_test_block(&[
        MicroOp::Addi {
            rd: 1,
            rs1: 0,
            imm: 5,
        },
        MicroOp::Addi {
            rd: 2,
            rs1: 0,
            imm: 5,
        },
        MicroOp::Addi {
            rd: 3,
            rs1: 0,
            imm: 10,
        },
        MicroOp::Beq {
            rs1: 1,
            rs2: 2,
            imm: 8,
            pc_offset: 12,
            insn_len: 4,
        },
    ]);

    match compiler.compile(&block) {
        CompilationResult::Success(bytes) => {
            assert!(!bytes.is_empty());
            assert_eq!(&bytes[0..4], b"\x00asm");
            println!("BEQ compiled to {} WASM bytes", bytes.len());
        }
        other => panic!("Expected Success, got {:?}", other),
    }
}

#[test]
fn test_compile_bne() {
    let mut compiler = JitCompiler::default();

    let block = make_test_block(&[
        MicroOp::Addi {
            rd: 1,
            rs1: 0,
            imm: 5,
        },
        MicroOp::Addi {
            rd: 2,
            rs1: 0,
            imm: 10,
        },
        MicroOp::Addi {
            rd: 3,
            rs1: 0,
            imm: 0,
        },
        MicroOp::Bne {
            rs1: 1,
            rs2: 2,
            imm: 8,
            pc_offset: 12,
            insn_len: 4,
        },
    ]);

    match compiler.compile(&block) {
        CompilationResult::Success(bytes) => {
            assert!(!bytes.is_empty());
            println!("BNE compiled to {} WASM bytes", bytes.len());
        }
        other => panic!("Expected Success, got {:?}", other),
    }
}

#[test]
fn test_compile_blt_signed() {
    let mut compiler = JitCompiler::default();

    let block = make_test_block(&[
        MicroOp::Addi {
            rd: 1,
            rs1: 0,
            imm: -5,
        }, // negative
        MicroOp::Addi {
            rd: 2,
            rs1: 0,
            imm: 5,
        }, // positive
        MicroOp::Addi {
            rd: 3,
            rs1: 0,
            imm: 0,
        },
        MicroOp::Blt {
            rs1: 1,
            rs2: 2,
            imm: 8,
            pc_offset: 12,
            insn_len: 4,
        },
    ]);

    match compiler.compile(&block) {
        CompilationResult::Success(bytes) => {
            assert!(!bytes.is_empty());
            println!("BLT (signed) compiled to {} WASM bytes", bytes.len());
        }
        other => panic!("Expected Success, got {:?}", other),
    }
}

#[test]
fn test_compile_bge_signed() {
    let mut compiler = JitCompiler::default();

    let block = make_test_block(&[
        MicroOp::Addi {
            rd: 1,
            rs1: 0,
            imm: 10,
        },
        MicroOp::Addi {
            rd: 2,
            rs1: 0,
            imm: 5,
        },
        MicroOp::Addi {
            rd: 3,
            rs1: 0,
            imm: 0,
        },
        MicroOp::Bge {
            rs1: 1,
            rs2: 2,
            imm: 8,
            pc_offset: 12,
            insn_len: 4,
        },
    ]);

    match compiler.compile(&block) {
        CompilationResult::Success(bytes) => {
            assert!(!bytes.is_empty());
            println!("BGE (signed) compiled to {} WASM bytes", bytes.len());
        }
        other => panic!("Expected Success, got {:?}", other),
    }
}

#[test]
fn test_compile_bltu_unsigned() {
    let mut compiler = JitCompiler::default();

    let block = make_test_block(&[
        MicroOp::Addi {
            rd: 1,
            rs1: 0,
            imm: 5,
        },
        MicroOp::Addi {
            rd: 2,
            rs1: 0,
            imm: -1,
        }, // Large unsigned value
        MicroOp::Addi {
            rd: 3,
            rs1: 0,
            imm: 0,
        },
        MicroOp::Bltu {
            rs1: 1,
            rs2: 2,
            imm: 8,
            pc_offset: 12,
            insn_len: 4,
        },
    ]);

    match compiler.compile(&block) {
        CompilationResult::Success(bytes) => {
            assert!(!bytes.is_empty());
            println!("BLTU (unsigned) compiled to {} WASM bytes", bytes.len());
        }
        other => panic!("Expected Success, got {:?}", other),
    }
}

#[test]
fn test_compile_bgeu_unsigned() {
    let mut compiler = JitCompiler::default();

    let block = make_test_block(&[
        MicroOp::Addi {
            rd: 1,
            rs1: 0,
            imm: -1,
        }, // Large unsigned value
        MicroOp::Addi {
            rd: 2,
            rs1: 0,
            imm: 5,
        },
        MicroOp::Addi {
            rd: 3,
            rs1: 0,
            imm: 0,
        },
        MicroOp::Bgeu {
            rs1: 1,
            rs2: 2,
            imm: 8,
            pc_offset: 12,
            insn_len: 4,
        },
    ]);

    match compiler.compile(&block) {
        CompilationResult::Success(bytes) => {
            assert!(!bytes.is_empty());
            println!("BGEU (unsigned) compiled to {} WASM bytes", bytes.len());
        }
        other => panic!("Expected Success, got {:?}", other),
    }
}

// Jump Instruction Tests

#[test]
fn test_compile_jal() {
    let mut compiler = JitCompiler::default();

    let block = make_test_block(&[
        MicroOp::Addi {
            rd: 1,
            rs1: 0,
            imm: 0,
        },
        MicroOp::Addi {
            rd: 2,
            rs1: 0,
            imm: 0,
        },
        MicroOp::Addi {
            rd: 3,
            rs1: 0,
            imm: 0,
        },
        MicroOp::Jal {
            rd: 1, // ra
            imm: 100,
            pc_offset: 12,
            insn_len: 4,
        },
    ]);

    match compiler.compile(&block) {
        CompilationResult::Success(bytes) => {
            assert!(!bytes.is_empty());
            assert_eq!(&bytes[0..4], b"\x00asm");
            println!("JAL compiled to {} WASM bytes", bytes.len());
        }
        other => panic!("Expected Success, got {:?}", other),
    }
}

#[test]
fn test_compile_jal_no_link() {
    let mut compiler = JitCompiler::default();

    // JAL with rd=x0 (no link, just jump)
    let block = make_test_block(&[
        MicroOp::Addi {
            rd: 1,
            rs1: 0,
            imm: 0,
        },
        MicroOp::Addi {
            rd: 2,
            rs1: 0,
            imm: 0,
        },
        MicroOp::Addi {
            rd: 3,
            rs1: 0,
            imm: 0,
        },
        MicroOp::Jal {
            rd: 0, // No link
            imm: 100,
            pc_offset: 12,
            insn_len: 4,
        },
    ]);

    match compiler.compile(&block) {
        CompilationResult::Success(bytes) => {
            assert!(!bytes.is_empty());
            println!("JAL (no link) compiled to {} WASM bytes", bytes.len());
        }
        other => panic!("Expected Success, got {:?}", other),
    }
}

#[test]
fn test_compile_jalr() {
    let mut compiler = JitCompiler::default();

    let block = make_test_block(&[
        MicroOp::Addi {
            rd: 10,
            rs1: 0,
            imm: 0x1000,
        }, // base addr
        MicroOp::Addi {
            rd: 2,
            rs1: 0,
            imm: 0,
        },
        MicroOp::Addi {
            rd: 3,
            rs1: 0,
            imm: 0,
        },
        MicroOp::Jalr {
            rd: 1, // ra
            rs1: 10,
            imm: 4,
            pc_offset: 12,
            insn_len: 4,
        },
    ]);

    match compiler.compile(&block) {
        CompilationResult::Success(bytes) => {
            assert!(!bytes.is_empty());
            assert_eq!(&bytes[0..4], b"\x00asm");
            println!("JALR compiled to {} WASM bytes", bytes.len());
        }
        other => panic!("Expected Success, got {:?}", other),
    }
}

#[test]
fn test_compile_jalr_no_link() {
    let mut compiler = JitCompiler::default();

    // JALR with rd=x0 (no link, just indirect jump)
    let block = make_test_block(&[
        MicroOp::Addi {
            rd: 10,
            rs1: 0,
            imm: 0x1000,
        },
        MicroOp::Addi {
            rd: 2,
            rs1: 0,
            imm: 0,
        },
        MicroOp::Addi {
            rd: 3,
            rs1: 0,
            imm: 0,
        },
        MicroOp::Jalr {
            rd: 0, // No link
            rs1: 10,
            imm: 0,
            pc_offset: 12,
            insn_len: 4,
        },
    ]);

    match compiler.compile(&block) {
        CompilationResult::Success(bytes) => {
            assert!(!bytes.is_empty());
            println!("JALR (no link) compiled to {} WASM bytes", bytes.len());
        }
        other => panic!("Expected Success, got {:?}", other),
    }
}

#[test]
fn test_compile_all_branches() {
    let mut compiler = JitCompiler::default();

    // Test all branch types compile successfully
    for (name, op) in [
        (
            "BEQ",
            MicroOp::Beq {
                rs1: 1,
                rs2: 2,
                imm: 8,
                pc_offset: 12,
                insn_len: 4,
            },
        ),
        (
            "BNE",
            MicroOp::Bne {
                rs1: 1,
                rs2: 2,
                imm: 8,
                pc_offset: 12,
                insn_len: 4,
            },
        ),
        (
            "BLT",
            MicroOp::Blt {
                rs1: 1,
                rs2: 2,
                imm: 8,
                pc_offset: 12,
                insn_len: 4,
            },
        ),
        (
            "BGE",
            MicroOp::Bge {
                rs1: 1,
                rs2: 2,
                imm: 8,
                pc_offset: 12,
                insn_len: 4,
            },
        ),
        (
            "BLTU",
            MicroOp::Bltu {
                rs1: 1,
                rs2: 2,
                imm: 8,
                pc_offset: 12,
                insn_len: 4,
            },
        ),
        (
            "BGEU",
            MicroOp::Bgeu {
                rs1: 1,
                rs2: 2,
                imm: 8,
                pc_offset: 12,
                insn_len: 4,
            },
        ),
    ] {
        let block = make_test_block(&[
            MicroOp::Addi {
                rd: 1,
                rs1: 0,
                imm: 5,
            },
            MicroOp::Addi {
                rd: 2,
                rs1: 0,
                imm: 10,
            },
            MicroOp::Addi {
                rd: 3,
                rs1: 0,
                imm: 0,
            },
            op,
        ]);

        match compiler.compile(&block) {
            CompilationResult::Success(bytes) => {
                assert!(!bytes.is_empty());
                println!("{} compiled to {} bytes", name, bytes.len());
            }
            other => panic!("{}: Expected Success, got {:?}", name, other),
        }
    }
}

#[test]
fn test_branch_negative_offset() {
    let mut compiler = JitCompiler::default();

    // Test backward branch (negative imm)
    let block = make_test_block(&[
        MicroOp::Addi {
            rd: 1,
            rs1: 0,
            imm: 5,
        },
        MicroOp::Addi {
            rd: 2,
            rs1: 0,
            imm: 5,
        },
        MicroOp::Addi {
            rd: 3,
            rs1: 0,
            imm: 0,
        },
        MicroOp::Beq {
            rs1: 1,
            rs2: 2,
            imm: -8, // Backward branch
            pc_offset: 12,
            insn_len: 4,
        },
    ]);

    match compiler.compile(&block) {
        CompilationResult::Success(bytes) => {
            assert!(!bytes.is_empty());
            println!("Backward branch compiled to {} WASM bytes", bytes.len());
        }
        other => panic!("Expected Success, got {:?}", other),
    }
}

#[test]
fn test_compile_register_immediate_alu() {
    let mut compiler = JitCompiler::default();

    // Test all register-immediate ALU operations
    let block = make_test_block(&[
        MicroOp::Xori {
            rd: 1,
            rs1: 0,
            imm: 0xFF,
        },
        MicroOp::Ori {
            rd: 2,
            rs1: 1,
            imm: 0x0F,
        },
        MicroOp::Andi {
            rd: 3,
            rs1: 2,
            imm: 0xF0,
        },
        MicroOp::Slti {
            rd: 4,
            rs1: 0,
            imm: 1,
        },
        MicroOp::Sltiu {
            rd: 5,
            rs1: 0,
            imm: 1,
        },
        MicroOp::Slli {
            rd: 6,
            rs1: 1,
            shamt: 4,
        },
        MicroOp::Srli {
            rd: 7,
            rs1: 1,
            shamt: 2,
        },
        MicroOp::Srai {
            rd: 8,
            rs1: 1,
            shamt: 2,
        },
    ]);

    match compiler.compile(&block) {
        CompilationResult::Success(bytes) => {
            assert!(!bytes.is_empty());
            assert_eq!(&bytes[0..4], b"\x00asm");
            println!(
                "Register-immediate ALU ops compiled to {} WASM bytes",
                bytes.len()
            );
        }
        other => panic!("Expected Success, got {:?}", other),
    }
}

#[test]
fn test_compile_register_register_alu() {
    let mut compiler = JitCompiler::default();

    // Test all register-register ALU operations
    let block = make_test_block(&[
        MicroOp::Addi {
            rd: 1,
            rs1: 0,
            imm: 10,
        },
        MicroOp::Addi {
            rd: 2,
            rs1: 0,
            imm: 3,
        },
        MicroOp::Xor {
            rd: 3,
            rs1: 1,
            rs2: 2,
        },
        MicroOp::Or {
            rd: 4,
            rs1: 1,
            rs2: 2,
        },
        MicroOp::And {
            rd: 5,
            rs1: 1,
            rs2: 2,
        },
        MicroOp::Sll {
            rd: 6,
            rs1: 1,
            rs2: 2,
        },
        MicroOp::Srl {
            rd: 7,
            rs1: 1,
            rs2: 2,
        },
        MicroOp::Sra {
            rd: 8,
            rs1: 1,
            rs2: 2,
        },
        MicroOp::Slt {
            rd: 9,
            rs1: 2,
            rs2: 1,
        },
        MicroOp::Sltu {
            rd: 10,
            rs1: 2,
            rs2: 1,
        },
    ]);

    match compiler.compile(&block) {
        CompilationResult::Success(bytes) => {
            assert!(!bytes.is_empty());
            assert_eq!(&bytes[0..4], b"\x00asm");
            println!(
                "Register-register ALU ops compiled to {} WASM bytes",
                bytes.len()
            );
        }
        other => panic!("Expected Success, got {:?}", other),
    }
}

#[test]
fn test_compile_32bit_word_ops() {
    let mut compiler = JitCompiler::default();

    // Test all 32-bit word operations
    let block = make_test_block(&[
        MicroOp::Addi {
            rd: 1,
            rs1: 0,
            imm: 100,
        },
        MicroOp::Addi {
            rd: 2,
            rs1: 0,
            imm: 5,
        },
        MicroOp::Addiw {
            rd: 3,
            rs1: 1,
            imm: 50,
        },
        MicroOp::Slliw {
            rd: 4,
            rs1: 1,
            shamt: 4,
        },
        MicroOp::Srliw {
            rd: 5,
            rs1: 1,
            shamt: 2,
        },
        MicroOp::Sraiw {
            rd: 6,
            rs1: 1,
            shamt: 2,
        },
        MicroOp::Addw {
            rd: 7,
            rs1: 1,
            rs2: 2,
        },
        MicroOp::Subw {
            rd: 8,
            rs1: 1,
            rs2: 2,
        },
        MicroOp::Sllw {
            rd: 9,
            rs1: 1,
            rs2: 2,
        },
        MicroOp::Srlw {
            rd: 10,
            rs1: 1,
            rs2: 2,
        },
        MicroOp::Sraw {
            rd: 11,
            rs1: 1,
            rs2: 2,
        },
    ]);

    match compiler.compile(&block) {
        CompilationResult::Success(bytes) => {
            assert!(!bytes.is_empty());
            assert_eq!(&bytes[0..4], b"\x00asm");
            println!("32-bit word ops compiled to {} WASM bytes", bytes.len());
        }
        other => panic!("Expected Success, got {:?}", other),
    }
}

#[test]
fn test_compile_multiply() {
    let mut compiler = JitCompiler::default();

    let block = make_test_block(&[
        MicroOp::Addi {
            rd: 1,
            rs1: 0,
            imm: 7,
        },
        MicroOp::Addi {
            rd: 2,
            rs1: 0,
            imm: 6,
        },
        MicroOp::Mul {
            rd: 3,
            rs1: 1,
            rs2: 2,
        },
        MicroOp::Mulw {
            rd: 4,
            rs1: 1,
            rs2: 2,
        },
    ]);

    match compiler.compile(&block) {
        CompilationResult::Success(bytes) => {
            assert!(!bytes.is_empty());
            println!("Multiply ops compiled to {} WASM bytes", bytes.len());
        }
        other => panic!("Expected Success, got {:?}", other),
    }
}

#[test]
fn test_compile_divide() {
    let mut compiler = JitCompiler::default();

    let block = make_test_block(&[
        MicroOp::Addi {
            rd: 1,
            rs1: 0,
            imm: 42,
        },
        MicroOp::Addi {
            rd: 2,
            rs1: 0,
            imm: 7,
        },
        MicroOp::Div {
            rd: 3,
            rs1: 1,
            rs2: 2,
        },
        MicroOp::Divu {
            rd: 4,
            rs1: 1,
            rs2: 2,
        },
        MicroOp::Rem {
            rd: 5,
            rs1: 1,
            rs2: 2,
        },
        MicroOp::Remu {
            rd: 6,
            rs1: 1,
            rs2: 2,
        },
    ]);

    match compiler.compile(&block) {
        CompilationResult::Success(bytes) => {
            assert!(!bytes.is_empty());
            assert_eq!(&bytes[0..4], b"\x00asm");
            println!("Divide/remainder ops compiled to {} WASM bytes", bytes.len());
        }
        other => panic!("Expected Success, got {:?}", other),
    }
}

#[test]
fn test_compile_divide_32bit() {
    let mut compiler = JitCompiler::default();

    let block = make_test_block(&[
        MicroOp::Addi {
            rd: 1,
            rs1: 0,
            imm: 42,
        },
        MicroOp::Addi {
            rd: 2,
            rs1: 0,
            imm: 7,
        },
        MicroOp::Divw {
            rd: 3,
            rs1: 1,
            rs2: 2,
        },
        MicroOp::Divuw {
            rd: 4,
            rs1: 1,
            rs2: 2,
        },
        MicroOp::Remw {
            rd: 5,
            rs1: 1,
            rs2: 2,
        },
        MicroOp::Remuw {
            rd: 6,
            rs1: 1,
            rs2: 2,
        },
    ]);

    match compiler.compile(&block) {
        CompilationResult::Success(bytes) => {
            assert!(!bytes.is_empty());
            assert_eq!(&bytes[0..4], b"\x00asm");
            println!(
                "32-bit divide/remainder ops compiled to {} WASM bytes",
                bytes.len()
            );
        }
        other => panic!("Expected Success, got {:?}", other),
    }
}

#[test]
fn test_mulh_fallback() {
    let mut compiler = JitCompiler::default();

    // MULH should fall back to interpreter (needs 128-bit math)
    let block = make_test_block(&[
        MicroOp::Addi {
            rd: 1,
            rs1: 0,
            imm: 1000,
        },
        MicroOp::Addi {
            rd: 2,
            rs1: 0,
            imm: 1000,
        },
        MicroOp::Addi {
            rd: 3,
            rs1: 0,
            imm: 0,
        },
        MicroOp::Mulh {
            rd: 4,
            rs1: 1,
            rs2: 2,
        },
    ]);

    match compiler.compile(&block) {
        CompilationResult::Unsuitable => {}
        other => panic!("Expected Unsuitable for MULH, got {:?}", other),
    }
}

#[test]
fn test_compile_auipc() {
    let mut compiler = JitCompiler::default();

    let block = make_test_block(&[
        MicroOp::Auipc {
            rd: 1,
            imm: 0x12345000,
            pc_offset: 0,
        },
        MicroOp::Auipc {
            rd: 2,
            imm: 0x1000,
            pc_offset: 4,
        },
        MicroOp::Auipc {
            rd: 3,
            imm: -0x1000,
            pc_offset: 8,
        },
        MicroOp::Add {
            rd: 4,
            rs1: 1,
            rs2: 2,
        },
    ]);

    match compiler.compile(&block) {
        CompilationResult::Success(bytes) => {
            assert!(!bytes.is_empty());
            assert_eq!(&bytes[0..4], b"\x00asm");
            println!("AUIPC compiled to {} WASM bytes", bytes.len());
        }
        other => panic!("Expected Success, got {:?}", other),
    }
}

#[test]
fn test_x0_writes_are_nops() {
    let mut compiler = JitCompiler::default();

    // All writes to x0 should compile but be no-ops
    let block = make_test_block(&[
        MicroOp::Xori {
            rd: 0,
            rs1: 1,
            imm: 0xFF,
        },
        MicroOp::Ori {
            rd: 0,
            rs1: 1,
            imm: 0xFF,
        },
        MicroOp::Andi {
            rd: 0,
            rs1: 1,
            imm: 0xFF,
        },
        MicroOp::Slti {
            rd: 0,
            rs1: 1,
            imm: 0,
        },
        MicroOp::Sltiu {
            rd: 0,
            rs1: 1,
            imm: 0,
        },
        MicroOp::Slli {
            rd: 0,
            rs1: 1,
            shamt: 1,
        },
        MicroOp::Srli {
            rd: 0,
            rs1: 1,
            shamt: 1,
        },
        MicroOp::Srai {
            rd: 0,
            rs1: 1,
            shamt: 1,
        },
        MicroOp::Mul {
            rd: 0,
            rs1: 1,
            rs2: 2,
        },
        MicroOp::Div {
            rd: 0,
            rs1: 1,
            rs2: 2,
        },
    ]);

    match compiler.compile(&block) {
        CompilationResult::Success(bytes) => {
            assert!(!bytes.is_empty());
            println!(
                "x0 writes compiled to {} WASM bytes (should be minimal)",
                bytes.len()
            );
        }
        other => panic!("Expected Success, got {:?}", other),
    }
}

#[test]
fn test_shift_masking() {
    let mut compiler = JitCompiler::default();

    // Test that shifts use proper masking (6-bit for 64-bit, 5-bit for 32-bit)
    let block = make_test_block(&[
        MicroOp::Addi {
            rd: 1,
            rs1: 0,
            imm: 1,
        },
        MicroOp::Addi {
            rd: 2,
            rs1: 0,
            imm: 65,
        }, // 65 & 0x3F = 1 for 64-bit
        MicroOp::Addi {
            rd: 3,
            rs1: 0,
            imm: 33,
        }, // 33 & 0x1F = 1 for 32-bit
        MicroOp::Sll {
            rd: 4,
            rs1: 1,
            rs2: 2,
        }, // Should shift by 1
        MicroOp::Srl {
            rd: 5,
            rs1: 1,
            rs2: 2,
        },
        MicroOp::Sra {
            rd: 6,
            rs1: 1,
            rs2: 2,
        },
        MicroOp::Sllw {
            rd: 7,
            rs1: 1,
            rs2: 3,
        }, // Should shift by 1
        MicroOp::Srlw {
            rd: 8,
            rs1: 1,
            rs2: 3,
        },
        MicroOp::Sraw {
            rd: 9,
            rs1: 1,
            rs2: 3,
        },
    ]);

    match compiler.compile(&block) {
        CompilationResult::Success(bytes) => {
            assert!(!bytes.is_empty());
            println!("Shift masking tests compiled to {} WASM bytes", bytes.len());
        }
        other => panic!("Expected Success, got {:?}", other),
    }
}

#[test]
fn test_division_edge_cases() {
    let mut compiler = JitCompiler::default();

    // Division by zero should not cause JIT compilation to fail
    // (the generated code handles it)
    let block = make_test_block(&[
        MicroOp::Addi {
            rd: 1,
            rs1: 0,
            imm: 42,
        },
        MicroOp::Addi {
            rd: 2,
            rs1: 0,
            imm: 0,
        }, // divisor = 0
        MicroOp::Div {
            rd: 3,
            rs1: 1,
            rs2: 2,
        },
        MicroOp::Divu {
            rd: 4,
            rs1: 1,
            rs2: 2,
        },
        MicroOp::Rem {
            rd: 5,
            rs1: 1,
            rs2: 2,
        },
        MicroOp::Remu {
            rd: 6,
            rs1: 1,
            rs2: 2,
        },
    ]);

    match compiler.compile(&block) {
        CompilationResult::Success(bytes) => {
            assert!(!bytes.is_empty());
            println!(
                "Division by zero handling compiled to {} WASM bytes",
                bytes.len()
            );
        }
        other => panic!("Expected Success, got {:?}", other),
    }
}

#[test]
fn test_tlb_fast_path_load_compiles() {
    // Test that TLB fast-path code generation produces valid WASM
    let config = JitConfig {
        enable_tlb_fast_path: true,
        ..Default::default()
    };
    let compiler = JitCompiler::new(config);

    // Create a simple block builder to test fast-path emission
    let mut builder = WasmModuleBuilder::new();

    // Add required locals
    let vaddr_local = builder.add_local(ValType::I64);

    // Store test address in vaddr_local
    builder.emit(Instruction::I64Const(0x8000_1000)); // Test virtual address
    builder.emit(Instruction::LocalSet(vaddr_local));

    // Emit TLB fast-path
    compiler.emit_tlb_fast_path_load(&mut builder, vaddr_local, 1, 0);

    // Return success
    builder.emit(Instruction::I64Const(0));

    // Build with imports (required for slow path helper)
    let bytes = builder.build_with_imports();

    // Verify WASM magic bytes
    assert_eq!(&bytes[0..4], b"\x00asm");
    println!("TLB fast-path load compiled to {} WASM bytes", bytes.len());
}

#[test]
fn test_tlb_fast_path_load_w_compiles() {
    let config = JitConfig {
        enable_tlb_fast_path: true,
        ..Default::default()
    };
    let compiler = JitCompiler::new(config);

    let mut builder = WasmModuleBuilder::new();

    let vaddr_local = builder.add_local(ValType::I64);

    builder.emit(Instruction::I64Const(0x8000_2000));
    builder.emit(Instruction::LocalSet(vaddr_local));

    // Test sign-extended load
    compiler.emit_tlb_fast_path_load_w(&mut builder, vaddr_local, 2, 0, true);

    // Test zero-extended load
    compiler.emit_tlb_fast_path_load_w(&mut builder, vaddr_local, 3, 4, false);

    builder.emit(Instruction::I64Const(0));

    let bytes = builder.build_with_imports();
    assert_eq!(&bytes[0..4], b"\x00asm");
    println!(
        "TLB fast-path load_w compiled to {} WASM bytes",
        bytes.len()
    );
}

#[test]
fn test_tlb_fast_path_multiple_loads() {
    // Test multiple TLB fast-path loads in sequence
    let config = JitConfig {
        enable_tlb_fast_path: true,
        ..Default::default()
    };
    let compiler = JitCompiler::new(config);

    let mut builder = WasmModuleBuilder::new();

    // Simulate multiple load operations
    for i in 0..4 {
        let vaddr_local = builder.add_local(ValType::I64);
        builder.emit(Instruction::I64Const(0x8000_0000 + (i * 8) as i64));
        builder.emit(Instruction::LocalSet(vaddr_local));
        compiler.emit_tlb_fast_path_load(&mut builder, vaddr_local, (i + 1) as u8, i * 4);
    }

    builder.emit(Instruction::I64Const(0));

    let bytes = builder.build_with_imports();
    assert_eq!(&bytes[0..4], b"\x00asm");
    println!(
        "Multiple TLB fast-path loads compiled to {} WASM bytes",
        bytes.len()
    );
    // Each fast-path adds significant code size
    assert!(bytes.len() > 200, "Expected substantial code for 4 fast-path loads");
}

#[test]
fn test_tlb_config_defaults() {
    let config = JitConfig::default();
    assert!(!config.enable_tlb_fast_path, "TLB fast-path should be disabled by default");
    assert_eq!(
        config.tlb_fast_path_threshold, 100,
        "TLB fast-path threshold should be 100 by default"
    );
}

#[test]
fn test_interrupt_check_config_defaults() {
    let config = JitConfig::default();
    assert!(
        config.interrupt_check_on_entry,
        "Interrupt check on entry should be enabled by default"
    );
    assert_eq!(
        config.interrupt_check_interval, 32,
        "Interrupt check interval should be 32 by default"
    );
    assert_eq!(
        config.interrupt_check_block_threshold, 16,
        "Interrupt check block threshold should be 16 by default"
    );
}

#[test]
fn test_interrupt_check_emitted_for_long_blocks() {
    // Create a block with enough ops to trigger entry interrupt check
    let config = JitConfig {
        min_block_size: 4,
        interrupt_check_on_entry: true,
        interrupt_check_block_threshold: 8, // Lower threshold for testing
        ..Default::default()
    };
    let mut compiler = JitCompiler::new(config);

    // Build a block with 10 simple ops (above threshold)
    let mut block = Block::new(0x8000_0000, 0x8000_0000, 0);
    for i in 0..10 {
        block.push(
            MicroOp::Addi {
                rd: ((i % 31) + 1) as u8,
                rs1: 0,
                imm: i as i64,
            },
            4,
        );
    }

    let result = compiler.compile(&block);
    match result {
        CompilationResult::Success(bytes) => {
            assert!(!bytes.is_empty());
            // Verify WASM magic bytes
            assert_eq!(&bytes[0..4], b"\x00asm");
            println!(
                "Long block (10 ops) with interrupt check compiled to {} WASM bytes",
                bytes.len()
            );
        }
        other => panic!("Expected Success, got {:?}", other),
    }
}

#[test]
fn test_interrupt_check_not_emitted_for_short_blocks() {
    // Create a block too short to trigger interrupt check
    let config = JitConfig {
        min_block_size: 2,
        interrupt_check_on_entry: true,
        interrupt_check_block_threshold: 16, // Default threshold
        ..Default::default()
    };
    let mut compiler_with_check = JitCompiler::new(config.clone());

    // Also compile without interrupt check for size comparison
    let config_no_check = JitConfig {
        interrupt_check_on_entry: false,
        interrupt_check_interval: 0,
        ..config
    };
    let mut compiler_no_check = JitCompiler::new(config_no_check);

    // Build a short block (below threshold)
    let mut block = Block::new(0x8000_0000, 0x8000_0000, 0);
    for i in 0..4 {
        block.push(
            MicroOp::Addi {
                rd: ((i % 31) + 1) as u8,
                rs1: 0,
                imm: i as i64,
            },
            4,
        );
    }

    let result_with = compiler_with_check.compile(&block);
    let result_without = compiler_no_check.compile(&block);

    match (result_with, result_without) {
        (CompilationResult::Success(bytes_with), CompilationResult::Success(bytes_without)) => {
            // Short blocks should have same size (no interrupt check added)
            assert_eq!(
                bytes_with.len(),
                bytes_without.len(),
                "Short blocks should not have interrupt checks added"
            );
            println!(
                "Short block (4 ops) compiled to {} WASM bytes (no interrupt check)",
                bytes_with.len()
            );
        }
        other => panic!("Expected both Success, got {:?}", other),
    }
}

#[test]
fn test_interrupt_check_on_backward_branch() {
    // Test that backward branches trigger interrupt checks
    let config = JitConfig {
        min_block_size: 2,
        interrupt_check_on_entry: false, // Disable entry check
        interrupt_check_interval: 0,     // Disable periodic check
        interrupt_check_block_threshold: 100, // High threshold to avoid entry check
        ..Default::default()
    };
    let mut compiler = JitCompiler::new(config);

    // Build a block with a backward branch (loop back-edge)
    let mut block = Block::new(0x8000_0000, 0x8000_0000, 0);
    block.push(
        MicroOp::Addi {
            rd: 1,
            rs1: 0,
            imm: 1,
        },
        4,
    );
    // Backward branch (negative immediate)
    block.push(
        MicroOp::Beq {
            rs1: 1,
            rs2: 0,
            imm: -4, // Jump back
            pc_offset: 4,
            insn_len: 4,
        },
        4,
    );

    let result = compiler.compile(&block);
    match result {
        CompilationResult::Success(bytes) => {
            assert!(!bytes.is_empty());
            assert_eq!(&bytes[0..4], b"\x00asm");
            println!(
                "Block with backward branch compiled to {} WASM bytes",
                bytes.len()
            );
        }
        other => panic!("Expected Success, got {:?}", other),
    }
}

#[test]
fn test_is_backward_branch() {
    // Test the is_backward_branch helper function
    assert!(is_backward_branch(&MicroOp::Beq {
        rs1: 1,
        rs2: 2,
        imm: -8,
        pc_offset: 12,
        insn_len: 4,
    }));
    assert!(is_backward_branch(&MicroOp::Bne {
        rs1: 1,
        rs2: 2,
        imm: -4,
        pc_offset: 8,
        insn_len: 4,
    }));
    assert!(!is_backward_branch(&MicroOp::Beq {
        rs1: 1,
        rs2: 2,
        imm: 8, // Forward branch
        pc_offset: 12,
        insn_len: 4,
    }));
    assert!(!is_backward_branch(&MicroOp::Addi {
        rd: 1,
        rs1: 0,
        imm: 42,
    }));
}
