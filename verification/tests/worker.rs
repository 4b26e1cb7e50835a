use riscv_vm::engine::microop::MicroOp;
use riscv_vm::jit::worker::SerializedMicroOp;

/// Test round-trip serialization for ALU operations.
#[test]
fn test_alu_roundtrip() {
    let ops = vec![
        MicroOp::Addi {
            rd: 1,
            rs1: 2,
            imm: -100,
        },
        MicroOp::Add {
            rd: 3,
            rs1: 4,
            rs2: 5,
        },
        MicroOp::Sub {
            rd: 6,
            rs1: 7,
            rs2: 8,
        },
        MicroOp::Xori {
            rd: 9,
            rs1: 10,
            imm: 0xDEADBEEF,
        },
        MicroOp::Slli {
            rd: 11,
            rs1: 12,
            shamt: 5,
        },
        MicroOp::Lui {
            rd: 13,
            imm: 0x12345 << 12,
        },
    ];

    for op in ops {
        let serialized = SerializedMicroOp::from_microop(&op);
        let deserialized = serialized.to_microop().expect("should deserialize");
        assert!(
            matches_microop(&op, &deserialized),
            "Round-trip failed for {:?}",
            op
        );
    }
}

/// Test round-trip for branch/jump operations.
#[test]
fn test_branch_roundtrip() {
    let ops = vec![
        MicroOp::Beq {
            rs1: 1,
            rs2: 2,
            imm: 100,
            pc_offset: 4,
            insn_len: 4,
        },
        MicroOp::Bne {
            rs1: 3,
            rs2: 4,
            imm: -200,
            pc_offset: 8,
            insn_len: 2,
        },
        MicroOp::Jal {
            rd: 1,
            imm: 1000,
            pc_offset: 12,
            insn_len: 4,
        },
        MicroOp::Jalr {
            rd: 1,
            rs1: 5,
            imm: 0,
            pc_offset: 16,
            insn_len: 4,
        },
    ];

    for op in ops {
        let serialized = SerializedMicroOp::from_microop(&op);
        let deserialized = serialized.to_microop().expect("should deserialize");
        assert!(
            matches_microop(&op, &deserialized),
            "Round-trip failed for {:?}",
            op
        );
    }
}

/// Test round-trip for load/store operations.
#[test]
fn test_memory_roundtrip() {
    let ops = vec![
        MicroOp::Ld {
            rd: 1,
            rs1: 2,
            imm: 8,
            pc_offset: 0,
        },
        MicroOp::Sd {
            rs1: 3,
            rs2: 4,
            imm: -16,
            pc_offset: 4,
        },
        MicroOp::Lb {
            rd: 5,
            rs1: 6,
            imm: 1,
            pc_offset: 8,
        },
        MicroOp::Lw {
            rd: 7,
            rs1: 8,
            imm: 4,
            pc_offset: 12,
        },
    ];

    for op in ops {
        let serialized = SerializedMicroOp::from_microop(&op);
        let deserialized = serialized.to_microop().expect("should deserialize");
        assert!(
            matches_microop(&op, &deserialized),
            "Round-trip failed for {:?}",
            op
        );
    }
}

/// Test round-trip for system operations.
#[test]
fn test_system_roundtrip() {
    let ops = vec![
        MicroOp::Ecall { pc_offset: 0 },
        MicroOp::Ebreak { pc_offset: 4 },
        MicroOp::Mret { pc_offset: 8 },
        MicroOp::Fence,
        MicroOp::Csrrw {
            rd: 1,
            rs1: 2,
            csr: 0x300,
            pc_offset: 12,
        },
    ];

    for op in ops {
        let serialized = SerializedMicroOp::from_microop(&op);
        let deserialized = serialized.to_microop().expect("should deserialize");
        assert!(
            matches_microop(&op, &deserialized),
            "Round-trip failed for {:?}",
            op
        );
    }
}

/// Test round-trip for atomic operations.
#[test]
fn test_atomic_roundtrip() {
    let ops = vec![
        MicroOp::LrW {
            rd: 1,
            rs1: 2,
            pc_offset: 0,
        },
        MicroOp::ScD {
            rd: 3,
            rs1: 4,
            rs2: 5,
            pc_offset: 4,
        },
        MicroOp::AmoAdd {
            rd: 6,
            rs1: 7,
            rs2: 8,
            is_word: true,
            pc_offset: 8,
        },
        MicroOp::AmoSwap {
            rd: 9,
            rs1: 10,
            rs2: 11,
            is_word: false,
            pc_offset: 12,
        },
    ];

    for op in ops {
        let serialized = SerializedMicroOp::from_microop(&op);
        let deserialized = serialized.to_microop().expect("should deserialize");
        assert!(
            matches_microop(&op, &deserialized),
            "Round-trip failed for {:?}",
            op
        );
    }
}

/// Helper to compare MicroOps (handles Copy limitation).
fn matches_microop(a: &MicroOp, b: &MicroOp) -> bool {
    // Use debug representation for comparison
    format!("{:?}", a) == format!("{:?}", b)
}
