use riscv_vm::engine::microop::MicroOp;
use riscv_vm::jit::disasm::{disasm_alu_imm, format_instruction_short, DisasmConfig};

#[test]
fn test_format_instruction_short() {
    assert_eq!(
        format_instruction_short(&MicroOp::Addi {
            rd: 10,
            rs1: 0,
            imm: 42
        }),
        "addi x10, x0, 42"
    );
    assert_eq!(
        format_instruction_short(&MicroOp::Add {
            rd: 1,
            rs1: 2,
            rs2: 3
        }),
        "add x1, x2, x3"
    );
    assert_eq!(
        format_instruction_short(&MicroOp::Ld {
            rd: 5,
            rs1: 10,
            imm: 8,
            pc_offset: 0
        }),
        "ld x5, 8(x10)"
    );
}

#[test]
fn test_disasm_config_default() {
    let config = DisasmConfig::default();
    assert!(config.include_source);
    assert!(config.pretty);
    assert!(config.include_addresses);
}

#[test]
fn test_disasm_x0_write_ignored() {
    let _config = DisasmConfig::default();
    let wat = disasm_alu_imm("    ", "add", 0, 1, 5);
    assert!(wat.contains("x0 ignored"));
}
