use riscv_vm::engine::block::Block;
use riscv_vm::engine::microop::MicroOp;
use riscv_vm::jit::compiler::JitCompiler;
use riscv_vm::jit::encoder::WasmModuleBuilder;
use riscv_vm::jit::types::{CompilationResult, JitConfig};
use riscv_vm::jit::wasm::{
    Access, BlockType, Convert, I32Op, I64Op, I64Test, Instruction, MemArg, ValType,
};

/// The bytes of a module whose function has this code.
fn module(code: &[Instruction]) -> Vec<u8> {
    let mut builder = WasmModuleBuilder::new();
    for insn in code {
        builder.emit(*insn);
    }
    builder.build()
}

/// The bytes of the instructions, between the locals and the end mark.
fn encoded(code: &[Instruction]) -> Vec<u8> {
    let empty = module(&[]);
    let bytes = module(code);
    // An empty module ends in the locals and the end mark.
    assert_eq!(&empty[empty.len() - 2..], &[0x00, 0x0b]);
    let start = bytes.len() - 1 - (bytes.len() - empty.len());
    assert_eq!(bytes[bytes.len() - 1], 0x0b);
    bytes[start..bytes.len() - 1].to_vec()
}

#[test]
fn a_module_has_its_exact_bytes() {
    let expected: Vec<u8> = vec![
        0x00, 0x61, 0x73, 0x6d, 0x01, 0x00, 0x00, 0x00, // header
        0x01, 0x06, 0x01, 0x60, 0x01, 0x7f, 0x01, 0x7e, // types
        0x02, 0x0f, 0x01, 0x03, 0x65, 0x6e, 0x76, 0x06, 0x6d, 0x65, 0x6d, 0x6f, 0x72, 0x79, 0x02,
        0x02, 0x01, // imports
        0x03, 0x02, 0x01, 0x00, // functions
        0x07, 0x07, 0x01, 0x03, 0x72, 0x75, 0x6e, 0x00, 0x00, // exports
        0x0a, 0x06, 0x01, 0x04, 0x00, 0x42, 0x2a, 0x0b, // code
    ];
    assert_eq!(module(&[Instruction::I64Const(42)]), expected);
}

#[test]
fn locals_are_declared() {
    let mut builder = WasmModuleBuilder::new();
    builder.add_local(ValType::I32);
    builder.add_local(ValType::I64);
    builder.emit(Instruction::LocalGet(2));
    let bytes = builder.build();
    let tail = [0x02, 0x01, 0x7f, 0x01, 0x7e, 0x20, 0x02, 0x0b];
    assert_eq!(&bytes[bytes.len() - tail.len()..], &tail);
}

#[test]
fn arithmetic_has_its_opcodes() {
    let ops = [
        (I64Op::Add, 0x7c),
        (I64Op::Sub, 0x7d),
        (I64Op::Mul, 0x7e),
        (I64Op::DivS, 0x7f),
        (I64Op::DivU, 0x80),
        (I64Op::RemS, 0x81),
        (I64Op::RemU, 0x82),
        (I64Op::And, 0x83),
        (I64Op::Or, 0x84),
        (I64Op::Xor, 0x85),
        (I64Op::Shl, 0x86),
        (I64Op::ShrS, 0x87),
        (I64Op::ShrU, 0x88),
    ];
    for (op, byte) in ops {
        assert_eq!(encoded(&[Instruction::I64(op)]), vec![byte]);
    }
    let tests = [
        (I64Test::Eqz, 0x50),
        (I64Test::Eq, 0x51),
        (I64Test::Ne, 0x52),
        (I64Test::LtS, 0x53),
        (I64Test::LtU, 0x54),
        (I64Test::GeS, 0x59),
        (I64Test::GeU, 0x5a),
    ];
    for (test, byte) in tests {
        assert_eq!(encoded(&[Instruction::Test(test)]), vec![byte]);
    }
    let words = [
        (I32Op::Add, 0x6a),
        (I32Op::Mul, 0x6c),
        (I32Op::DivS, 0x6d),
        (I32Op::DivU, 0x6e),
        (I32Op::RemS, 0x6f),
        (I32Op::RemU, 0x70),
        (I32Op::And, 0x71),
        (I32Op::Shl, 0x74),
        (I32Op::ShrS, 0x75),
        (I32Op::ShrU, 0x76),
        (I32Op::Eqz, 0x45),
        (I32Op::Eq, 0x46),
    ];
    for (op, byte) in words {
        assert_eq!(encoded(&[Instruction::I32(op)]), vec![byte]);
    }
    let conversions = [
        (Convert::I32WrapI64, 0xa7),
        (Convert::I64ExtendI32S, 0xac),
        (Convert::I64ExtendI32U, 0xad),
    ];
    for (conversion, byte) in conversions {
        assert_eq!(encoded(&[Instruction::Convert(conversion)]), vec![byte]);
    }
}

#[test]
fn other_instructions_have_their_opcodes() {
    assert_eq!(encoded(&[Instruction::I32Const(-1)]), vec![0x41, 0x7f]);
    assert_eq!(encoded(&[Instruction::I64Const(128)]), vec![0x42, 0x80, 0x01]);
    assert_eq!(encoded(&[Instruction::LocalGet(0)]), vec![0x20, 0x00]);
    assert_eq!(encoded(&[Instruction::LocalSet(1)]), vec![0x21, 0x01]);
    assert_eq!(encoded(&[Instruction::LocalTee(2)]), vec![0x22, 0x02]);
    assert_eq!(encoded(&[Instruction::Block(BlockType::Empty)]), vec![0x02, 0x40]);
    assert_eq!(encoded(&[Instruction::If(BlockType::Empty)]), vec![0x04, 0x40]);
    assert_eq!(
        encoded(&[Instruction::If(BlockType::Result(ValType::I64))]),
        vec![0x04, 0x7e]
    );
    assert_eq!(
        encoded(&[Instruction::Block(BlockType::Result(ValType::I32))]),
        vec![0x02, 0x7f]
    );
    assert_eq!(encoded(&[Instruction::Else]), vec![0x05]);
    assert_eq!(encoded(&[Instruction::End]), vec![0x0b]);
    assert_eq!(encoded(&[Instruction::Br(3)]), vec![0x0c, 0x03]);
    assert_eq!(encoded(&[Instruction::BrIf(4)]), vec![0x0d, 0x04]);
    assert_eq!(encoded(&[Instruction::Call(5)]), vec![0x10, 0x05]);
    assert_eq!(encoded(&[Instruction::Return]), vec![0x0f]);
    assert_eq!(encoded(&[Instruction::Drop]), vec![0x1a]);
    let accesses = [
        (Access::I32Load, 0x28),
        (Access::I64Load, 0x29),
        (Access::I32Load8U, 0x2d),
        (Access::I32Store, 0x36),
        (Access::I64Store, 0x37),
    ];
    for (access, byte) in accesses {
        let place = MemArg { offset: 5, align: 2, memory_index: 0 };
        assert_eq!(encoded(&[Instruction::Memory(access, place)]), vec![byte, 0x02, 0x05]);
    }
}

#[test]
fn helpers_are_imported_by_name() {
    let mut builder = WasmModuleBuilder::new();
    builder.emit_read_u64();
    builder.emit_read_u32();
    builder.emit_read_u16();
    builder.emit_read_u8();
    builder.emit_write_u64();
    builder.emit_write_u32();
    builder.emit_write_u16();
    builder.emit_write_u8();
    let bytes = builder.build_with_imports();
    for name in [
        "read_u64", "read_u32", "read_u16", "read_u8", "write_u64", "write_u32", "write_u16",
        "write_u8",
    ] {
        let found = bytes.windows(name.len()).any(|part| part == name.as_bytes());
        assert!(found, "{}", name);
    }
    let tail = [
        0x00, 0x10, 0x00, 0x10, 0x01, 0x10, 0x02, 0x10, 0x03, 0x10, 0x04, 0x10, 0x05, 0x10, 0x06,
        0x10, 0x07, 0x0b,
    ];
    assert_eq!(&bytes[bytes.len() - tail.len()..], &tail);
    // The ninth function is exported.
    assert!(bytes.windows(6).any(|part| part == [0x03, b'r', b'u', b'n', 0x00, 0x08]));
}

/// A block of so many instructions that do nothing.
fn idle_block(len: usize) -> Block {
    let mut block = Block::new(0x8000_0000, 0x8000_0000, 0);
    for _ in 0..len {
        block.push(MicroOp::Lui { rd: 0, imm: 7 }, 4);
    }
    block
}

#[test]
fn compiled_blocks_return_their_length() {
    let mut compiler = JitCompiler::default();
    match compiler.compile(&idle_block(4)) {
        CompilationResult::Success(bytes) => {
            assert_eq!(&bytes[bytes.len() - 3..], &[0x42, 0x10, 0x0b]);
        }
        other => panic!("Expected Success, got {:?}", other),
    }
}

#[test]
fn registers_are_written_to_the_state() {
    // addi x3, x0, 5 stores into the fourth place of the state.
    let mut compiler = JitCompiler::new(JitConfig { min_block_size: 1, ..JitConfig::default() });
    let mut block = Block::new(0x8000_0000, 0x8000_0000, 0);
    block.push(MicroOp::Addi { rd: 3, rs1: 0, imm: 5 }, 4);
    match compiler.compile(&block) {
        CompilationResult::Success(bytes) => {
            // i64.store align=3 offset=0x13018, i64.const 4, end
            let tail = [0x37, 0x03, 0x98, 0xe0, 0x04, 0x42, 0x04, 0x0b];
            assert_eq!(&bytes[bytes.len() - tail.len()..], &tail);
        }
        other => panic!("Expected Success, got {:?}", other),
    }
}

#[test]
fn small_blocks_are_unsuitable() {
    let mut compiler = JitCompiler::new(JitConfig { min_block_size: 5, ..JitConfig::default() });
    assert!(matches!(compiler.compile(&idle_block(4)), CompilationResult::Unsuitable));
    assert!(matches!(compiler.compile(&idle_block(5)), CompilationResult::Success(_)));
}
