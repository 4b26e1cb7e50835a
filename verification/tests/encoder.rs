use riscv_vm::jit::encoder::WasmModuleBuilder;
use riscv_vm::jit::wasm::{Instruction, ValType};

#[test]
fn test_minimal_module() {
    let mut builder = WasmModuleBuilder::new();

    // Minimal function: return 0
    builder.emit(Instruction::I64Const(0));

    let bytes = builder.build();

    // Check WASM magic bytes
    assert_eq!(&bytes[0..4], b"\x00asm");
    // Check version (1)
    assert_eq!(&bytes[4..8], &[0x01, 0x00, 0x00, 0x00]);

    println!("Generated {} bytes of WASM", bytes.len());
}

#[test]
fn test_with_locals() {
    let mut builder = WasmModuleBuilder::new();

    // Add some locals
    let local_a = builder.add_local(ValType::I64);
    let local_b = builder.add_local(ValType::I64);

    assert_eq!(local_a, 1); // After parameter
    assert_eq!(local_b, 2);

    // Store a value in local_a
    builder.emit(Instruction::I64Const(42));
    builder.emit(Instruction::LocalSet(local_a));

    // Return local_a
    builder.emit(Instruction::LocalGet(local_a));

    let bytes = builder.build();
    assert!(!bytes.is_empty());
}

#[test]
fn test_build_with_imports() {
    let mut builder = WasmModuleBuilder::new();

    // Simulate a load operation:
    // 1. Push virtual address
    builder.emit(Instruction::I64Const(0x8000_0000));
    // 2. Call read_u64 helper
    builder.emit_read_u64();
    // 3. Return the loaded value

    let bytes = builder.build_with_imports();

    // Check WASM magic bytes
    assert_eq!(&bytes[0..4], b"\x00asm");
    // Check version (1)
    assert_eq!(&bytes[4..8], &[0x01, 0x00, 0x00, 0x00]);

    println!("Generated {} bytes of WASM with imports", bytes.len());
    // Should be larger than simple module due to imports
    assert!(bytes.len() > 50);
}

#[test]
fn test_memory_helper_emit() {
    let mut builder = WasmModuleBuilder::new();

    // Test all helper emitters compile correctly
    builder.emit(Instruction::I64Const(0x1000));
    builder.emit_read_u64();
    builder.emit(Instruction::Drop);

    builder.emit(Instruction::I64Const(0x1004));
    builder.emit_read_u32();
    builder.emit(Instruction::Drop);

    builder.emit(Instruction::I64Const(0x1006));
    builder.emit_read_u16();
    builder.emit(Instruction::Drop);

    builder.emit(Instruction::I64Const(0x1007));
    builder.emit_read_u8();
    builder.emit(Instruction::Drop);

    // Writes
    builder.emit(Instruction::I64Const(0x2000));
    builder.emit(Instruction::I64Const(0xDEADBEEF));
    builder.emit_write_u64();
    builder.emit(Instruction::Drop);

    builder.emit(Instruction::I64Const(0x2008));
    builder.emit(Instruction::I32Const(0x1234));
    builder.emit_write_u32();
    builder.emit(Instruction::Drop);

    builder.emit(Instruction::I64Const(0x200C));
    builder.emit(Instruction::I32Const(0x5678));
    builder.emit_write_u16();
    builder.emit(Instruction::Drop);

    builder.emit(Instruction::I64Const(0x200E));
    builder.emit(Instruction::I32Const(0xAB));
    builder.emit_write_u8();
    builder.emit(Instruction::Drop);

    // Return success
    builder.emit(Instruction::I64Const(0));

    let bytes = builder.build_with_imports();
    assert!(!bytes.is_empty());
    println!("Memory helper test module: {} bytes", bytes.len());
}

#[test]
fn test_direct_memory_ops() {
    let mut builder = WasmModuleBuilder::new();

    // Direct load from JIT state area
    builder.emit(Instruction::I32Const(0)); // base address
    builder.emit_direct_load_i64(0x13000); // JIT_STATE_OFFSET

    // Direct store
    builder.emit(Instruction::I32Const(0));
    builder.emit(Instruction::I64Const(42));
    builder.emit_direct_store_i64(0x13008);

    // Direct i32 ops
    builder.emit(Instruction::I32Const(0));
    builder.emit_direct_load_i32(0x13200); // TRAP_PENDING offset

    builder.emit(Instruction::I32Const(0));
    builder.emit(Instruction::I32Const(1));
    builder.emit_direct_store_i32(0x13200);

    // Return
    builder.emit(Instruction::I64Const(0));

    let bytes = builder.build_with_imports();
    assert!(!bytes.is_empty());
}
