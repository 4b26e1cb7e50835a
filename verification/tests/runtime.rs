use riscv_vm::jit::runtime::JitExecResult;

#[test]
fn test_from_i64_normal() {
    let base_pc = 0x8000_0000u64;
    let pc_offset = 16u32;
    let value = JitExecResult::make_continue(pc_offset);

    let result = JitExecResult::from_i64(value, base_pc);
    assert_eq!(result, JitExecResult::Continue(base_pc + pc_offset as u64));
}

#[test]
fn test_from_i64_trap() {
    let base_pc = 0x8000_0000u64;
    let trap_code = 2u32; // IllegalInstruction
    let value = JitExecResult::make_trap(trap_code);

    let result = JitExecResult::from_i64(value, base_pc);
    assert_eq!(
        result,
        JitExecResult::Trap {
            code: trap_code,
            fault_pc: base_pc
        }
    );
}

#[test]
fn test_from_i64_interpreter() {
    let base_pc = 0x8000_0000u64;
    let pc_offset = 4u32;
    let value = JitExecResult::make_interpreter(pc_offset);

    let result = JitExecResult::from_i64(value, base_pc);
    assert_eq!(
        result,
        JitExecResult::ExitToInterpreter {
            pc: base_pc + pc_offset as u64
        }
    );
}

#[test]
fn test_from_i64_interrupt_check() {
    let base_pc = 0x8000_0000u64;
    let pc_offset = 8u32;
    let value = JitExecResult::make_interrupt_check(pc_offset);

    let result = JitExecResult::from_i64(value, base_pc);
    assert_eq!(
        result,
        JitExecResult::InterruptCheck {
            pc: base_pc + pc_offset as u64
        }
    );
}

#[test]
fn test_from_i64_unknown_exit_code() {
    let base_pc = 0x8000_0000u64;
    // Unknown exit code (99)
    let value = ((99i64) << 32) | 0;

    let result = JitExecResult::from_i64(value, base_pc);
    assert_eq!(result, JitExecResult::ExitToInterpreter { pc: base_pc });
}

#[test]
fn test_round_trip_continue() {
    let pc_offset = 100u32;
    let base_pc = 0x1000u64;

    let encoded = JitExecResult::make_continue(pc_offset);
    let decoded = JitExecResult::from_i64(encoded, base_pc);

    assert_eq!(
        decoded,
        JitExecResult::Continue(base_pc + pc_offset as u64)
    );
}

#[test]
fn test_from_i64_branch() {
    let base_pc = 0x8000_0000u64;
    let new_pc = 0x8000_1000u32;
    let value = JitExecResult::make_branch(new_pc);

    let result = JitExecResult::from_i64(value, base_pc);
    assert_eq!(result, JitExecResult::Branch { new_pc: new_pc as u64 });
}

#[test]
fn test_round_trip_branch() {
    let new_pc = 0x8000_2000u32;
    let base_pc = 0x8000_0000u64;

    let encoded = JitExecResult::make_branch(new_pc);
    let decoded = JitExecResult::from_i64(encoded, base_pc);

    assert_eq!(decoded, JitExecResult::Branch { new_pc: new_pc as u64 });
}
