use riscv_vm::bus::SystemBus;
use riscv_vm::cpu::blocks::{
    after_decoding, count_execution, BlockAction, DecodeResult, DecodedAction, JitBlockResult,
};
use riscv_vm::cpu::csr::{
    CSR_MENVCFG, CSR_MEPC, CSR_MHARTID, CSR_MIP, CSR_MSTATUS, CSR_SATP, CSR_STIMECMP,
};
use riscv_vm::cpu::decoder::Op;
use riscv_vm::cpu::execution::{Effect, Insn, Pending, Request, Step};
use riscv_vm::cpu::hart::Cpu;
use riscv_vm::cpu::stepping::{StepAction, StepEvent};
use riscv_vm::cpu::types::{AccessType, Mode, Trap};
use riscv_vm::engine::block::Block;
use riscv_vm::engine::microop::MicroOp;
use riscv_vm::jit::runtime::JitExecResult;
use riscv_vm::jit::state::{set_interrupt_pending, sync_to_shared, trap_codes, HEADER_SIZE};
use riscv_vm::jit::types::{CompilationResult, JitConfig};
use riscv_vm::mmu::{translate, Tlb};

const BASE: u64 = 0x8000_0000;

const INSN: Insn = Insn { raw: 0, len: 4 };

fn hart() -> Cpu {
    Cpu::new(BASE, 3, !0x3f, JitConfig::default())
}

fn memory() -> SystemBus {
    SystemBus::new(BASE, 0x10000)
}

const DONE: Step = Step::Retire(Effect::Nothing);

#[test]
fn a_fresh_hart_knows_its_number() {
    let cpu = hart();
    assert_eq!(cpu.csrs[CSR_MHARTID as usize], 3);
    assert_eq!(cpu.pc, BASE);
    assert_eq!(cpu.mode, Mode::Machine);
}

#[test]
fn the_zero_register_cannot_be_written() {
    let mut cpu = hart();
    cpu.write_reg(0, 5);
    cpu.write_reg(1, 6);
    assert_eq!(cpu.read_reg(0), 0);
    assert_eq!(cpu.read_reg(1), 6);
}

#[test]
fn stored_values_are_loaded_again() {
    let mut cpu = hart();
    let mut bus = memory();
    cpu.write_reg(1, BASE + 0x100);
    cpu.write_reg(2, 0xffff_ffff_8000_0080);
    let store = Op::Store { rs1: 1, rs2: 2, imm: -8, funct3: 2 };
    assert_eq!(cpu.execute_on(&mut bus, INSN, store), DONE);
    let load = Op::Load { rd: 3, rs1: 1, imm: -8, funct3: 2 };
    assert_eq!(cpu.execute_on(&mut bus, INSN, load), DONE);
    assert_eq!(cpu.read_reg(3), 0xffff_ffff_8000_0080);
    let unsigned = Op::Load { rd: 4, rs1: 1, imm: -8, funct3: 6 };
    assert_eq!(cpu.execute_on(&mut bus, INSN, unsigned), DONE);
    assert_eq!(cpu.read_reg(4), 0x8000_0080);
    let byte = Op::Load { rd: 5, rs1: 1, imm: -8, funct3: 0 };
    assert_eq!(cpu.execute_on(&mut bus, INSN, byte), DONE);
    assert_eq!(cpu.read_reg(5), 0xffff_ffff_ffff_ff80);
    assert_eq!(cpu.pc, BASE + 16);
}

#[test]
fn refused_accesses_leave_everything_alone() {
    let mut cpu = hart();
    let mut bus = memory();
    cpu.write_reg(1, 0x100);
    cpu.write_reg(2, 7);
    let store = Op::Store { rs1: 1, rs2: 2, imm: 0, funct3: 3 };
    assert_eq!(
        cpu.execute_on(&mut bus, INSN, store),
        Step::Raise(Trap::StoreAccessFault(0x100))
    );
    assert_eq!(cpu.pc, BASE);
    let load = Op::Load { rd: 2, rs1: 1, imm: 0, funct3: 3 };
    assert_eq!(
        cpu.execute_on(&mut bus, INSN, load),
        Step::Raise(Trap::LoadAccessFault(0x100))
    );
    assert_eq!(cpu.read_reg(2), 7);
}

#[test]
fn jumps_link_and_go() {
    let mut cpu = hart();
    let mut bus = memory();
    assert_eq!(cpu.execute_on(&mut bus, INSN, Op::Jal { rd: 1, imm: 0x20 }), DONE);
    assert_eq!(cpu.pc, BASE + 0x20);
    assert_eq!(cpu.read_reg(1), BASE + 4);
    cpu.write_reg(2, BASE + 0x41);
    assert_eq!(cpu.execute_on(&mut bus, INSN, Op::Jalr { rd: 1, rs1: 2, imm: 0 }), DONE);
    assert_eq!(cpu.pc, BASE + 0x40);
    assert_eq!(cpu.read_reg(1), BASE + 0x24);
}

#[test]
fn conditional_stores_need_a_reservation() {
    let mut cpu = hart();
    let mut bus = memory();
    cpu.write_reg(1, BASE + 0x80);
    cpu.write_reg(2, 9);
    let amo = |funct5: u8, rd: u8| Op::Amo {
        rd,
        rs1: 1,
        rs2: 2,
        funct3: 3,
        funct5,
        aq: false,
        rl: false,
    };
    assert_eq!(cpu.execute_on(&mut bus, INSN, amo(3, 3)), DONE);
    assert_eq!(cpu.read_reg(3), 1);
    assert_eq!(bus.read64(BASE + 0x80), Ok(0));
    assert_eq!(cpu.execute_on(&mut bus, INSN, amo(2, 4)), DONE);
    assert_eq!(cpu.read_reg(4), 0);
    assert_eq!(cpu.execute_on(&mut bus, INSN, amo(3, 3)), DONE);
    assert_eq!(cpu.read_reg(3), 0);
    assert_eq!(bus.read64(BASE + 0x80), Ok(9));
    // The reservation is used up.
    assert_eq!(cpu.execute_on(&mut bus, INSN, amo(3, 3)), DONE);
    assert_eq!(cpu.read_reg(3), 1);
}

#[test]
fn stores_end_reservations() {
    let mut cpu = hart();
    let mut bus = memory();
    cpu.write_reg(1, BASE + 0x80);
    let reserve =
        Op::Amo { rd: 4, rs1: 1, rs2: 0, funct3: 3, funct5: 2, aq: false, rl: false };
    assert_eq!(cpu.execute_on(&mut bus, INSN, reserve), DONE);
    assert_eq!(cpu.reservation, Some(BASE + 0x80));
    // A store in the same granule.
    let store = Op::Store { rs1: 1, rs2: 2, imm: 8, funct3: 3 };
    assert_eq!(cpu.execute_on(&mut bus, INSN, store), DONE);
    assert_eq!(cpu.reservation, None);
    assert_eq!(cpu.reservation_granule(BASE + 0xbf), BASE + 0x80);
}

#[test]
fn atomic_updates_give_the_old_value() {
    let mut cpu = hart();
    let mut bus = memory();
    bus.write32(BASE + 0x40, 0xffff_fffe).unwrap();
    cpu.write_reg(1, BASE + 0x40);
    cpu.write_reg(2, 5);
    let add = Op::Amo { rd: 3, rs1: 1, rs2: 2, funct3: 2, funct5: 0, aq: true, rl: true };
    assert_eq!(cpu.execute_on(&mut bus, INSN, add), DONE);
    assert_eq!(cpu.read_reg(3), 0xffff_ffff_ffff_fffe);
    assert_eq!(bus.read32(BASE + 0x40), Ok(3));
    let max = Op::Amo { rd: 3, rs1: 1, rs2: 2, funct3: 2, funct5: 0x14, aq: false, rl: false };
    assert_eq!(cpu.execute_on(&mut bus, INSN, max), DONE);
    assert_eq!(bus.read32(BASE + 0x40), Ok(5));
    cpu.write_reg(1, BASE + 0x41);
    let store = Op::Amo { rd: 3, rs1: 1, rs2: 2, funct3: 2, funct5: 3, aq: false, rl: false };
    assert_eq!(
        cpu.execute_on(&mut bus, INSN, store),
        Step::Raise(Trap::StoreAddressMisaligned(BASE + 0x41))
    );
}

#[test]
fn environment_calls_depend_on_the_mode() {
    let call = Op::System { rd: 0, rs1: 0, funct3: 0, imm: 0 };
    let insn = Insn { raw: 0x73, len: 4 };
    let mut bus = memory();
    let mut cpu = hart();
    assert_eq!(cpu.execute_on(&mut bus, insn, call), Step::Raise(Trap::EnvironmentCallFromM));
    cpu.mode = Mode::Supervisor;
    assert_eq!(cpu.execute_on(&mut bus, insn, call), Step::Raise(Trap::EnvironmentCallFromS));
    cpu.mode = Mode::User;
    assert_eq!(cpu.execute_on(&mut bus, insn, call), Step::Raise(Trap::EnvironmentCallFromU));
}

#[test]
fn returns_restore_the_mode() {
    let back = Op::System { rd: 0, rs1: 0, funct3: 0, imm: 0x302 };
    let insn = Insn { raw: 0x3020_0073, len: 4 };
    let mut bus = memory();
    let mut cpu = hart();
    cpu.csrs[CSR_MEPC as usize] = BASE + 0x500;
    // The previous mode was Supervisor, with interrupts on.
    cpu.csrs[CSR_MSTATUS as usize] = (1 << 11) | (1 << 7);
    let step = cpu.execute_on(&mut bus, insn, back);
    assert!(matches!(step, Step::Retire(_)), "{:?}", step);
    assert_eq!(cpu.mode, Mode::Supervisor);
    assert_eq!(cpu.pc, BASE + 0x500);
    assert_eq!(cpu.csrs[CSR_MSTATUS as usize] & (3 << 11), 0);
    assert_eq!(cpu.csrs[CSR_MSTATUS as usize] & (1 << 3), 1 << 3);
    // Only machine mode may return from itself.
    assert_eq!(
        cpu.execute_on(&mut bus, insn, back),
        Step::Raise(Trap::IllegalInstruction(0x3020_0073))
    );
}

#[test]
fn control_registers_are_asked_for() {
    let mut cpu = hart();
    cpu.write_reg(1, 0xff);
    let swap = Op::System { rd: 2, rs1: 1, funct3: 1, imm: 0x340 };
    let first = cpu.step_single_inner(INSN, swap);
    let pending = match first {
        Step::Ask(Request::ReadCsr { csr: 0x340 }, pending) => pending,
        other => panic!("{:?}", other),
    };
    assert_eq!(pending, Pending::CsrOld { rd: 2, rs1: 1, funct3: 1, csr: 0x340 });
    let pending = match cpu.resume(INSN, pending, Ok(0x11)) {
        Step::Ask(Request::WriteCsr { csr: 0x340, value: 0xff }, pending) => pending,
        other => panic!("{:?}", other),
    };
    assert_eq!(cpu.resume(INSN, pending, Ok(0)), DONE);
    assert_eq!(cpu.read_reg(2), 0x11);
    // Reading alone writes nothing.
    let read = Op::System { rd: 2, rs1: 0, funct3: 2, imm: 0x340 };
    let pending = match cpu.step_single_inner(INSN, read) {
        Step::Ask(Request::ReadCsr { .. }, pending) => pending,
        other => panic!("{:?}", other),
    };
    assert_eq!(cpu.resume(INSN, pending, Ok(0x22)), DONE);
    assert_eq!(cpu.read_reg(2), 0x22);
    // A refusal is an illegal instruction or what the answer says.
    let pending = match cpu.step_single_inner(INSN, read) {
        Step::Ask(_, pending) => pending,
        other => panic!("{:?}", other),
    };
    let refused = Trap::IllegalInstruction(0x340);
    match cpu.resume(INSN, pending, Err(refused)) {
        Step::Raise(trap) | Step::Abort(trap) => assert_eq!(trap, refused),
        other => panic!("{:?}", other),
    }
}

/// A hart in supervisor mode whose page at 0x4000_0000 is the page of memory at `BASE + 0x4000`.
fn paged() -> (Cpu, SystemBus) {
    let mut bus = memory();
    let table = |n: u64| ((BASE + 0x1000 * n) >> 12) << 10;
    bus.write64(BASE + 0x1000 + 8, table(2) | 1).unwrap();
    bus.write64(BASE + 0x2000, table(3) | 1).unwrap();
    // Valid, readable, writable, accessed and dirty.
    bus.write64(BASE + 0x3000, table(4) | 0xc7).unwrap();
    let mut cpu = hart();
    cpu.mode = Mode::Supervisor;
    cpu.csrs[CSR_SATP as usize] = (8 << 60) | ((BASE + 0x1000) >> 12);
    (cpu, bus)
}

#[test]
fn page_tables_are_walked_once() {
    let (mut cpu, mut bus) = paged();
    bus.write64(BASE + 0x4018, 77).unwrap();
    cpu.write_reg(1, 0x4000_0000);
    let load = Op::Load { rd: 2, rs1: 1, imm: 0x18, funct3: 3 };
    assert_eq!(cpu.execute_on(&mut bus, INSN, load), DONE);
    assert_eq!(cpu.read_reg(2), 77);
    // The tables may go: the translation is remembered.
    bus.write64(BASE + 0x3000, 0).unwrap();
    bus.write64(BASE + 0x4018, 78).unwrap();
    assert_eq!(cpu.execute_on(&mut bus, INSN, load), DONE);
    assert_eq!(cpu.read_reg(2), 78);
}

#[test]
fn unmapped_pages_fault() {
    let (mut cpu, mut bus) = paged();
    cpu.write_reg(1, 0x4000_1000);
    let load = Op::Load { rd: 2, rs1: 1, imm: 0, funct3: 3 };
    assert_eq!(
        cpu.execute_on(&mut bus, INSN, load),
        Step::Abort(Trap::LoadPageFault(0x4000_1000))
    );
    let mut tlb = Tlb::new();
    let satp = cpu.csrs[CSR_SATP as usize];
    // Not executable, not for users, and not an address at all.
    assert_eq!(
        translate(&bus, &mut tlb, Mode::Supervisor, satp, 0, 0x4000_0000, AccessType::Instruction),
        Err(Trap::InstructionPageFault(0x4000_0000))
    );
    assert_eq!(
        translate(&bus, &mut tlb, Mode::User, satp, 0, 0x4000_0000, AccessType::Store),
        Err(Trap::StorePageFault(0x4000_0000))
    );
    assert_eq!(
        translate(&bus, &mut tlb, Mode::Supervisor, satp, 0, 1 << 50, AccessType::Load),
        Err(Trap::LoadPageFault(1 << 50))
    );
    assert_eq!(
        translate(&bus, &mut tlb, Mode::Supervisor, satp, 0, 0x4000_0123, AccessType::Store),
        Ok(BASE + 0x4123)
    );
    assert_eq!(
        translate(&bus, &mut tlb, Mode::Machine, satp, 0, 0x4000_0123, AccessType::Store),
        Ok(0x4000_0123)
    );
}

#[test]
fn lines_are_looked_at_every_256th_time() {
    let mut cpu = hart();
    let mut polls = 0;
    for _ in 0..1024 {
        match cpu.step(StepEvent::Begin) {
            StepAction::Poll { hart_id, wants_time } => {
                assert_eq!((hart_id, wants_time), (3, false));
                polls += 1;
            }
            other => assert_eq!(other, StepAction::RunBlock),
        }
    }
    assert_eq!(polls, 4);
}

#[test]
fn interrupts_come_from_the_lines_and_the_timer() {
    let mut cpu = hart();
    cpu.csrs[CSR_MIP as usize] = 0x2 | 0x80;
    assert_eq!(
        cpu.step(StepEvent::Polled { lines: 0x800, now: None }),
        StepAction::CheckInterrupts
    );
    // The software bit stays, the timer line fell and the external line rose.
    assert_eq!(cpu.csrs[CSR_MIP as usize], 0x802);
    cpu.csrs[CSR_MENVCFG as usize] = 1 << 63;
    cpu.csrs[CSR_STIMECMP as usize] = 100;
    cpu.poll_counter = 255;
    assert_eq!(
        cpu.step(StepEvent::Begin),
        StepAction::Poll { hart_id: 3, wants_time: true }
    );
    cpu.step(StepEvent::Polled { lines: 0x800, now: Some(99) });
    assert_eq!(cpu.csrs[CSR_MIP as usize], 0x802);
    cpu.step(StepEvent::Polled { lines: 0x800, now: Some(100) });
    assert_eq!(cpu.csrs[CSR_MIP as usize], 0x822);
}

#[test]
fn steps_fall_back_to_the_interpreter() {
    let mut cpu = hart();
    assert_eq!(cpu.step(StepEvent::Checked(None)), StepAction::RunBlock);
    assert_eq!(cpu.step(StepEvent::NoBlock), StepAction::Interpret);
    assert_eq!(
        cpu.step(StepEvent::Checked(Some(Trap::Breakpoint))),
        StepAction::Deliver(Trap::Breakpoint)
    );
    assert_eq!(cpu.step_single(StepEvent::Begin), StepAction::Interpret);
    cpu.use_blocks = false;
    assert_eq!(cpu.step(StepEvent::Checked(None)), StepAction::Interpret);
}

#[test]
fn codes_stand_for_traps() {
    let cpu = hart();
    assert_eq!(cpu.trap_from_code(trap_codes::LOAD_PAGE_FAULT, 5), Trap::LoadPageFault(5));
    assert_eq!(cpu.trap_from_code(trap_codes::EBREAK, 5), Trap::Breakpoint);
    assert_eq!(cpu.trap_from_code(trap_codes::ECALL, 5), Trap::EnvironmentCallFromM);
    assert_eq!(cpu.trap_from_code(99, 5), Trap::IllegalInstruction(99));
}

#[test]
fn compiled_code_hands_the_registers_back() {
    let mut cpu = hart();
    cpu.write_reg(7, 70);
    let mut shared = vec![0u8; HEADER_SIZE];
    assert_eq!(
        cpu.prepare_jit_block(false, &mut shared),
        Some(JitBlockResult::FallbackToInterpreter)
    );
    assert!(shared.iter().all(|byte| *byte == 0));
    assert_eq!(cpu.prepare_jit_block(true, &mut shared), None);
    set_interrupt_pending(&mut shared, false);
    cpu.write_reg(7, 0);
    let left = cpu.finish_jit_block(&shared, Some(JitExecResult::Continue(BASE + 0x30)));
    assert_eq!(left, Ok(JitBlockResult::Continue));
    assert_eq!(cpu.read_reg(7), 70);
    assert_eq!(cpu.pc, BASE + 0x30);
    let left = cpu.finish_jit_block(
        &shared,
        Some(JitExecResult::Trap { code: trap_codes::EBREAK, fault_pc: BASE + 8 }),
    );
    assert_eq!(left, Err(Trap::Breakpoint));
    assert_eq!(cpu.pc, BASE + 8);
    assert_eq!(
        cpu.finish_jit_block(&shared, None),
        Ok(JitBlockResult::FallbackToInterpreter)
    );
}

#[test]
fn hot_blocks_are_compiled() {
    let mut cpu = hart();
    cpu.use_jit = true;
    let mut block = Block::new(BASE, BASE, 0);
    for _ in 0..4 {
        block.push(MicroOp::Lui { rd: 1, imm: 0x1000 }, 4);
    }
    assert!(cpu.trigger_jit_compilation(BASE, &block));
    assert!(cpu.jit_cache.contains(BASE));
    // Blocks that cannot be compiled are not tried again.
    let small = Block::new(BASE + 0x100, BASE + 0x100, 0);
    assert!(cpu.trigger_jit_compilation(BASE + 0x100, &small));
    assert!(!cpu.jit_cache.contains(BASE + 0x100));
    assert!(cpu.jit_cache.is_blacklisted(BASE + 0x100));
    assert!(cpu.finish_jit_compilation(
        BASE + 0x200,
        CompilationResult::Error("no".to_string())
    ));
    assert!(cpu.jit_cache.is_blacklisted(BASE + 0x200));
}

#[test]
fn blocks_are_compiled_once_they_ran_often() {
    let mut cpu = hart();
    cpu.use_jit = true;
    let mut block = Block::new(BASE, BASE, 0);
    for _ in 0..4 {
        block.push(MicroOp::Lui { rd: 1, imm: 0x1000 }, 4);
    }
    block.exec_count = 49;
    assert_eq!(cpu.begin_block(Some(&block)), BlockAction::Execute);
    assert!(!cpu.jit_cache.contains(BASE));
    block.exec_count = 50;
    assert_eq!(cpu.begin_block(Some(&block)), BlockAction::Execute);
    assert!(cpu.jit_cache.contains(BASE));
    assert_eq!(cpu.begin_block(None), BlockAction::Decode);
}

#[test]
fn compilations_elsewhere_are_noted() {
    let mut cpu = hart();
    let mut block = Block::new(BASE, BASE, 0);
    block.push(MicroOp::Fence, 4);
    let request = cpu.request_jit_compilation(BASE, &block);
    assert_eq!(request.pc, BASE);
    assert_eq!(request.ops.len(), 1);
    assert!(cpu.jit_cache.is_compiling(BASE));
    cpu.handle_jit_compile_result(BASE, true, Some(vec![0, 97, 115, 109]));
    assert!(cpu.jit_cache.contains(BASE));
    assert!(!cpu.jit_cache.is_compiling(BASE));
    cpu.handle_jit_compile_result(BASE + 4, true, None);
    assert!(!cpu.jit_cache.contains(BASE + 4));
    assert!(!cpu.jit_cache.is_blacklisted(BASE + 4));
    cpu.handle_jit_compile_result(BASE + 4, false, None);
    assert!(cpu.jit_cache.is_blacklisted(BASE + 4));
}

#[test]
fn executions_are_counted_up_to_the_limit() {
    let mut block = Block::new(BASE, BASE, 0);
    count_execution(&mut block);
    assert_eq!(block.exec_count, 1);
    block.exec_count = u32::MAX;
    count_execution(&mut block);
    assert_eq!(block.exec_count, u32::MAX);
}

#[test]
fn decoding_decides_how_to_go_on() {
    assert_eq!(after_decoding(DecodeResult::Block), DecodedAction::KeepAndExecute);
    assert_eq!(
        after_decoding(DecodeResult::Trap(Trap::Breakpoint)),
        DecodedAction::Raise(Trap::Breakpoint)
    );
    assert_eq!(after_decoding(DecodeResult::Unsuitable), DecodedAction::Interpret);
}

#[test]
fn branches_go_to_the_program_counter_that_is_told() {
    let mut cpu = hart();
    let mut shared = vec![0; HEADER_SIZE];
    cpu.pc = 0xffff_ffc0_8000_0010;
    sync_to_shared(&cpu, &mut shared);
    let branch = JitExecResult::Branch { new_pc: 0x8000_0010 };
    assert_eq!(cpu.finish_jit_block(&shared, Some(branch)), Ok(JitBlockResult::Continue));
    assert_eq!(cpu.pc, 0xffff_ffc0_8000_0010);
    let branch = JitExecResult::Branch { new_pc: 0x2000 };
    assert_eq!(cpu.finish_jit_block(&shared, Some(branch)), Ok(JitBlockResult::Continue));
    assert_eq!(cpu.pc, 0x2000);
}

#[test]
fn hot_blocks_go_to_the_worker() {
    let mut block = Block::new(BASE, BASE, 0);
    for _ in 0..4 {
        block.push(MicroOp::Lui { rd: 1, imm: 0x1000 }, 4);
    }
    block.exec_count = 50;
    let mut cpu = hart();
    cpu.use_jit = true;
    cpu.jit_config.async_compilation = true;
    let (action, request) = cpu.begin_block_with_worker(Some(&block), true);
    assert_eq!(action, BlockAction::Execute);
    let request = request.unwrap();
    assert_eq!((request.pc, request.byte_len, request.ops.len()), (BASE, 16, 4));
    assert!(cpu.jit_cache.is_compiling(BASE));
    assert!(!cpu.jit_cache.contains(BASE));
    // It is not asked for twice.
    assert!(cpu.begin_block_with_worker(Some(&block), true).1.is_none());
    let (action, request) = cpu.begin_block_with_worker(None, true);
    assert_eq!(action, BlockAction::Decode);
    assert!(request.is_none());
    // Without a worker, or where the settings say so, it is compiled here.
    for (async_compilation, worker) in [(true, false), (false, true)] {
        let mut cpu = hart();
        cpu.use_jit = true;
        cpu.jit_config.async_compilation = async_compilation;
        assert!(cpu.begin_block_with_worker(Some(&block), worker).1.is_none());
        assert!(cpu.jit_cache.contains(BASE));
    }
}
