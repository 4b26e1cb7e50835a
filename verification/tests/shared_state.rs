use riscv_vm::bus::SystemBus;
use riscv_vm::cpu::csr::CSR_SATP;
use riscv_vm::cpu::hart::Cpu;
use riscv_vm::cpu::types::Mode;
use riscv_vm::jit::runtime::native;
use riscv_vm::jit::runtime::{
    host_read_u16, host_read_u32, host_read_u64, host_read_u8, host_write_u16, host_write_u32,
    host_write_u64, host_write_u8, set_trap_flag, JitExecResult,
};
use riscv_vm::jit::state::{
    csr_mirror, interrupt_pending, invalidate_tlb, invalidate_tlb_asid, invalidate_tlb_vpn,
    offsets, set_interrupt_pending, sync_all_to_shared, sync_from_shared, sync_tlb_to_shared,
    sync_to_shared, tlb_entry, CSR_REGION_OFFSET, HEADER_SIZE, JIT_STATE_OFFSET, TLB_ENTRY_SIZE,
    TLB_REGION_OFFSET,
};
use riscv_vm::jit::types::JitConfig;
use riscv_vm::mmu::{Tlb, TlbEntry};

const BASE: u64 = 0x8000_0000;

fn hart() -> Cpu {
    Cpu::new(BASE, 0, !0x3f, JitConfig::default())
}

/// The number at a place of the state.
fn number(shared: &[u8], at: usize) -> u64 {
    let mut bytes = [0u8; 8];
    bytes.copy_from_slice(&shared[JIT_STATE_OFFSET + at..JIT_STATE_OFFSET + at + 8]);
    u64::from_le_bytes(bytes)
}

#[test]
fn harts_survive_the_round_trip() {
    let mut cpu = hart();
    for reg in 1..32u8 {
        cpu.write_reg(reg, 0x0101_0101_0101_0101 * reg as u64);
    }
    cpu.mode = Mode::User;
    let mut shared = vec![0xaa; HEADER_SIZE];
    sync_to_shared(&cpu, &mut shared);
    assert_eq!(number(&shared, offsets::reg(5) as usize), 0x0505_0505_0505_0505);
    assert_eq!(number(&shared, offsets::PC as usize), BASE);
    let mut other = hart();
    assert_eq!(sync_from_shared(&mut other, &shared), None);
    assert_eq!(other.regs, cpu.regs);
    assert_eq!(other.pc, cpu.pc);
    // What compiled code leaves alone keeps its bytes.
    assert_eq!(shared[0], 0xaa);
}

#[test]
fn the_zero_register_is_not_read_back() {
    let mut shared = vec![0xff; HEADER_SIZE];
    let mut cpu = hart();
    sync_to_shared(&cpu, &mut shared);
    shared[JIT_STATE_OFFSET] = 9;
    assert_eq!(sync_from_shared(&mut cpu, &shared), None);
    assert_eq!(cpu.read_reg(0), 0);
}

#[test]
fn told_traps_are_read() {
    let mut cpu = hart();
    let mut shared = vec![0; HEADER_SIZE];
    sync_to_shared(&cpu, &mut shared);
    set_trap_flag(&mut shared, 13, 0x1234);
    assert_eq!(sync_from_shared(&mut cpu, &shared), Some((13, 0x1234)));
    sync_to_shared(&cpu, &mut shared);
    assert_eq!(sync_from_shared(&mut cpu, &shared), None);
}

#[test]
fn interrupts_can_be_announced() {
    let mut shared = vec![0; HEADER_SIZE];
    assert!(!interrupt_pending(&shared));
    set_interrupt_pending(&mut shared, true);
    assert!(interrupt_pending(&shared));
    set_interrupt_pending(&mut shared, false);
    assert!(!interrupt_pending(&shared));
}

/// Whether the shared memory has a translation in a slot.
fn valid(shared: &[u8], slot: usize) -> bool {
    let at = JIT_STATE_OFFSET + TLB_REGION_OFFSET + slot * TLB_ENTRY_SIZE;
    shared[at + tlb_entry::VALID as usize] != 0
}

fn entry(vpn: u64, asid: u16, perm: u8) -> TlbEntry {
    TlbEntry { vpn, ppn: 0x80000, asid, perm, level: 0, valid: true }
}

#[test]
fn translations_can_be_dropped() {
    let mut cpu = hart();
    cpu.tlb.set_entry(1, entry(1, 5, tlb_entry::PERM_READ));
    cpu.tlb.set_entry(2, entry(66, 5, tlb_entry::PERM_READ | tlb_entry::PERM_GLOBAL));
    cpu.tlb.set_entry(3, entry(3, 6, tlb_entry::PERM_READ));
    let mut shared = vec![0; HEADER_SIZE];
    sync_tlb_to_shared(&cpu, &mut shared);
    assert_eq!(number(&shared, TLB_REGION_OFFSET + 2 * TLB_ENTRY_SIZE), 66);
    let full = shared.clone();

    invalidate_tlb_asid(&mut shared, 5);
    assert!(!valid(&shared, 1));
    assert!(valid(&shared, 2));
    assert!(valid(&shared, 3));

    let mut shared = full.clone();
    invalidate_tlb_vpn(&mut shared, 3);
    assert!(valid(&shared, 1));
    assert!(!valid(&shared, 3));

    let mut shared = full;
    invalidate_tlb(&mut shared);
    for slot in 0..64 {
        assert!(!valid(&shared, slot));
    }
}

#[test]
fn control_registers_are_mirrored() {
    let mut cpu = hart();
    cpu.csrs[CSR_SATP as usize] = 0x8000_1234_0000_5678;
    let mut shared = vec![0; HEADER_SIZE];
    sync_all_to_shared(&cpu, &mut shared);
    assert_eq!(
        number(&shared, CSR_REGION_OFFSET + csr_mirror::SATP as usize),
        0x8000_1234_0000_5678
    );
}

#[test]
fn exits_are_packed_with_their_reason() {
    assert_eq!(JitExecResult::make_continue(16), 16);
    assert_eq!(
        JitExecResult::from_i64(JitExecResult::make_trap(u32::MAX), BASE),
        JitExecResult::Trap { code: u32::MAX, fault_pc: BASE }
    );
    assert!(!native::is_available());
    assert_eq!(
        native::execute_jit_module(&[0, 97, 115, 109], BASE),
        JitExecResult::ExitToInterpreter { pc: BASE }
    );
}

#[test]
fn compiled_code_reaches_memory() {
    let mut bus = SystemBus::new(BASE, 0x1000);
    let mut tlb = Tlb::new();
    let mut shared = vec![0; HEADER_SIZE];
    let mode = Mode::Machine;
    let at = BASE as i64;
    assert_eq!(host_write_u64(&mut bus, &mut tlb, mode, 0, 0, &mut shared, at, -2), 0);
    assert_eq!(host_read_u64(&bus, &mut tlb, mode, 0, 0, &mut shared, at), -2);
    assert_eq!(host_read_u32(&bus, &mut tlb, mode, 0, 0, &mut shared, at), -2);
    assert_eq!(host_read_u16(&bus, &mut tlb, mode, 0, 0, &mut shared, at), 0xfffe);
    assert_eq!(host_read_u8(&bus, &mut tlb, mode, 0, 0, &mut shared, at), 0xfe);
    assert_eq!(host_write_u32(&mut bus, &mut tlb, mode, 0, 0, &mut shared, at, 1), 0);
    assert_eq!(host_write_u16(&mut bus, &mut tlb, mode, 0, 0, &mut shared, at + 4, 2), 0);
    assert_eq!(host_write_u8(&mut bus, &mut tlb, mode, 0, 0, &mut shared, at + 6, 3), 0);
    assert_eq!(bus.read64(BASE), Ok(0xff03_0002_0000_0001));
    let mut cpu = hart();
    assert_eq!(sync_from_shared(&mut cpu, &shared), None);
    // A failure is told as a trap.
    assert_eq!(host_read_u64(&bus, &mut tlb, mode, 0, 0, &mut shared, 0x10), -1);
    assert_eq!(sync_from_shared(&mut cpu, &shared), Some((5, 0x10)));
}

#[test]
fn translations_leave_the_ends_of_their_entries_alone() {
    let cpu = hart();
    for sync in [sync_tlb_to_shared, sync_all_to_shared] {
        let mut shared = vec![0xa5; HEADER_SIZE];
        sync(&cpu, &mut shared);
        for index in 0..64 {
            let at = JIT_STATE_OFFSET + TLB_REGION_OFFSET + index * TLB_ENTRY_SIZE;
            assert_eq!(shared[at + tlb_entry::VALID as usize], 0);
            assert_eq!(&shared[at + 21..at + 24], &[0xa5; 3]);
        }
    }
}
