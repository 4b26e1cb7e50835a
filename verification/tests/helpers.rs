use riscv_vm::bus::SystemBus;
use riscv_vm::cpu::types::Mode;
use riscv_vm::jit::helpers::{
    mmu_read_u16, mmu_read_u32, mmu_read_u64, mmu_read_u8, mmu_write_u16, mmu_write_u32,
    mmu_write_u64, mmu_write_u8,
};
use riscv_vm::mmu::Tlb;

fn make_bus() -> SystemBus {
    SystemBus::new(0x8000_0000, 1024 * 1024) // 1MB
}

#[test]
fn test_mmu_read_success_machine_mode() {
    let mut bus = make_bus();
    let mut tlb = Tlb::new();

    // Write test data
    bus.write64(0x8000_0100, 0xDEADBEEF_CAFEBABE).unwrap();

    // In Machine mode, no translation occurs (satp=0 means Bare mode)
    let (val, ok) = mmu_read_u64(&bus, &mut tlb, Mode::Machine, 0, 0, 0x8000_0100);
    assert!(ok);
    assert_eq!(val, 0xDEADBEEF_CAFEBABE);
}

#[test]
fn test_mmu_read_u32_success() {
    let mut bus = make_bus();
    let mut tlb = Tlb::new();

    bus.write32(0x8000_0200, 0x12345678).unwrap();

    let (val, ok) = mmu_read_u32(&bus, &mut tlb, Mode::Machine, 0, 0, 0x8000_0200);
    assert!(ok);
    assert_eq!(val, 0x12345678);
}

#[test]
fn test_mmu_write_success() {
    let mut bus = make_bus();
    let mut tlb = Tlb::new();

    let (code, ok) = mmu_write_u64(&mut bus, &mut tlb, Mode::Machine, 0, 0, 0x8000_0300, 0xABCD);
    assert!(ok);
    assert_eq!(code, 0);

    // Verify the write
    let val = bus.read64(0x8000_0300).unwrap();
    assert_eq!(val, 0xABCD);
}

#[test]
fn test_mmu_read_access_fault() {
    let mut bus = make_bus();
    let mut tlb = Tlb::new();

    // Address 0x0 is outside DRAM, should cause LoadAccessFault
    let (code, ok) = mmu_read_u64(&bus, &mut tlb, Mode::Machine, 0, 0, 0x0);
    assert!(!ok);
    assert_eq!(code, 5); // LoadAccessFault
}

#[test]
fn test_mmu_write_access_fault() {
    let mut bus = make_bus();
    let mut tlb = Tlb::new();

    // Address 0x0 is outside DRAM, should cause StoreAccessFault
    let (code, ok) = mmu_write_u64(&mut bus, &mut tlb, Mode::Machine, 0, 0, 0x0, 42);
    assert!(!ok);
    assert_eq!(code, 7); // StoreAccessFault
}

#[test]
fn test_mmu_read_all_sizes() {
    let mut bus = make_bus();
    let mut tlb = Tlb::new();
    let base = 0x8000_0400;

    // Write a known pattern
    bus.write64(base, 0x8877_6655_4433_2211).unwrap();

    // Read as u8
    let (val, ok) = mmu_read_u8(&bus, &mut tlb, Mode::Machine, 0, 0, base);
    assert!(ok);
    assert_eq!(val, 0x11);

    // Read as u16
    let (val, ok) = mmu_read_u16(&bus, &mut tlb, Mode::Machine, 0, 0, base);
    assert!(ok);
    assert_eq!(val, 0x2211);

    // Read as u32
    let (val, ok) = mmu_read_u32(&bus, &mut tlb, Mode::Machine, 0, 0, base);
    assert!(ok);
    assert_eq!(val, 0x4433_2211);

    // Read as u64
    let (val, ok) = mmu_read_u64(&bus, &mut tlb, Mode::Machine, 0, 0, base);
    assert!(ok);
    assert_eq!(val, 0x8877_6655_4433_2211);
}

#[test]
fn test_mmu_write_all_sizes() {
    let mut bus = make_bus();
    let mut tlb = Tlb::new();
    let base = 0x8000_0500;

    // Clear the memory
    bus.write64(base, 0).unwrap();

    // Write u8
    let (code, ok) = mmu_write_u8(&mut bus, &mut tlb, Mode::Machine, 0, 0, base, 0xAA);
    assert!(ok);
    assert_eq!(code, 0);

    // Write u16 at offset 2
    let (code, ok) = mmu_write_u16(&mut bus, &mut tlb, Mode::Machine, 0, 0, base + 2, 0xBBCC);
    assert!(ok);
    assert_eq!(code, 0);

    // Write u32 at offset 4
    let (code, ok) = mmu_write_u32(&mut bus, &mut tlb, Mode::Machine, 0, 0, base + 4, 0xDDEE_FF00);
    assert!(ok);
    assert_eq!(code, 0);

    // Verify final value
    let val = bus.read64(base).unwrap();
    assert_eq!(val, 0xDDEE_FF00_BBCC_00AA);
}
