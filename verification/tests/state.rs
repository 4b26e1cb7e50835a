use riscv_vm::jit::state::{
    csr_mirror, offsets, tlb_entry, trap_codes, CSR_REGION_OFFSET, CSR_REGION_SIZE,
    JIT_STATE_SIZE, TLB_ENTRY_SIZE, TLB_MASK, TLB_REGION_OFFSET, TLB_REGION_SIZE, TLB_SIZE,
};

#[test]
fn test_register_offsets() {
    // Verify register offsets are correctly calculated
    assert_eq!(offsets::reg(0), 0x0000);
    assert_eq!(offsets::reg(1), 0x0008);
    assert_eq!(offsets::reg(31), 0x00F8);
}

#[test]
fn test_trap_codes_match_riscv_spec() {
    // RISC-V exception codes from privileged spec
    assert_eq!(trap_codes::ILLEGAL_INSTRUCTION, 2);
    assert_eq!(trap_codes::EBREAK, 3);
    assert_eq!(trap_codes::LOAD_ACCESS_FAULT, 5);
    assert_eq!(trap_codes::STORE_ACCESS_FAULT, 7);
    assert_eq!(trap_codes::LOAD_PAGE_FAULT, 13);
    assert_eq!(trap_codes::STORE_PAGE_FAULT, 15);
}

#[test]
fn test_state_region_size() {
    // Verify the state region doesn't exceed allocated size
    let max_used = offsets::EXIT_CODE + 8; // Last field + its size
    assert!(max_used as usize <= JIT_STATE_SIZE);
}

#[test]
fn test_tlb_region_fits() {
    // Verify TLB region fits within JIT state
    let tlb_end = TLB_REGION_OFFSET + TLB_REGION_SIZE;
    assert!(
        tlb_end <= JIT_STATE_SIZE,
        "TLB region ({} bytes) exceeds JIT state size ({} bytes)",
        tlb_end,
        JIT_STATE_SIZE
    );
}

#[test]
fn test_tlb_mask() {
    // Verify TLB_MASK is correct for TLB_SIZE
    assert_eq!(TLB_MASK, (TLB_SIZE - 1) as u64);
    // TLB_SIZE should be power of 2
    assert!(TLB_SIZE.is_power_of_two());
}

#[test]
fn test_csr_region_fits() {
    // Verify CSR region fits within JIT state
    let csr_end = CSR_REGION_OFFSET + CSR_REGION_SIZE;
    assert!(
        csr_end <= JIT_STATE_SIZE,
        "CSR region ({} bytes @ 0x{:X}) exceeds JIT state size ({} bytes)",
        CSR_REGION_SIZE,
        CSR_REGION_OFFSET,
        JIT_STATE_SIZE
    );
}

#[test]
fn test_regions_non_overlapping() {
    // Verify memory regions don't overlap
    // Registers: 0x0000 - 0x0100
    // PC/Mode: 0x0100 - 0x0110
    // Trap: 0x0200 - 0x0280
    // Helper: 0x0300 - 0x0400
    // TLB: 0x0400 - 0x0A00
    // CSR: 0x0A00 - 0x0B00

    let tlb_end = TLB_REGION_OFFSET + TLB_REGION_SIZE;
    assert!(
        tlb_end <= CSR_REGION_OFFSET,
        "TLB region (ends at 0x{:X}) overlaps CSR region (starts at 0x{:X})",
        tlb_end,
        CSR_REGION_OFFSET
    );

    // Verify TLB starts after helper results
    assert!(
        0x0400 <= TLB_REGION_OFFSET,
        "TLB region (0x{:X}) overlaps helper results region",
        TLB_REGION_OFFSET
    );
}

#[test]
fn test_tlb_entry_layout() {
    // Verify TLB entry size matches field layout
    let expected_size = 24; // vpn(8) + ppn(8) + asid(2) + perm(1) + level(1) + valid(1) + pad(3)
    assert_eq!(TLB_ENTRY_SIZE, expected_size);

    // Verify field offsets don't overlap
    assert!(tlb_entry::VPN < tlb_entry::PPN);
    assert!(tlb_entry::PPN < tlb_entry::ASID);
    assert!(tlb_entry::ASID < tlb_entry::PERM);
    assert!(tlb_entry::PERM < tlb_entry::LEVEL);
    assert!(tlb_entry::LEVEL < tlb_entry::VALID);
    assert!(tlb_entry::VALID < TLB_ENTRY_SIZE as u32);
}

#[test]
fn test_csr_mirror_offsets() {
    // Verify CSR mirror offsets are sequential and don't overlap
    assert!(csr_mirror::SATP < csr_mirror::MSTATUS);
    assert!(csr_mirror::MSTATUS < csr_mirror::PRIVILEGE);
    assert!(csr_mirror::PRIVILEGE < csr_mirror::CURRENT_ASID);
    assert!(csr_mirror::CURRENT_ASID < csr_mirror::MEDELEG);
    assert!(csr_mirror::MEDELEG < csr_mirror::MIDELEG);
    assert!(csr_mirror::MIDELEG < csr_mirror::MIE);
    assert!(csr_mirror::MIE < csr_mirror::MIP);

    // Verify all CSRs fit in the region
    let last_csr_end = csr_mirror::MIP as usize + 8;
    assert!(
        last_csr_end <= CSR_REGION_SIZE,
        "CSR mirror (ends at 0x{:X}) exceeds region size (0x{:X})",
        last_csr_end,
        CSR_REGION_SIZE
    );
}

#[test]
fn test_interrupt_pending_offset() {
    // Verify interrupt pending is in the helper/JIT flags region
    assert!(offsets::INTERRUPT_PENDING >= 0x0300);
    assert!(offsets::INTERRUPT_PENDING < TLB_REGION_OFFSET as u32);
}

#[test]
fn test_jit_state_offsets() {
    // Verify new JIT state offsets are in correct region
    assert!(offsets::INSN_COUNT >= 0x0310);
    assert!(offsets::ENTRY_PC >= 0x0318);
    assert!(offsets::EXIT_CODE >= 0x0328);

    // All should be before TLB region
    assert!((offsets::EXIT_CODE as usize + 8) <= TLB_REGION_OFFSET);
}

#[test]
fn test_tlb_permission_bits() {
    // Verify permission bits don't overlap
    assert_eq!(tlb_entry::PERM_READ, 1 << 0);
    assert_eq!(tlb_entry::PERM_WRITE, 1 << 1);
    assert_eq!(tlb_entry::PERM_EXEC, 1 << 2);
    assert_eq!(tlb_entry::PERM_USER, 1 << 3);
    assert_eq!(tlb_entry::PERM_ACCESSED, 1 << 4);
    assert_eq!(tlb_entry::PERM_DIRTY, 1 << 5);
    assert_eq!(tlb_entry::PERM_GLOBAL, 1 << 6);

    // All bits should fit in one byte (verify no overflow in const definitions)
    let all_bits: u8 = tlb_entry::PERM_READ
        | tlb_entry::PERM_WRITE
        | tlb_entry::PERM_EXEC
        | tlb_entry::PERM_USER
        | tlb_entry::PERM_ACCESSED
        | tlb_entry::PERM_DIRTY
        | tlb_entry::PERM_GLOBAL;
    // Verify no bits overlap (all should be distinct)
    assert_eq!(all_bits.count_ones(), 7);
}
