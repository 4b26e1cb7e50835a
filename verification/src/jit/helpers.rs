//! Memory accesses that compiled code asks of the host.

use crate::bus::SystemBus;
use crate::cpu::types::{AccessType, Mode, Trap};
use crate::mmu::{self, Tlb};
use vstd::prelude::*;

pub mod import_indices;
pub mod type_signatures;

verus! {

use crate::bus::{read_result, write_result, SystemState};
use crate::mmu::{translation, TlbEntry};

/// The code that a failed load answers with: 13 for a page fault and 5 for any other.
pub open spec fn load_fault_code(trap: Trap) -> u64 {
    match trap {
        Trap::LoadPageFault(_) => 13,
        _ => 5,
    }
}

fn load_fault(trap: Trap) -> (code: u8)
    ensures
        code == load_fault_code(trap),
{
    match trap {
        Trap::LoadPageFault(_) => 13,
        _ => 5,
    }
}

/// The code that a failed store answers with: 15 for a page fault and 7 for any other.
pub open spec fn store_fault_code(trap: Trap) -> u32 {
    match trap {
        Trap::StorePageFault(_) => 15,
        _ => 7,
    }
}

fn store_fault(trap: Trap) -> (code: u32)
    ensures
        code == store_fault_code(trap),
{
    match trap {
        Trap::StorePageFault(_) => 15,
        _ => 7,
    }
}

/// The cache after a load of `size` bytes at `vaddr`, and its answer: the value and
/// `true`, or the code of the fault and `false`.
pub open spec fn mmu_read(
    bus: SystemState,
    tlb: Seq<TlbEntry>,
    mode: Mode,
    satp: u64,
    mstatus: u64,
    vaddr: u64,
    size: u64,
) -> (Seq<TlbEntry>, (u64, bool)) {
    let (after, r) = translation(bus, tlb, mode, satp, mstatus, vaddr, AccessType::Load);
    let answer = match r {
        Ok(pa) => match read_result(bus, pa, size) {
            Ok(value) => (value, true),
            Err(_) => (5, false),
        },
        Err(trap) => (load_fault_code(trap), false),
    };
    (after, answer)
}

/// The cache and the bus after a store of the `size` low-order bytes of `value` at
/// `vaddr`, and its answer: zero and `true`, or the code of the fault and `false`.
pub open spec fn mmu_write(
    bus: SystemState,
    tlb: Seq<TlbEntry>,
    mode: Mode,
    satp: u64,
    mstatus: u64,
    vaddr: u64,
    size: u64,
    value: u64,
) -> (Seq<TlbEntry>, SystemState, (u32, bool)) {
    let (after, r) = translation(bus, tlb, mode, satp, mstatus, vaddr, AccessType::Store);
    match r {
        Ok(pa) => {
            let (stored, done) = write_result(bus, pa, size, value);
            (
                after,
                stored,
                match done {
                    Ok(_) => (0, true),
                    Err(_) => (7, false),
                },
            )
        },
        Err(trap) => (after, bus, (store_fault_code(trap), false)),
    }
}

/// Loads 8 bytes with translation: the value and `true`, or the code of the fault and
/// `false`.
pub fn mmu_read_u64(
    bus: &SystemBus,
    tlb: &mut Tlb,
    mode: Mode,
    satp: u64,
    mstatus: u64,
    vaddr: u64,
) -> (answer: (u64, bool))
    ensures
        ({
            let (after, (value, ok)) = mmu_read(bus@, old(tlb)@, mode, satp, mstatus, vaddr, 8);
            final(tlb)@ == after && answer == (value as u64, ok)
        }),
{
    match mmu::translate(bus, tlb, mode, satp, mstatus, vaddr, AccessType::Load) {
        Ok(pa) => match bus.read64(pa) {
            Ok(value) => (value, true),
            Err(_) => (5, false),
        },
        Err(trap) => (load_fault(trap) as u64, false),
    }
}

/// Loads 4 bytes with translation: the value and `true`, or the code of the fault and
/// `false`.
pub fn mmu_read_u32(
    bus: &SystemBus,
    tlb: &mut Tlb,
    mode: Mode,
    satp: u64,
    mstatus: u64,
    vaddr: u64,
) -> (answer: (u32, bool))
    ensures
        ({
            let (after, (value, ok)) = mmu_read(bus@, old(tlb)@, mode, satp, mstatus, vaddr, 4);
            final(tlb)@ == after && answer == (value as u32, ok)
        }),
{
    match mmu::translate(bus, tlb, mode, satp, mstatus, vaddr, AccessType::Load) {
        Ok(pa) => match bus.read32(pa) {
            Ok(value) => (value, true),
            Err(_) => (5, false),
        },
        Err(trap) => (load_fault(trap) as u32, false),
    }
}

/// Loads 2 bytes with translation: the value and `true`, or the code of the fault and
/// `false`.
pub fn mmu_read_u16(
    bus: &SystemBus,
    tlb: &mut Tlb,
    mode: Mode,
    satp: u64,
    mstatus: u64,
    vaddr: u64,
) -> (answer: (u16, bool))
    ensures
        ({
            let (after, (value, ok)) = mmu_read(bus@, old(tlb)@, mode, satp, mstatus, vaddr, 2);
            final(tlb)@ == after && answer == (value as u16, ok)
        }),
{
    match mmu::translate(bus, tlb, mode, satp, mstatus, vaddr, AccessType::Load) {
        Ok(pa) => match bus.read16(pa) {
            Ok(value) => (value, true),
            Err(_) => (5, false),
        },
        Err(trap) => (load_fault(trap) as u16, false),
    }
}

/// Loads 1 byte with translation: the value and `true`, or the code of the fault and
/// `false`.
pub fn mmu_read_u8(
    bus: &SystemBus,
    tlb: &mut Tlb,
    mode: Mode,
    satp: u64,
    mstatus: u64,
    vaddr: u64,
) -> (answer: (u8, bool))
    ensures
        ({
            let (after, (value, ok)) = mmu_read(bus@, old(tlb)@, mode, satp, mstatus, vaddr, 1);
            final(tlb)@ == after && answer == (value as u8, ok)
        }),
{
    match mmu::translate(bus, tlb, mode, satp, mstatus, vaddr, AccessType::Load) {
        Ok(pa) => match bus.read8(pa) {
            Ok(value) => (value, true),
            Err(_) => (5, false),
        },
        Err(trap) => (load_fault(trap), false),
    }
}

/// Stores 8 bytes with translation: zero and `true`, or the code of the fault and `false`.
pub fn mmu_write_u64(
    bus: &mut SystemBus,
    tlb: &mut Tlb,
    mode: Mode,
    satp: u64,
    mstatus: u64,
    vaddr: u64,
    value: u64,
) -> (answer: (u32, bool))
    ensures
        (final(tlb)@, final(bus)@, answer) == mmu_write(
            old(bus)@,
            old(tlb)@,
            mode,
            satp,
            mstatus,
            vaddr,
            8,
            value,
        ),
{
    match mmu::translate(bus, tlb, mode, satp, mstatus, vaddr, AccessType::Store) {
        Ok(pa) => match bus.write64(pa, value) {
            Ok(_) => (0, true),
            Err(_) => (7, false),
        },
        Err(trap) => (store_fault(trap), false),
    }
}

/// Stores 4 bytes with translation: zero and `true`, or the code of the fault and `false`.
pub fn mmu_write_u32(
    bus: &mut SystemBus,
    tlb: &mut Tlb,
    mode: Mode,
    satp: u64,
    mstatus: u64,
    vaddr: u64,
    value: u32,
) -> (answer: (u32, bool))
    ensures
        (final(tlb)@, final(bus)@, answer) == mmu_write(
            old(bus)@,
            old(tlb)@,
            mode,
            satp,
            mstatus,
            vaddr,
            4,
            value as u64,
        ),
{
    match mmu::translate(bus, tlb, mode, satp, mstatus, vaddr, AccessType::Store) {
        Ok(pa) => match bus.write32(pa, value) {
            Ok(_) => (0, true),
            Err(_) => (7, false),
        },
        Err(trap) => (store_fault(trap), false),
    }
}

/// Stores 2 bytes with translation: zero and `true`, or the code of the fault and `false`.
pub fn mmu_write_u16(
    bus: &mut SystemBus,
    tlb: &mut Tlb,
    mode: Mode,
    satp: u64,
    mstatus: u64,
    vaddr: u64,
    value: u16,
) -> (answer: (u32, bool))
    ensures
        (final(tlb)@, final(bus)@, answer) == mmu_write(
            old(bus)@,
            old(tlb)@,
            mode,
            satp,
            mstatus,
            vaddr,
            2,
            value as u64,
        ),
{
    match mmu::translate(bus, tlb, mode, satp, mstatus, vaddr, AccessType::Store) {
        Ok(pa) => match bus.write16(pa, value) {
            Ok(_) => (0, true),
            Err(_) => (7, false),
        },
        Err(trap) => (store_fault(trap), false),
    }
}

/// Stores 1 byte with translation: zero and `true`, or the code of the fault and `false`.
pub fn mmu_write_u8(
    bus: &mut SystemBus,
    tlb: &mut Tlb,
    mode: Mode,
    satp: u64,
    mstatus: u64,
    vaddr: u64,
    value: u8,
) -> (answer: (u32, bool))
    ensures
        (final(tlb)@, final(bus)@, answer) == mmu_write(
            old(bus)@,
            old(tlb)@,
            mode,
            satp,
            mstatus,
            vaddr,
            1,
            value as u64,
        ),
{
    match mmu::translate(bus, tlb, mode, satp, mstatus, vaddr, AccessType::Store) {
        Ok(pa) => match bus.write8(pa, value) {
            Ok(_) => (0, true),
            Err(_) => (7, false),
        },
        Err(trap) => (store_fault(trap), false),
    }
}

} // verus!
