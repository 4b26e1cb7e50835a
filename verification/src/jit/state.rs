//! The memory that a hart shares with compiled code.

use crate::bytes;
use crate::cpu::csr::{CSR_MEDELEG, CSR_MIDELEG, CSR_MIE, CSR_MIP, CSR_MSTATUS, CSR_SATP};
use crate::cpu::hart::Cpu;
use crate::mmu::TlbEntry;
use vstd::prelude::*;

pub mod csr_mirror;
pub mod offsets;
pub mod tlb_entry;
pub mod trap_codes;

verus! {

use crate::bytes::{number_at, same_but};
use crate::cpu::hart::{same_setup, HartState};

/// Where the state region starts in the shared memory.
pub const JIT_STATE_OFFSET: usize = 0x13000;

pub const JIT_STATE_SIZE: usize = 4096;

/// Where main memory starts in the shared memory.
pub const HEADER_SIZE: usize = 0x14000;

pub const TLB_SIZE: usize = 64;

/// Picks the entry for a page number.
pub const TLB_MASK: u64 = 63;

/// The fields of an entry and three bytes of padding.
pub const TLB_ENTRY_SIZE: usize = 24;

pub const TLB_REGION_SIZE: usize = TLB_SIZE * TLB_ENTRY_SIZE;

/// Where the translation entries start, relative to the state region.
pub const TLB_REGION_OFFSET: usize = 0x0400;

/// Where the mirrored control registers start, relative to the state region.
pub const CSR_REGION_OFFSET: usize = 0x0A00;

pub const CSR_REGION_SIZE: usize = 0x0100;

/// The physical address at which main memory starts.
pub const DRAM_BASE: u64 = 0x8000_0000;

// Places in the shared memory.

/// The place of a field of the state region.
pub open spec fn state_place(offset: u32) -> int {
    JIT_STATE_OFFSET + offset
}

/// The place of a translation entry.
pub open spec fn entry_place(index: int) -> int {
    JIT_STATE_OFFSET + TLB_REGION_OFFSET + index * TLB_ENTRY_SIZE
}

/// The place of a mirrored control register.
pub open spec fn csr_place(offset: u32) -> int {
    JIT_STATE_OFFSET + CSR_REGION_OFFSET + offset
}

/// The shared memory holds the whole state region.
pub open spec fn holds_state(shared: Seq<u8>) -> bool {
    shared.len() >= HEADER_SIZE
}

/// That the shared memory tells registers, program counter and mode of a hart, and no
/// trap.
pub open spec fn tells_hart(shared: Seq<u8>, s: HartState) -> bool {
    &&& forall|i: int| 0 <= i < 32 ==> #[trigger] register_at(shared, i) == s.regs[i]
    &&& number_at(shared, state_place(offsets::PC), 8) == s.pc
    &&& shared[state_place(offsets::MODE)] == s.mode.number()
    &&& shared[state_place(offsets::TRAP_PENDING)] == 0
}

/// Register `i` in the shared memory.
pub open spec fn register_at(shared: Seq<u8>, i: int) -> u64 {
    number_at(shared, state_place(offsets::REGS_BASE) + i * offsets::REG_SIZE, 8)
}

/// Whether `k` is one of the places that describe a hart.
pub open spec fn describes_hart(k: int) -> bool {
    state_place(offsets::REGS_BASE) <= k <= state_place(offsets::MODE) || k == state_place(
        offsets::TRAP_PENDING,
    )
}

/// Writes registers, program counter and mode of a hart to the shared memory, and that
/// there is no trap.
pub fn sync_to_shared(cpu: &Cpu, shared: &mut Vec<u8>)
    requires
        holds_state(old(shared)@),
    ensures
        tells_hart(final(shared)@, cpu@),
        final(shared)@.len() == old(shared)@.len(),
        forall|k: int|
            0 <= k < old(shared)@.len() && !describes_hart(k) ==> #[trigger] final(shared)@[k] == old(
                shared,
            )@[k],
{
    let mut i: usize = 0;
    proof {
        bytes::lemma_pow256_values();
    }
    while i < 32
        invariant
            i <= 32,
            holds_state(shared@),
            shared@.len() == old(shared)@.len(),
            bytes::pow256(8) == 0x1_0000_0000_0000_0000,
            forall|j: int| 0 <= j < i ==> #[trigger] register_at(shared@, j) == cpu@.regs[j],
            forall|k: int|
                0 <= k < old(shared)@.len() && !describes_hart(k) ==> #[trigger] shared@[k] == old(
                    shared,
                )@[k],
        decreases 32 - i,
    {
        let ghost before = shared@;
        let at: usize = JIT_STATE_OFFSET + offsets::reg(i as u8) as usize;
        bytes::put(shared, at, 8, cpu.regs[i]);
        proof {
            assert forall|j: int| 0 <= j < i + 1 implies #[trigger] register_at(shared@, j)
                == cpu@.regs[j] by {
                if j < i {
                    let place = state_place(offsets::REGS_BASE) + j * offsets::REG_SIZE;
                    bytes::lemma_number_agrees(shared@, before, place, 8);
                    assert(register_at(before, j) == cpu@.regs[j]);
                }
            }
        }
        i = i + 1;
    }
    let ghost regs = shared@;
    bytes::put(shared, JIT_STATE_OFFSET + offsets::PC as usize, 8, cpu.pc);
    let ghost with_pc = shared@;
    shared[JIT_STATE_OFFSET + offsets::MODE as usize] = cpu.mode.to_number();
    shared[JIT_STATE_OFFSET + offsets::TRAP_PENDING as usize] = 0;
    proof {
        assert forall|j: int| 0 <= j < 32 implies #[trigger] register_at(shared@, j)
            == cpu@.regs[j] by {
            let place = state_place(offsets::REGS_BASE) + j * offsets::REG_SIZE;
            bytes::lemma_number_agrees(shared@, regs, place, 8);
            assert(register_at(regs, j) == cpu@.regs[j]);
        }
        bytes::lemma_number_agrees(shared@, with_pc, state_place(offsets::PC), 8);
    }
}

/// The hart that the shared memory describes: registers and program counter come from
/// there, and all else stays.
pub open spec fn hart_from(shared: Seq<u8>, s: HartState) -> HartState {
    HartState {
        regs: Seq::new(
            32,
            |i: int|
                if i == 0 {
                    0
                } else {
                    register_at(shared, i)
                },
        ),
        pc: number_at(shared, state_place(offsets::PC), 8),
        ..s
    }
}

/// The trap that the shared memory tells, with its value.
pub open spec fn trap_from(shared: Seq<u8>) -> Option<(u32, u64)> {
    if shared[state_place(offsets::TRAP_PENDING)] != 0 {
        Some(
            (
                number_at(shared, state_place(offsets::TRAP_CODE), 4) as u32,
                number_at(shared, state_place(offsets::TRAP_VALUE), 8),
            ),
        )
    } else {
        None
    }
}

/// Takes registers and program counter back from the shared memory, and gives the trap
/// that it tells.
pub fn sync_from_shared(cpu: &mut Cpu, shared: &[u8]) -> (trap: Option<(u32, u64)>)
    requires
        holds_state(shared@),
    ensures
        final(cpu)@ == hart_from(shared@, old(cpu)@),
        same_setup(*final(cpu), *old(cpu)),
        trap == trap_from(shared@),
{
    let mut i: usize = 0;
    proof {
        bytes::lemma_pow256_values();
    }
    while i < 32
        invariant
            i <= 32,
            holds_state(shared@),
            forall|j: int| 0 <= j < i ==> cpu.regs@[j] == #[trigger] register_at(shared@, j),
            cpu@ == (HartState { regs: cpu.regs@, ..old(cpu)@ }),
            same_setup(*cpu, *old(cpu)),
        decreases 32 - i,
    {
        let at: usize = JIT_STATE_OFFSET + offsets::reg(i as u8) as usize;
        let value: u64 = bytes::read_le(shared, at, 8);
        cpu.regs[i] = value;
        assert(value == register_at(shared@, i as int));
        i = i + 1;
    }
    cpu.regs[0] = 0;
    cpu.pc = bytes::read_le(shared, JIT_STATE_OFFSET + offsets::PC as usize, 8);
    assert(cpu.regs@ =~= hart_from(shared@, old(cpu)@).regs) by {
        assert forall|j: int| 0 <= j < 32 implies cpu.regs@[j] == hart_from(
            shared@,
            old(cpu)@,
        ).regs[j] by {
            if j > 0 {
                assert(cpu.regs@[j] == register_at(shared@, j));
            }
        }
    }
    if shared[JIT_STATE_OFFSET + offsets::TRAP_PENDING as usize] != 0 {
        let code: u64 = bytes::read_le(shared, JIT_STATE_OFFSET + offsets::TRAP_CODE as usize, 4);
        let value: u64 = bytes::read_le(shared, JIT_STATE_OFFSET + offsets::TRAP_VALUE as usize, 8);
        return Some((code as u32, value));
    }
    None
}

// Translation entries.

/// The flag that an entry keeps about its validity.
pub open spec fn valid_flag(entry: TlbEntry) -> u8 {
    if entry.valid {
        1
    } else {
        0
    }
}

/// That the shared memory tells a translation entry.
pub open spec fn tells_entry(shared: Seq<u8>, index: int, entry: TlbEntry) -> bool {
    let place = entry_place(index);
    &&& number_at(shared, place + tlb_entry::VPN, 8) == entry.vpn
    &&& number_at(shared, place + tlb_entry::PPN, 8) == entry.ppn
    &&& number_at(shared, place + tlb_entry::ASID, 2) == entry.asid
    &&& shared[place + tlb_entry::PERM] == entry.perm
    &&& shared[place + tlb_entry::LEVEL] == entry.level
    &&& shared[place + tlb_entry::VALID] == valid_flag(entry)
}

/// An entry is told alike where the bytes agree.
proof fn lemma_entry_agrees(a: Seq<u8>, b: Seq<u8>, index: int, entry: TlbEntry)
    requires
        0 <= index < TLB_SIZE,
        holds_state(a),
        a.len() == b.len(),
        forall|k: int|
            entry_place(index) <= k < entry_place(index) + TLB_ENTRY_SIZE ==> a[k] == b[k],
    ensures
        tells_entry(a, index, entry) == tells_entry(b, index, entry),
{
    let place = entry_place(index);
    bytes::lemma_number_agrees(a, b, place + tlb_entry::VPN, 8);
    bytes::lemma_number_agrees(a, b, place + tlb_entry::PPN, 8);
    bytes::lemma_number_agrees(a, b, place + tlb_entry::ASID, 2);
}

/// Writes one translation entry to the shared memory. There is none past the last.
pub fn sync_tlb_entry_to_shared(entry: &TlbEntry, index: usize, shared: &mut Vec<u8>)
    requires
        holds_state(old(shared)@),
    ensures
        index < TLB_SIZE ==> tells_entry(final(shared)@, index as int, *entry),
        index < TLB_SIZE ==> same_but(
            final(shared)@,
            old(shared)@,
            entry_place(index as int),
            tlb_entry::VALID + 1,
        ),
        index >= TLB_SIZE ==> final(shared)@ == old(shared)@,
{
    if index >= TLB_SIZE {
        return;
    }
    proof {
        bytes::lemma_pow256_values();
    }
    let at: usize = JIT_STATE_OFFSET + TLB_REGION_OFFSET + index * TLB_ENTRY_SIZE;
    bytes::put(shared, at + tlb_entry::VPN as usize, 8, entry.vpn);
    let ghost one = shared@;
    bytes::put(shared, at + tlb_entry::PPN as usize, 8, entry.ppn);
    let ghost two = shared@;
    bytes::put(shared, at + tlb_entry::ASID as usize, 2, entry.asid as u64);
    let ghost three = shared@;
    shared[at + tlb_entry::PERM as usize] = entry.perm;
    shared[at + tlb_entry::LEVEL as usize] = entry.level;
    shared[at + tlb_entry::VALID as usize] = if entry.valid {
        1
    } else {
        0
    };
    proof {
        bytes::lemma_number_agrees(shared@, one, at + tlb_entry::VPN, 8);
        bytes::lemma_number_agrees(shared@, two, at + tlb_entry::PPN, 8);
        bytes::lemma_number_agrees(shared@, three, at + tlb_entry::ASID, 2);
    }
}

/// Whether `k` is one of the places of the translation entries. The last bytes of an entry
/// hold nothing.
pub open spec fn describes_translations(k: int) -> bool {
    &&& entry_place(0) <= k < entry_place(TLB_SIZE as int)
    &&& (k - entry_place(0)) % TLB_ENTRY_SIZE as int <= tlb_entry::VALID
}

/// Writes all translation entries of a hart to the shared memory.
pub fn sync_tlb_to_shared(cpu: &Cpu, shared: &mut Vec<u8>)
    requires
        holds_state(old(shared)@),
    ensures
        forall|i: int| 0 <= i < TLB_SIZE ==> #[trigger] tells_entry(final(shared)@, i, cpu@.tlb[i]),
        final(shared)@.len() == old(shared)@.len(),
        forall|k: int|
            0 <= k < old(shared)@.len() && !describes_translations(k) ==> #[trigger] final(shared)@[k] == old(
                shared,
            )@[k],
{
    let mut i: usize = 0;
    while i < TLB_SIZE
        invariant
            i <= TLB_SIZE,
            holds_state(shared@),
            shared@.len() == old(shared)@.len(),
            forall|j: int| 0 <= j < i ==> #[trigger] tells_entry(shared@, j, cpu@.tlb[j]),
            forall|k: int|
                0 <= k < old(shared)@.len() && !describes_translations(k) ==> #[trigger] shared@[k] == old(
                    shared,
                )@[k],
        decreases TLB_SIZE - i,
    {
        let ghost before = shared@;
        let entry = cpu.tlb.get_entry(i);
        sync_tlb_entry_to_shared(&entry, i, shared);
        proof {
            assert forall|j: int| 0 <= j < i + 1 implies #[trigger] tells_entry(
                shared@,
                j,
                cpu@.tlb[j],
            ) by {
                if j < i {
                    lemma_entry_agrees(shared@, before, j, cpu@.tlb[j]);
                    assert(tells_entry(before, j, cpu@.tlb[j]));
                }
            }
        }
        i = i + 1;
    }
}

// Control registers.

/// That the shared memory tells the control registers that compiled code looks at.
pub open spec fn tells_csrs(shared: Seq<u8>, s: HartState) -> bool {
    &&& number_at(shared, csr_place(csr_mirror::SATP), 8) == s.csrs[CSR_SATP as int]
    &&& number_at(shared, csr_place(csr_mirror::MSTATUS), 8) == s.csrs[CSR_MSTATUS as int]
    &&& number_at(shared, csr_place(csr_mirror::PRIVILEGE), 8) == s.mode.number()
    &&& number_at(shared, csr_place(csr_mirror::CURRENT_ASID), 8) == (s.csrs[CSR_SATP as int] >> 44)
        & 0xffff
    &&& number_at(shared, csr_place(csr_mirror::MEDELEG), 8) == s.csrs[CSR_MEDELEG as int]
    &&& number_at(shared, csr_place(csr_mirror::MIDELEG), 8) == s.csrs[CSR_MIDELEG as int]
    &&& number_at(shared, csr_place(csr_mirror::MIE), 8) == s.csrs[CSR_MIE as int]
    &&& number_at(shared, csr_place(csr_mirror::MIP), 8) == s.csrs[CSR_MIP as int]
}

/// Writes the control registers that compiled code looks at to the shared memory.
pub fn sync_csrs_to_shared(cpu: &Cpu, shared: &mut Vec<u8>)
    requires
        holds_state(old(shared)@),
    ensures
        tells_csrs(final(shared)@, cpu@),
        same_but(final(shared)@, old(shared)@, csr_place(0), 64),
{
    proof {
        bytes::lemma_pow256_values();
    }
    let base: usize = JIT_STATE_OFFSET + CSR_REGION_OFFSET;
    let satp: u64 = cpu.csrs[CSR_SATP as usize];
    bytes::put(shared, base + csr_mirror::SATP as usize, 8, satp);
    let ghost s0 = shared@;
    bytes::put(shared, base + csr_mirror::MSTATUS as usize, 8, cpu.csrs[CSR_MSTATUS as usize]);
    let ghost s1 = shared@;
    bytes::put(shared, base + csr_mirror::PRIVILEGE as usize, 8, cpu.mode.to_number() as u64);
    let ghost s2 = shared@;
    bytes::put(shared, base + csr_mirror::CURRENT_ASID as usize, 8, (satp >> 44) & 0xffff);
    let ghost s3 = shared@;
    bytes::put(shared, base + csr_mirror::MEDELEG as usize, 8, cpu.csrs[CSR_MEDELEG as usize]);
    let ghost s4 = shared@;
    bytes::put(shared, base + csr_mirror::MIDELEG as usize, 8, cpu.csrs[CSR_MIDELEG as usize]);
    let ghost s5 = shared@;
    bytes::put(shared, base + csr_mirror::MIE as usize, 8, cpu.csrs[CSR_MIE as usize]);
    let ghost s6 = shared@;
    bytes::put(shared, base + csr_mirror::MIP as usize, 8, cpu.csrs[CSR_MIP as usize]);
    proof {
        bytes::lemma_number_agrees(shared@, s0, csr_place(csr_mirror::SATP), 8);
        bytes::lemma_number_agrees(shared@, s1, csr_place(csr_mirror::MSTATUS), 8);
        bytes::lemma_number_agrees(shared@, s2, csr_place(csr_mirror::PRIVILEGE), 8);
        bytes::lemma_number_agrees(shared@, s3, csr_place(csr_mirror::CURRENT_ASID), 8);
        bytes::lemma_number_agrees(shared@, s4, csr_place(csr_mirror::MEDELEG), 8);
        bytes::lemma_number_agrees(shared@, s5, csr_place(csr_mirror::MIDELEG), 8);
        bytes::lemma_number_agrees(shared@, s6, csr_place(csr_mirror::MIE), 8);
    }
}

// Interrupts.

/// Whether the shared memory tells that an interrupt is waiting.
pub open spec fn waiting(shared: Seq<u8>) -> bool {
    number_at(shared, state_place(offsets::INTERRUPT_PENDING), 4) != 0
}

/// Tells compiled code whether an interrupt is waiting.
pub fn set_interrupt_pending(shared: &mut Vec<u8>, pending: bool)
    requires
        holds_state(old(shared)@),
    ensures
        number_at(final(shared)@, state_place(offsets::INTERRUPT_PENDING), 4) == (if pending {
            1u64
        } else {
            0
        }),
        same_but(final(shared)@, old(shared)@, state_place(offsets::INTERRUPT_PENDING), 4),
{
    proof {
        bytes::lemma_pow256_values();
    }
    let value: u64 = if pending {
        1
    } else {
        0
    };
    bytes::put(shared, JIT_STATE_OFFSET + offsets::INTERRUPT_PENDING as usize, 4, value);
}

/// Whether an interrupt is waiting.
pub fn interrupt_pending(shared: &[u8]) -> (pending: bool)
    requires
        holds_state(shared@),
    ensures
        pending == waiting(shared@),
{
    bytes::read_le(shared, JIT_STATE_OFFSET + offsets::INTERRUPT_PENDING as usize, 4) != 0
}

// Invalidation.

/// The place of the flag that says whether entry `index` holds a translation.
pub open spec fn valid_place(index: int) -> int {
    entry_place(index) + tlb_entry::VALID
}

/// The shared memory with the entries dropped that `picked` picks.
pub open spec fn invalidated(shared: Seq<u8>, picked: spec_fn(int) -> bool) -> Seq<u8> {
    Seq::new(
        shared.len(),
        |k: int|
            if exists|i: int| 0 <= i < TLB_SIZE && k == #[trigger] valid_place(i) && picked(i) {
                0
            } else {
                shared[k]
            },
    )
}

/// Picks every entry.
pub open spec fn every_entry() -> spec_fn(int) -> bool {
    |i: int| true
}

/// Picks the entry that page `vpn` has, where it holds that page.
pub open spec fn entry_of_page(shared: Seq<u8>, vpn: u64) -> spec_fn(int) -> bool {
    |i: int|
        i == vpn & TLB_MASK && number_at(shared, entry_place(i) + tlb_entry::VPN, 8) == vpn
}

/// Picks the entries of an address space. Entries that hold everywhere are not among them.
pub open spec fn entries_of_space(shared: Seq<u8>, asid: u16) -> spec_fn(int) -> bool {
    |i: int|
        shared[valid_place(i)] != 0 && shared[entry_place(i) + tlb_entry::PERM]
            & tlb_entry::PERM_GLOBAL == 0 && number_at(shared, entry_place(i) + tlb_entry::ASID, 2)
            == asid
}

/// Drops all translation entries.
pub fn invalidate_tlb(shared: &mut Vec<u8>)
    requires
        holds_state(old(shared)@),
    ensures
        final(shared)@ == invalidated(old(shared)@, every_entry()),
{
    let ghost before = shared@;
    let mut i: usize = 0;
    while i < TLB_SIZE
        invariant
            i <= TLB_SIZE,
            holds_state(shared@),
            shared@.len() == before.len(),
            forall|j: int| 0 <= j < i ==> shared@[#[trigger] valid_place(j)] == 0,
            forall|k: int|
                0 <= k < before.len() && (forall|j: int|
                    0 <= j < i ==> k != #[trigger] valid_place(j)) ==> shared@[k] == before[k],
        decreases TLB_SIZE - i,
    {
        let at: usize = JIT_STATE_OFFSET + TLB_REGION_OFFSET + i * TLB_ENTRY_SIZE
            + tlb_entry::VALID as usize;
        let ghost earlier = shared@;
        shared[at] = 0;
        assert(at == valid_place(i as int));
        assert forall|k: int|
            0 <= k < before.len() && (forall|j: int| 0 <= j < i + 1 ==> k != #[trigger] valid_place(j))
            implies shared@[k] == before[k] by {
            assert(k != valid_place(i as int));
            assert(forall|j: int| 0 <= j < i ==> k != #[trigger] valid_place(j));
        }
        i = i + 1;
    }
    let ghost expected = invalidated(before, every_entry());
    assert forall|k: int| 0 <= k < before.len() implies shared@[k] == expected[k] by {
        if exists|j: int| 0 <= j < TLB_SIZE && k == #[trigger] valid_place(j) {
            let j = choose|j: int| 0 <= j < TLB_SIZE && k == #[trigger] valid_place(j);
            assert(shared@[valid_place(j)] == 0);
            assert((every_entry())(j));
        }
    }
    assert(shared@ =~= expected);
}

/// Drops the translation entry of page `vpn`, where there is one.
pub fn invalidate_tlb_vpn(shared: &mut Vec<u8>, vpn: u64)
    requires
        holds_state(old(shared)@),
    ensures
        final(shared)@ == invalidated(old(shared)@, entry_of_page(old(shared)@, vpn)),
{
    let ghost before = shared@;
    let ghost picked = entry_of_page(before, vpn);
    assert(vpn & 63 < 64) by (bit_vector);
    let index: usize = (vpn & TLB_MASK) as usize;
    let at: usize = JIT_STATE_OFFSET + TLB_REGION_OFFSET + index * TLB_ENTRY_SIZE;
    let stored: u64 = bytes::read_le(shared.as_slice(), at + tlb_entry::VPN as usize, 8);
    proof {
        bytes::lemma_pow256_values();
        bytes::lemma_le_value_bound(before.subrange(at as int, at + 8));
    }
    if stored == vpn {
        shared[at + tlb_entry::VALID as usize] = 0;
        assert(valid_place(index as int) == at + tlb_entry::VALID);
        assert(picked(index as int));
    }
    let ghost expected = invalidated(before, picked);
    assert forall|k: int| 0 <= k < before.len() implies shared@[k] == expected[k] by {
        if exists|j: int| 0 <= j < TLB_SIZE && k == #[trigger] valid_place(j) && picked(j) {
            let j = choose|j: int| 0 <= j < TLB_SIZE && k == #[trigger] valid_place(j) && picked(j);
            assert(j == index);
        }
    }
    assert(shared@ =~= expected);
}

/// Drops the translation entries of an address space, of which the low sixteen bits count.
pub fn invalidate_tlb_asid(shared: &mut Vec<u8>, asid: u64)
    requires
        holds_state(old(shared)@),
    ensures
        final(shared)@ == invalidated(old(shared)@, entries_of_space(old(shared)@, asid as u16)),
{
    let ghost before = shared@;
    let asid16: u16 = asid as u16;
    let ghost picked = entries_of_space(before, asid16);
    let mut i: usize = 0;
    while i < TLB_SIZE
        invariant
            i <= TLB_SIZE,
            holds_state(before),
            shared@.len() == before.len(),
            picked == entries_of_space(before, asid16),
            forall|j: int|
                0 <= j < i && picked(j) ==> shared@[#[trigger] valid_place(j)] == 0,
            forall|k: int|
                0 <= k < before.len() && (forall|j: int|
                    0 <= j < i && picked(j) ==> k != #[trigger] valid_place(j)) ==> shared@[k]
                    == before[k],
        decreases TLB_SIZE - i,
    {
        let at: usize = JIT_STATE_OFFSET + TLB_REGION_OFFSET + i * TLB_ENTRY_SIZE;
        let ghost earlier = shared@;
        assert forall|k: int| entry_place(i as int) <= k < entry_place(i + 1) implies earlier[k]
            == before[k] by {
            assert forall|j: int| 0 <= j < i && picked(j) implies k != #[trigger] valid_place(j) by {
                assert(entry_place(j) + TLB_ENTRY_SIZE <= entry_place(i as int));
            }
        }
        proof {
            bytes::lemma_number_agrees(earlier, before, at + tlb_entry::ASID, 2);
            bytes::lemma_le_value_bound(earlier.subrange(at + 16, at + 18));
            bytes::lemma_pow256_values();
        }
        let space: u64 = bytes::read_le(shared.as_slice(), at + tlb_entry::ASID as usize, 2);
        if shared[at + tlb_entry::VALID as usize] != 0 && shared[at + tlb_entry::PERM as usize]
            & tlb_entry::PERM_GLOBAL == 0 && space as u16 == asid16 {
            assert(picked(i as int));
            shared[at + tlb_entry::VALID as usize] = 0;
        } else {
            assert(!picked(i as int));
        }
        assert(valid_place(i as int) == at + tlb_entry::VALID);
        assert forall|k: int|
            0 <= k < before.len() && (forall|j: int|
                0 <= j < i + 1 && picked(j) ==> k != #[trigger] valid_place(j))
            implies shared@[k] == before[k] by {
            assert(forall|j: int| 0 <= j < i && picked(j) ==> k != #[trigger] valid_place(j));
            if picked(i as int) {
                assert(k != valid_place(i as int));
            }
        }
        i = i + 1;
    }
    let ghost expected = invalidated(before, picked);
    assert forall|k: int| 0 <= k < before.len() implies shared@[k] == expected[k] by {
        if exists|j: int| 0 <= j < TLB_SIZE && k == #[trigger] valid_place(j) && picked(j) {
            let j = choose|j: int| 0 <= j < TLB_SIZE && k == #[trigger] valid_place(j) && picked(j);
            assert(shared@[valid_place(j)] == 0);
        }
    }
    assert(shared@ =~= expected);
}

/// Writes all that compiled code looks at to the shared memory.
pub fn sync_all_to_shared(cpu: &Cpu, shared: &mut Vec<u8>)
    requires
        holds_state(old(shared)@),
    ensures
        tells_hart(final(shared)@, cpu@),
        tells_csrs(final(shared)@, cpu@),
        forall|i: int| 0 <= i < TLB_SIZE ==> #[trigger] tells_entry(final(shared)@, i, cpu@.tlb[i]),
        final(shared)@.len() == old(shared)@.len(),
        forall|k: int|
            0 <= k < old(shared)@.len() && !describes_hart(k) && !describes_translations(k) && !(
            csr_place(0) <= k < csr_place(64)) ==> #[trigger] final(shared)@[k] == old(shared)@[k],
{
    sync_to_shared(cpu, shared);
    let ghost hart = shared@;
    sync_csrs_to_shared(cpu, shared);
    let ghost csrs = shared@;
    sync_tlb_to_shared(cpu, shared);
    proof {
        lemma_hart_agrees(shared@, hart, cpu@);
        lemma_csrs_agree(shared@, csrs, cpu@);
    }
}

/// A hart is told alike where the bytes agree.
proof fn lemma_hart_agrees(a: Seq<u8>, b: Seq<u8>, s: HartState)
    requires
        holds_state(a),
        a.len() == b.len(),
        forall|k: int| 0 <= k < a.len() && describes_hart(k) ==> #[trigger] a[k] == b[k],
        tells_hart(b, s),
    ensures
        tells_hart(a, s),
{
    assert forall|i: int| 0 <= i < 32 implies #[trigger] register_at(a, i) == s.regs[i] by {
        let place = state_place(offsets::REGS_BASE) + i * offsets::REG_SIZE;
        bytes::lemma_number_agrees(a, b, place, 8);
        assert(register_at(b, i) == s.regs[i]);
    }
    bytes::lemma_number_agrees(a, b, state_place(offsets::PC), 8);
}

/// The control registers are told alike where the bytes agree.
proof fn lemma_csrs_agree(a: Seq<u8>, b: Seq<u8>, s: HartState)
    requires
        holds_state(a),
        a.len() == b.len(),
        forall|k: int| csr_place(0) <= k < csr_place(64) ==> #[trigger] a[k] == b[k],
        tells_csrs(b, s),
    ensures
        tells_csrs(a, s),
{
    bytes::lemma_number_agrees(a, b, csr_place(csr_mirror::SATP), 8);
    bytes::lemma_number_agrees(a, b, csr_place(csr_mirror::MSTATUS), 8);
    bytes::lemma_number_agrees(a, b, csr_place(csr_mirror::PRIVILEGE), 8);
    bytes::lemma_number_agrees(a, b, csr_place(csr_mirror::CURRENT_ASID), 8);
    bytes::lemma_number_agrees(a, b, csr_place(csr_mirror::MEDELEG), 8);
    bytes::lemma_number_agrees(a, b, csr_place(csr_mirror::MIDELEG), 8);
    bytes::lemma_number_agrees(a, b, csr_place(csr_mirror::MIE), 8);
    bytes::lemma_number_agrees(a, b, csr_place(csr_mirror::MIP), 8);
}

// Laws.

/// A hart that was written to the shared memory and is read back is as it was, and no
/// trap is read.
pub proof fn law_sync_round_trip(shared: Seq<u8>, s: HartState)
    requires
        s.wf(),
        tells_hart(shared, s),
    ensures
        hart_from(shared, s) == s,
        trap_from(shared) is None,
{
    assert(hart_from(shared, s).regs =~= s.regs) by {
        assert forall|i: int| 0 <= i < 32 implies hart_from(shared, s).regs[i] == s.regs[i] by {
            assert(register_at(shared, i) == s.regs[i]);
        }
    }
}

/// What is read back keeps `x0` at zero, whatever compiled code left in its place.
pub proof fn law_zero_register_survives(shared: Seq<u8>, s: HartState)
    requires
        s.wf(),
    ensures
        hart_from(shared, s).wf(),
{
}

/// The regions of the shared memory do not overlap, and all of them lie in the state
/// region.
pub proof fn law_regions_are_apart(k: int)
    ensures
        describes_hart(k) ==> !describes_translations(k) && !(csr_place(0) <= k < csr_place(64)),
        describes_translations(k) ==> !(csr_place(0) <= k < csr_place(64)),
        describes_hart(k) || describes_translations(k) || csr_place(0) <= k < csr_place(64)
            ==> JIT_STATE_OFFSET <= k < HEADER_SIZE,
{
}

/// Dropping the entries of an address space leaves those that hold everywhere.
pub proof fn law_global_entries_survive(shared: Seq<u8>, asid: u16, i: int)
    requires
        holds_state(shared),
        0 <= i < TLB_SIZE,
        shared[entry_place(i) + tlb_entry::PERM] & tlb_entry::PERM_GLOBAL != 0,
    ensures
        invalidated(shared, entries_of_space(shared, asid))[valid_place(i)]
            == shared[valid_place(i)],
{
    let picked = entries_of_space(shared, asid);
    let k = valid_place(i);
    if exists|j: int| 0 <= j < TLB_SIZE && k == #[trigger] valid_place(j) && picked(j) {
        let j = choose|j: int| 0 <= j < TLB_SIZE && k == #[trigger] valid_place(j) && picked(j);
        assert(j == i);
    }
}

/// Where compiled code finds the hart: the registers in a row of doublewords from the start of
/// the state region, the program counter behind them, the number of the mode, and whether
/// there is a trap.
pub proof fn law_places_of_the_hart(shared: Seq<u8>, s: HartState)
    requires
        holds_state(shared),
        s.wf(),
    ensures
        tells_hart(shared, s) ==> {
            &&& forall|i: int|
                0 <= i < 32 ==> #[trigger] number_at(shared, 0x13000 + 8 * i, 8) == s.regs[i]
            &&& number_at(shared, 0x13100, 8) == s.pc
            &&& s.mode is User ==> shared[0x13108] == 0
            &&& s.mode is Supervisor ==> shared[0x13108] == 1
            &&& s.mode is Machine ==> shared[0x13108] == 3
            &&& shared[0x13200] == 0
        },
        ({
            let t = hart_from(shared, s);
            &&& t == (HartState { regs: t.regs, pc: number_at(shared, 0x13100, 8), ..s })
            &&& t.regs.len() == 32
            &&& t.regs[0] == 0
            &&& forall|i: int|
                0 < i < 32 ==> #[trigger] t.regs[i] == number_at(shared, 0x13000 + 8 * i, 8)
        }),
        trap_from(shared) is Some <==> shared[0x13200] != 0,
        trap_from(shared) matches Some((code, value)) ==> code == number_at(shared, 0x13204, 4)
            && value == number_at(shared, 0x13208, 8),
        waiting(shared) <==> number_at(shared, 0x13310, 4) != 0,
{
    if tells_hart(shared, s) {
        assert forall|i: int| 0 <= i < 32 implies #[trigger] number_at(shared, 0x13000 + 8 * i, 8)
            == s.regs[i] by {
            assert(register_at(shared, i) == s.regs[i]);
        }
    }
    bytes::lemma_pow256_values();
    bytes::lemma_le_value_bound(shared.subrange(0x13204, 0x13208));
}

/// Where compiled code finds the control registers, and which address space is the current
/// one.
pub proof fn law_places_of_control_registers(shared: Seq<u8>, s: HartState)
    requires
        tells_csrs(shared, s),
    ensures
        number_at(shared, 0x13a00, 8) == s.csrs[0x180],
        number_at(shared, 0x13a08, 8) == s.csrs[0x300],
        number_at(shared, 0x13a10, 8) == s.mode.number(),
        number_at(shared, 0x13a18, 8) == s.csrs[0x180] / 0x1000_0000_0000 % 0x1_0000,
        number_at(shared, 0x13a20, 8) == s.csrs[0x302],
        number_at(shared, 0x13a28, 8) == s.csrs[0x303],
        number_at(shared, 0x13a30, 8) == s.csrs[0x304],
        number_at(shared, 0x13a38, 8) == s.csrs[0x344],
{
    crate::meaning::lemma_spaces(s.csrs[0x180]);
}

/// Where compiled code finds a translation.
pub proof fn law_places_of_translations(shared: Seq<u8>, i: int, entry: TlbEntry)
    requires
        tells_entry(shared, i, entry),
    ensures
        ({
            let at = 0x13400 + 24 * i;
            &&& number_at(shared, at, 8) == entry.vpn
            &&& number_at(shared, at + 8, 8) == entry.ppn
            &&& number_at(shared, at + 16, 2) == entry.asid
            &&& shared[at + 18] == entry.perm
            &&& shared[at + 19] == entry.level
            &&& shared[at + 20] == 1 <==> entry.valid
            &&& shared[at + 20] == 0 <==> !entry.valid
        }),
{
}

/// Dropping entries clears their flags and nothing else: all of them, that of a page where it
/// is held, or those of an address space.
pub proof fn law_dropped_translations(shared: Seq<u8>, vpn: u64, asid: u16, i: int, k: int)
    requires
        holds_state(shared),
        0 <= i < 64,
        0 <= k < shared.len(),
    ensures
        ({
            let at = 0x13400 + 24 * i;
            let all = invalidated(shared, every_entry());
            let page = invalidated(shared, entry_of_page(shared, vpn));
            let space = invalidated(shared, entries_of_space(shared, asid));
            let flag = 0x13414 <= k && k < 0x13414 + 24 * 64 && (k - 0x13414) % 24 == 0;
            &&& all.len() == shared.len() && page.len() == shared.len() && space.len()
                == shared.len()
            &&& !flag ==> all[k] == shared[k] && page[k] == shared[k] && space[k] == shared[k]
            &&& all[at + 20] == 0
            &&& page[at + 20] == if i == vpn as int % 64 && number_at(shared, at, 8) == vpn {
                0
            } else {
                shared[at + 20]
            }
            &&& space[at + 20] == if shared[at + 18] & 0x40 == 0 && number_at(shared, at + 16, 2)
                == asid {
                0
            } else {
                shared[at + 20]
            }
        }),
{
    crate::meaning::lemma_casts(vpn, 0);
    let at = 0x13400 + 24 * i;
    assert(valid_place(i) == at + 20);
    assert forall|j: int| 0 <= j < 64 && #[trigger] valid_place(j) == valid_place(i) implies j
        == i by {}
    let all = every_entry();
    let page = entry_of_page(shared, vpn);
    let space = entries_of_space(shared, asid);
    assert(all(i));
    if page(i) {
        assert(0 <= i < TLB_SIZE && valid_place(i) == valid_place(i) && page(i));
    }
    if space(i) {
        assert(0 <= i < TLB_SIZE && valid_place(i) == valid_place(i) && space(i));
    }
    let flag = 0x13414 <= k && k < 0x13414 + 24 * 64 && (k - 0x13414) % 24 == 0;
    if !flag {
        assert forall|j: int| 0 <= j < 64 implies k != #[trigger] valid_place(j) by {}
    }
}

} // verus!
