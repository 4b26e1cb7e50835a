//! Virtual memory: three-level page tables and a cache of translations.

use crate::bus::{SystemBus, SystemState};
use crate::cpu::types::{AccessType, Mode, Trap};
use crate::jit::state::tlb_entry;
use crate::jit::state::TLB_SIZE;
use vstd::prelude::*;

verus! {

use crate::bus::read_result;
use crate::meaning;

/// A cached translation of one page.
#[derive(Debug, Clone, Copy, PartialEq, Eq, Structural)]
pub struct TlbEntry {
    pub vpn: u64,
    pub ppn: u64,
    pub asid: u16,
    pub perm: u8,
    pub level: u8,
    pub valid: bool,
}

/// An entry that holds no translation.
pub open spec fn empty_entry() -> TlbEntry {
    TlbEntry { vpn: 0, ppn: 0, asid: 0, perm: 0, level: 0, valid: false }
}

/// Translations of recently used pages, each in the slot that its page number picks.
pub struct Tlb {
    entries: [TlbEntry; 64],
}

impl View for Tlb {
    type V = Seq<TlbEntry>;

    closed spec fn view(&self) -> Seq<TlbEntry> {
        self.entries@
    }
}

impl Tlb {
    /// A cache without translations.
    pub fn new() -> (tlb: Self)
        ensures
            tlb@ == Seq::new(TLB_SIZE as nat, |i: int| empty_entry()),
    {
        let entry = TlbEntry { vpn: 0, ppn: 0, asid: 0, perm: 0, level: 0, valid: false };
        let tlb = Self { entries: [entry; 64] };
        assert(tlb@ =~= Seq::new(TLB_SIZE as nat, |i: int| empty_entry()));
        tlb
    }

    /// The cache has as many slots as it was made with.
    pub proof fn lemma_len(&self)
        ensures
            self@.len() == TLB_SIZE,
    {
    }

    pub fn get_entry(&self, index: usize) -> (entry: TlbEntry)
        requires
            index < TLB_SIZE,
        ensures
            entry == self@[index as int],
    {
        self.entries[index]
    }

    /// Puts an entry into a slot.
    pub fn set_entry(&mut self, index: usize, entry: TlbEntry)
        requires
            index < TLB_SIZE,
        ensures
            final(self)@ == old(self)@.update(index as int, entry),
    {
        self.entries[index] = entry;
    }

    /// Forgets all translations.
    pub fn flush(&mut self)
        ensures
            final(self)@ == Seq::new(TLB_SIZE as nat, |i: int| empty_entry()),
    {
        let entry = TlbEntry { vpn: 0, ppn: 0, asid: 0, perm: 0, level: 0, valid: false };
        self.entries = [entry; 64];
        assert(self@ =~= Seq::new(TLB_SIZE as nat, |i: int| empty_entry()));
    }
}

/// The trap of an access that the page tables do not allow.
pub open spec fn page_fault(access: AccessType, vaddr: u64) -> Trap {
    match access {
        AccessType::Instruction => Trap::InstructionPageFault(vaddr),
        AccessType::Load => Trap::LoadPageFault(vaddr),
        AccessType::Store => Trap::StorePageFault(vaddr),
    }
}

fn page_fault_trap(access: AccessType, vaddr: u64) -> (trap: Trap)
    ensures
        trap == page_fault(access, vaddr),
{
    match access {
        AccessType::Instruction => Trap::InstructionPageFault(vaddr),
        AccessType::Load => Trap::LoadPageFault(vaddr),
        AccessType::Store => Trap::StorePageFault(vaddr),
    }
}

/// The trap of an access whose page tables lie outside memory.
pub open spec fn access_fault(access: AccessType, vaddr: u64) -> Trap {
    match access {
        AccessType::Instruction => Trap::InstructionAccessFault(vaddr),
        AccessType::Load => Trap::LoadAccessFault(vaddr),
        AccessType::Store => Trap::StoreAccessFault(vaddr),
    }
}

fn access_fault_trap(access: AccessType, vaddr: u64) -> (trap: Trap)
    ensures
        trap == access_fault(access, vaddr),
{
    match access {
        AccessType::Instruction => Trap::InstructionAccessFault(vaddr),
        AccessType::Load => Trap::LoadAccessFault(vaddr),
        AccessType::Store => Trap::StoreAccessFault(vaddr),
    }
}

/// The mode whose rights an access has: loads and stores may borrow those of the
/// previous mode.
pub open spec fn effective_mode(mode: Mode, mstatus: u64, access: AccessType) -> Mode {
    if access != AccessType::Instruction && (mstatus >> 17) & 1 == 1 {
        Mode::of_mpp((mstatus >> 11) & 3)
    } else {
        mode
    }
}

/// Whether addresses are translated at all.
pub open spec fn translates(mode: Mode, satp: u64) -> bool {
    mode != Mode::Machine && satp >> 60 == 8
}

/// The upper bits of a virtual address repeat its bit 38.
pub open spec fn canonical(vaddr: u64) -> bool {
    ((((vaddr << 25) as i64) >> 25) as u64) == vaddr
}

/// The permission bits of a page-table entry, as the cache keeps them.
pub open spec fn perm_of(pte: u64) -> u8 {
    ((((pte >> 1) & 0xf) | (((pte >> 6) & 3) << 4) | (((pte >> 5) & 1) << 6)) & 0xff) as u8
}

/// Whether a page with the permission bits `perm` may be used.
pub open spec fn permitted(perm: u8, mode: Mode, mstatus: u64, access: AccessType) -> bool {
    let user = perm & tlb_entry::PERM_USER != 0;
    let sum = (mstatus >> 18) & 1 == 1;
    let mxr = (mstatus >> 19) & 1 == 1;
    let allowed = match access {
        AccessType::Instruction => perm & tlb_entry::PERM_EXEC != 0,
        AccessType::Load => perm & tlb_entry::PERM_READ != 0 || (mxr && perm & tlb_entry::PERM_EXEC
            != 0),
        AccessType::Store => perm & tlb_entry::PERM_WRITE != 0 && perm & tlb_entry::PERM_DIRTY != 0,
    };
    let reachable = match mode {
        Mode::User => user,
        _ => !user || (sum && access != AccessType::Instruction),
    };
    allowed && reachable && perm & tlb_entry::PERM_ACCESSED != 0
}

fn may_use(perm: u8, mode: Mode, mstatus: u64, access: AccessType) -> (allowed: bool)
    ensures
        allowed == permitted(perm, mode, mstatus, access),
{
    let user: bool = perm & tlb_entry::PERM_USER != 0;
    let sum: bool = (mstatus >> 18) & 1 == 1;
    let mxr: bool = (mstatus >> 19) & 1 == 1;
    let allowed: bool = match access {
        AccessType::Instruction => perm & tlb_entry::PERM_EXEC != 0,
        AccessType::Load => perm & tlb_entry::PERM_READ != 0 || (mxr && perm & tlb_entry::PERM_EXEC
            != 0),
        AccessType::Store => perm & tlb_entry::PERM_WRITE != 0 && perm & tlb_entry::PERM_DIRTY != 0,
    };
    let fetches: bool = match access {
        AccessType::Instruction => true,
        _ => false,
    };
    let reachable: bool = match mode {
        Mode::User => user,
        _ => !user || (sum && !fetches),
    };
    allowed && reachable && perm & tlb_entry::PERM_ACCESSED != 0
}

/// The end of a walk through the page tables.
#[derive(Debug, Clone, Copy, PartialEq, Eq, Structural)]
pub enum Walk {
    /// The page is at `ppn`.
    Leaf { ppn: u64, perm: u8, level: u8 },
    /// No page is mapped.
    Unmapped,
    /// A table lies outside memory.
    Unreadable,
}

/// The page-number bits below a leaf at `level`.
pub open spec fn low_bits(level: u64) -> u64 {
    (1u64 << ((9 * level) as u64)).wrapping_sub(1)
}

/// Where the table at `table` keeps the entry for `vpn` at `level`.
pub open spec fn entry_address(table: u64, vpn: u64, level: u64) -> u64 {
    (table << 12).wrapping_add(((vpn >> ((9 * level) as u64)) & 0x1ff).wrapping_mul(8))
}

/// The walk from the table at `table` down to `vpn`.
pub open spec fn walk(bus: SystemState, table: u64, vpn: u64, level: u64) -> Walk
    decreases level,
{
    match read_result(bus, entry_address(table, vpn, level), 8) {
        Err(_) => Walk::Unreadable,
        Ok(pte) => {
            let ppn = (pte >> 10) & 0xfff_ffff_ffff;
            if pte & 1 == 0 || (pte & 2 == 0 && pte & 4 != 0) {
                Walk::Unmapped
            } else if pte & 0xa != 0 {
                if ppn & low_bits(level) != 0 {
                    Walk::Unmapped
                } else {
                    Walk::Leaf {
                        ppn: ppn | (vpn & low_bits(level)),
                        perm: perm_of(pte),
                        level: level as u8,
                    }
                }
            } else if level == 0 {
                Walk::Unmapped
            } else {
                walk(bus, ppn, vpn, (level - 1) as u64)
            }
        },
    }
}

fn walk_tables(bus: &SystemBus, table: u64, vpn: u64, level: u64) -> (end: Walk)
    requires
        level <= 2,
    ensures
        end == walk(bus@, table, vpn, level),
    decreases level,
{
    let shift: u64 = 9 * level;
    let index: u64 = (vpn >> shift) & 0x1ff;
    let addr: u64 = (table << 12u64).wrapping_add(index.wrapping_mul(8));
    match bus.read64(addr) {
        Err(_) => Walk::Unreadable,
        Ok(pte) => {
            let ppn: u64 = (pte >> 10) & 0xfff_ffff_ffff;
            let low: u64 = (1u64 << shift).wrapping_sub(1);
            if pte & 1 == 0 || (pte & 2 == 0 && pte & 4 != 0) {
                Walk::Unmapped
            } else if pte & 0xa != 0 {
                if ppn & low != 0 {
                    Walk::Unmapped
                } else {
                    let perm: u64 = (((pte >> 1) & 0xf) | (((pte >> 6) & 3) << 4) | (((pte >> 5)
                        & 1) << 6)) & 0xff;
                    Walk::Leaf { ppn: ppn | (vpn & low), perm: perm as u8, level: level as u8 }
                }
            } else if level == 0 {
                Walk::Unmapped
            } else {
                walk_tables(bus, ppn, vpn, level - 1)
            }
        },
    }
}

/// The page number of a virtual address.
pub open spec fn page_number(vaddr: u64) -> u64 {
    (vaddr >> 12) & 0x7ff_ffff
}

/// The address space that `satp` names.
pub open spec fn address_space(satp: u64) -> u16 {
    ((satp >> 44) & 0xffff) as u16
}

/// Whether the entry translates page `vpn` in the address space `asid`.
pub open spec fn hits(entry: TlbEntry, vpn: u64, asid: u16) -> bool {
    entry.valid && entry.vpn == vpn && (entry.asid == asid || entry.perm & tlb_entry::PERM_GLOBAL
        != 0)
}

/// The physical address that an entry gives.
pub open spec fn through(
    entry: TlbEntry,
    mode: Mode,
    mstatus: u64,
    vaddr: u64,
    access: AccessType,
) -> Result<u64, Trap> {
    if permitted(entry.perm, mode, mstatus, access) {
        Ok((entry.ppn << 12) | (vaddr & 0xfff))
    } else {
        Err(page_fault(access, vaddr))
    }
}

/// The cache after translating `vaddr`, and its physical address. Pages that may be
/// used are remembered.
#[verifier::opaque]
pub open spec fn translation(
    bus: SystemState,
    tlb: Seq<TlbEntry>,
    mode: Mode,
    satp: u64,
    mstatus: u64,
    vaddr: u64,
    access: AccessType,
) -> (Seq<TlbEntry>, Result<u64, Trap>) {
    let rights = effective_mode(mode, mstatus, access);
    let vpn = page_number(vaddr);
    let asid = address_space(satp);
    let slot = (vpn & 63) as int;
    if !translates(rights, satp) {
        (tlb, Ok(vaddr))
    } else if !canonical(vaddr) {
        (tlb, Err(page_fault(access, vaddr)))
    } else if hits(tlb[slot], vpn, asid) {
        (tlb, through(tlb[slot], rights, mstatus, vaddr, access))
    } else {
        match walk(bus, satp & 0xfff_ffff_ffff, vpn, 2) {
            Walk::Unreadable => (tlb, Err(access_fault(access, vaddr))),
            Walk::Unmapped => (tlb, Err(page_fault(access, vaddr))),
            Walk::Leaf { ppn, perm, level } => {
                let entry = TlbEntry { vpn, ppn, asid, perm, level, valid: true };
                if permitted(perm, rights, mstatus, access) {
                    (tlb.update(slot, entry), through(entry, rights, mstatus, vaddr, access))
                } else {
                    (tlb, Err(page_fault(access, vaddr)))
                }
            },
        }
    }
}

/// A translation fails for want of a page or of memory, at the address that it is for.
pub proof fn lemma_translation_faults(
    bus: SystemState,
    tlb: Seq<TlbEntry>,
    mode: Mode,
    satp: u64,
    mstatus: u64,
    vaddr: u64,
    access: AccessType,
)
    ensures
        translation(bus, tlb, mode, satp, mstatus, vaddr, access).1 matches Err(trap) ==> trap
            == page_fault(access, vaddr) || trap == access_fault(access, vaddr),
{
    reveal(translation);
}

/// Translates a virtual address for an access with the rights of `mode`.
pub fn translate(
    bus: &SystemBus,
    tlb: &mut Tlb,
    mode: Mode,
    satp: u64,
    mstatus: u64,
    vaddr: u64,
    access: AccessType,
) -> (r: Result<u64, Trap>)
    ensures
        (final(tlb)@, r) == translation(bus@, old(tlb)@, mode, satp, mstatus, vaddr, access),
{
    proof {
        reveal(translation);
    }
    let borrows: bool = match access {
        AccessType::Instruction => false,
        _ => (mstatus >> 17) & 1 == 1,
    };
    let rights: Mode = if borrows {
        Mode::from_mpp((mstatus >> 11) & 3)
    } else {
        mode
    };
    let machine: bool = match rights {
        Mode::Machine => true,
        _ => false,
    };
    if machine || satp >> 60 != 8 {
        return Ok(vaddr);
    }
    if (((vaddr << 25) as i64) >> 25) as u64 != vaddr {
        return Err(page_fault_trap(access, vaddr));
    }
    let vpn: u64 = (vaddr >> 12) & 0x7ff_ffff;
    let asid: u16 = ((satp >> 44) & 0xffff) as u16;
    proof {
        meaning::lemma_casts(vpn, 0);
    }
    let slot: usize = (vpn & 63) as usize;
    let cached = tlb.get_entry(slot);
    if cached.valid && cached.vpn == vpn && (cached.asid == asid || cached.perm
        & tlb_entry::PERM_GLOBAL != 0) {
        return if may_use(cached.perm, rights, mstatus, access) {
            Ok((cached.ppn << 12) | (vaddr & 0xfff))
        } else {
            Err(page_fault_trap(access, vaddr))
        };
    }
    match walk_tables(bus, satp & 0xfff_ffff_ffff, vpn, 2) {
        Walk::Unreadable => Err(access_fault_trap(access, vaddr)),
        Walk::Unmapped => Err(page_fault_trap(access, vaddr)),
        Walk::Leaf { ppn, perm, level } => {
            if may_use(perm, rights, mstatus, access) {
                tlb.set_entry(slot, TlbEntry { vpn, ppn, asid, perm, level, valid: true });
                Ok((ppn << 12) | (vaddr & 0xfff))
            } else {
                Err(page_fault_trap(access, vaddr))
            }
        },
    }
}

/// Machine mode, and any mode without page tables, uses addresses as they are.
pub proof fn law_untranslated_addresses(
    bus: SystemState,
    tlb: Seq<TlbEntry>,
    mode: Mode,
    satp: u64,
    mstatus: u64,
    vaddr: u64,
    access: AccessType,
)
    requires
        satp == 0 || (mode == Mode::Machine && (mstatus >> 17) & 1 == 0),
    ensures
        translation(bus, tlb, mode, satp, mstatus, vaddr, access) == (
            tlb,
            Ok::<u64, Trap>(vaddr),
        ),
{
    reveal(translation);
    meaning::lemma_casts(0, 0);
}

/// An address that was translated once is translated to the same place again from the
/// cache alone, whatever memory holds by then.
pub proof fn law_translation_is_remembered(
    bus: SystemState,
    later: SystemState,
    tlb: Seq<TlbEntry>,
    mode: Mode,
    satp: u64,
    mstatus: u64,
    vaddr: u64,
    access: AccessType,
)
    requires
        tlb.len() == TLB_SIZE,
        translation(bus, tlb, mode, satp, mstatus, vaddr, access).1 is Ok,
    ensures
        ({
            let (after, r) = translation(bus, tlb, mode, satp, mstatus, vaddr, access);
            translation(later, after, mode, satp, mstatus, vaddr, access) == (after, r)
        }),
{
    reveal(translation);
    let vpn = page_number(vaddr);
    meaning::lemma_casts(vpn, 0);
}

} // verus!
