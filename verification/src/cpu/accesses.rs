//! What the instructions on memory mean: relations between what the registers and memory hold
//! before and after.

use vstd::prelude::*;

verus! {

use crate::bus::{read_result, write_result, SystemState};
use crate::bytes;
use crate::cpu::alu;
use crate::cpu::csr::{CSR_MSTATUS, CSR_SATP};
use crate::cpu::decoder::Op;
use crate::cpu::execution::{
    atomic_op, begun, result_in, resumed, AtomicOp, Effect, Insn, Pending, Request, Step,
};
use crate::cpu::hart::{without_reservation, HartState};
use crate::cpu::memory::{atomic_result, carried_on, executed, updated, updated_word};
use crate::cpu::types::{AccessType, Trap};
use crate::meaning::{
    self, differs, is_cut, is_loaded, is_stored, meets, signed, signed_word, unites, word,
};
use crate::mmu::{translation, TlbEntry};

/// How an address is translated for the hart.
pub open spec fn translated(s: HartState, bus: SystemState, vaddr: u64, access: AccessType) -> (
    Seq<TlbEntry>,
    Result<u64, Trap>,
) {
    translation(
        bus,
        s.tlb,
        s.mode,
        s.csrs[CSR_SATP as int],
        s.csrs[CSR_MSTATUS as int],
        vaddr,
        access,
    )
}

/// That an address stands for `size` bytes of memory, from the place `at` of it on.
pub open spec fn in_memory(
    s: HartState,
    bus: SystemState,
    vaddr: u64,
    access: AccessType,
    size: u64,
    at: int,
) -> bool {
    &&& translated(s, bus, vaddr, access).1 matches Ok(pa) && pa == bus.base + at
    &&& 0 <= at
    &&& at + size <= bus.mem.len()
}

/// What an instruction leaves in register `rd`, where it is complete and else changes only
/// memory, the cache of translations and the reservation.
pub open spec fn given(
    s: HartState,
    mask: u64,
    bus: SystemState,
    insn: Insn,
    op: Op,
    rd: u8,
    access: AccessType,
    vaddr: u64,
) -> Option<u64> {
    let (t, after, step) = executed(s, mask, bus, insn, op);
    if step == Step::Retire(Effect::Nothing) && is_cut(t.pc, s.pc + insn.len) && after.base
        == bus.base && t == (HartState {
        regs: s.regs.update(rd as int, t.regs[rd as int]),
        pc: t.pc,
        tlb: translated(s, bus, vaddr, access).0,
        reservation: t.reservation,
        ..s
    }) {
        Some(t.regs[rd as int])
    } else {
        None
    }
}

proof fn lemma_load(
    s: HartState,
    mask: u64,
    bus: SystemState,
    insn: Insn,
    rd: u8,
    rs1: u8,
    imm: i64,
    funct3: u8,
    vaddr: u64,
    size: u64,
    at: int,
)
    requires
        s.wf(),
        0 < rd < 32,
        rs1 < 32,
        alu::load_size(funct3) == Some(size),
        is_cut(vaddr, s.regs[rs1 as int] + imm),
        in_memory(s, bus, vaddr, AccessType::Load, size, at),
    ensures
        ({
            let op = Op::Load { rd, rs1, imm, funct3 };
            let (t, after, _) = executed(s, mask, bus, insn, op);
            &&& after == bus
            &&& t.reservation == s.reservation
            &&& given(s, mask, bus, insn, op, rd, AccessType::Load, vaddr) matches Some(r)
                && is_loaded(r, bus.mem, at, size, funct3 < 4)
        }),
{
    meaning::lemma_casts(0, imm);
    assert(vaddr == s.regs[rs1 as int].wrapping_add(imm as u64));
    reveal_with_fuel(carried_on, 4);
    let v = bytes::le_u64(bus.mem.subrange(at, at + size));
    assert(read_result(bus, (bus.base + at) as u64, size) == Ok::<u64, Trap>(v));
    meaning::lemma_widened(v);
    meaning::lemma_widened_reading(
        bus.mem,
        at,
        size,
        alu::load_value(funct3, v),
        funct3 < 4,
    );
}

/// Loads give the bytes of memory where the address leads, widened by their sign or by zeros,
/// and change no memory.
pub proof fn law_loads(
    s: HartState,
    mask: u64,
    bus: SystemState,
    insn: Insn,
    rd: u8,
    rs1: u8,
    imm: i64,
    vaddr: u64,
    size: u64,
    at: int,
)
    requires
        s.wf(),
        0 < rd < 32,
        rs1 < 32,
        size == 1 || size == 2 || size == 4 || size == 8,
        is_cut(vaddr, s.regs[rs1 as int] + imm),
        in_memory(s, bus, vaddr, AccessType::Load, size, at),
    ensures
        ({
            let ends = |funct3: u8|
                executed(s, mask, bus, insn, Op::Load { rd, rs1, imm, funct3 });
            let loads = |funct3: u8, extended: bool|
                {
                    &&& ends(funct3).1 == bus
                    &&& ends(funct3).0.reservation == s.reservation
                    &&& given(
                        s,
                        mask,
                        bus,
                        insn,
                        Op::Load { rd, rs1, imm, funct3 },
                        rd,
                        AccessType::Load,
                        vaddr,
                    ) matches Some(r) && is_loaded(r, bus.mem, at, size, extended)
                };
            &&& size == 1 ==> loads(0, true) && loads(4, false)
            &&& size == 2 ==> loads(1, true) && loads(5, false)
            &&& size == 4 ==> loads(2, true) && loads(6, false)
            &&& size == 8 ==> loads(3, true)
        }),
{
    if size == 1 {
        lemma_load(s, mask, bus, insn, rd, rs1, imm, 0, vaddr, size, at);
        lemma_load(s, mask, bus, insn, rd, rs1, imm, 4, vaddr, size, at);
    } else if size == 2 {
        lemma_load(s, mask, bus, insn, rd, rs1, imm, 1, vaddr, size, at);
        lemma_load(s, mask, bus, insn, rd, rs1, imm, 5, vaddr, size, at);
    } else if size == 4 {
        lemma_load(s, mask, bus, insn, rd, rs1, imm, 2, vaddr, size, at);
        lemma_load(s, mask, bus, insn, rd, rs1, imm, 6, vaddr, size, at);
    } else {
        lemma_load(s, mask, bus, insn, rd, rs1, imm, 3, vaddr, size, at);
    }
}

proof fn lemma_store(
    s: HartState,
    mask: u64,
    bus: SystemState,
    insn: Insn,
    rs1: u8,
    rs2: u8,
    imm: i64,
    funct3: u8,
    vaddr: u64,
    size: u64,
    at: int,
)
    requires
        s.wf(),
        rs1 < 32,
        rs2 < 32,
        alu::store_size(funct3) == Some(size),
        is_cut(vaddr, s.regs[rs1 as int] + imm),
        in_memory(s, bus, vaddr, AccessType::Store, size, at),
    ensures
        ({
            let op = Op::Store { rs1, rs2, imm, funct3 };
            let (t, after, step) = executed(s, mask, bus, insn, op);
            &&& given(s, mask, bus, insn, op, 0, AccessType::Store, vaddr) == Some(0u64)
            &&& t.regs == s.regs
            &&& is_stored(after.mem, bus.mem, at, size, s.regs[rs2 as int])
            &&& t.reservation == (if s.reservation == Some(vaddr & mask) {
                None
            } else {
                s.reservation
            })
        }),
{
    meaning::lemma_casts(0, imm);
    assert(vaddr == s.regs[rs1 as int].wrapping_add(imm as u64));
    reveal_with_fuel(carried_on, 4);
    let v = s.regs[rs2 as int];
    bytes::lemma_le_bytes_len(v as nat, size as nat);
    meaning::lemma_writing_spells(bus.mem, at, size, v);
    assert(s.regs.update(0, 0) =~= s.regs);
}

/// Stores put the low-order bytes of a register into memory where the address leads, and leave
/// the rest of it. They end a reservation of the granule that they write to, and no other.
pub proof fn law_stores(
    s: HartState,
    mask: u64,
    bus: SystemState,
    insn: Insn,
    rs1: u8,
    rs2: u8,
    imm: i64,
    vaddr: u64,
    size: u64,
    at: int,
)
    requires
        s.wf(),
        rs1 < 32,
        rs2 < 32,
        size == 1 || size == 2 || size == 4 || size == 8,
        is_cut(vaddr, s.regs[rs1 as int] + imm),
        in_memory(s, bus, vaddr, AccessType::Store, size, at),
    ensures
        ({
            let funct3: u8 = if size == 1 {
                0
            } else if size == 2 {
                1
            } else if size == 4 {
                2
            } else {
                3
            };
            let op = Op::Store { rs1, rs2, imm, funct3 };
            let (t, after, step) = executed(s, mask, bus, insn, op);
            &&& given(s, mask, bus, insn, op, 0, AccessType::Store, vaddr) == Some(0u64)
            &&& t.regs == s.regs
            &&& is_stored(after.mem, bus.mem, at, size, s.regs[rs2 as int])
            &&& t.reservation == (if s.reservation == Some(vaddr & mask) {
                None
            } else {
                s.reservation
            })
        }),
{
    if size == 1 {
        lemma_store(s, mask, bus, insn, rs1, rs2, imm, 0, vaddr, size, at);
    } else if size == 2 {
        lemma_store(s, mask, bus, insn, rs1, rs2, imm, 1, vaddr, size, at);
    } else if size == 4 {
        lemma_store(s, mask, bus, insn, rs1, rs2, imm, 2, vaddr, size, at);
    } else {
        lemma_store(s, mask, bus, insn, rs1, rs2, imm, 3, vaddr, size, at);
    }
}

/// The number that an atomic instruction on a word works on: the low word alone.
pub open spec fn operand(v: u64, is_word: bool) -> u64 {
    if is_word {
        word(v) as u64
    } else {
        v
    }
}

/// The number that an operand is in two's complement.
pub open spec fn weight(v: u64, is_word: bool) -> int {
    if is_word {
        signed_word(v)
    } else {
        signed(v)
    }
}

/// That `v` is what an atomic update makes of `a` and `b`.
pub open spec fn is_update(funct5: u8, v: u64, a: u64, b: u64, is_word: bool) -> bool {
    let either = v == a || v == b;
    match funct5 {
        0b00001 => v == b,
        0b00000 => if is_word {
            (v - (a + b)) % 0x1_0000_0000 == 0
        } else {
            is_cut(v, a + b)
        },
        0b00100 => differs(v, a, b),
        0b01000 => unites(v, a, b),
        0b01100 => meets(v, a, b),
        0b10000 => either && weight(v, is_word) <= weight(a, is_word) && weight(v, is_word)
            <= weight(b, is_word),
        0b10100 => either && weight(v, is_word) >= weight(a, is_word) && weight(v, is_word)
            >= weight(b, is_word),
        0b11000 => either && v <= a && v <= b,
        0b11100 => either && v >= a && v >= b,
        _ => false,
    }
}

proof fn lemma_update(funct5: u8, op: AtomicOp, a: u64, b: u64)
    requires
        atomic_op(funct5) == Some(op),
    ensures
        is_update(funct5, updated(op, a, b), a, b, false),
        is_update(
            funct5,
            updated_word(op, a as u32, b as u32) as u64,
            operand(a, true),
            operand(b, true),
            true,
        ),
{
    meaning::lemma_bits(a, b);
    meaning::lemma_casts(a, 0);
    meaning::lemma_casts(b, 0);
    let x = a as u32 as u64;
    let y = b as u32 as u64;
    meaning::lemma_bits(x, y);
    assert((a as u32 ^ b as u32) as u64 == x ^ y);
    assert((a as u32 | b as u32) as u64 == x | y);
    assert((a as u32 & b as u32) as u64 == x & y);
}

/// Whether a number names an atomic update.
pub open spec fn names_update(funct5: u8) -> bool {
    ||| funct5 == 0b00001
    ||| funct5 == 0b00000
    ||| funct5 == 0b00100
    ||| funct5 == 0b01000
    ||| funct5 == 0b01100
    ||| funct5 == 0b10000
    ||| funct5 == 0b10100
    ||| funct5 == 0b11000
    ||| funct5 == 0b11100
}

/// How many bytes an atomic instruction accesses.
pub open spec fn width(is_word: bool) -> u64 {
    if is_word {
        4
    } else {
        8
    }
}

/// The number that tells instructions on words from those on doublewords.
pub open spec fn width_number(is_word: bool) -> u8 {
    if is_word {
        2
    } else {
        3
    }
}

/// That `after` holds what an atomic update of the number `r` in `mem` by `b` leaves.
pub open spec fn is_updated(
    after: Seq<u8>,
    mem: Seq<u8>,
    at: int,
    funct5: u8,
    r: u64,
    b: u64,
    is_word: bool,
) -> bool {
    exists|v: u64| #[trigger]
        is_stored(after, mem, at, width(is_word), v) && is_update(
            funct5,
            v,
            operand(r, is_word),
            operand(b, is_word),
            is_word,
        )
}

proof fn lemma_atomic_memory(
    bus: SystemState,
    funct5: u8,
    op: AtomicOp,
    pa: u64,
    b: u64,
    is_word: bool,
    at: int,
)
    requires
        atomic_op(funct5) == Some(op),
        pa == bus.base + at,
        0 <= at,
        at + width(is_word) <= bus.mem.len(),
    ensures
        ({
            let (after, r) = atomic_result(bus, op, pa, b, is_word);
            &&& after.base == bus.base
            &&& r matches Ok(r) && is_loaded(r, bus.mem, at, width(is_word), true) && is_updated(
                after.mem,
                bus.mem,
                at,
                funct5,
                r,
                b,
                is_word,
            )
        }),
{
    let size = width(is_word);
    let a = bytes::le_u64(bus.mem.subrange(at, at + size));
    assert(read_result(bus, pa, size) == Ok::<u64, Trap>(a));
    meaning::lemma_widened(a);
    meaning::lemma_extended(a);
    lemma_update(funct5, op, a, b);
    if is_word {
        let v = updated_word(op, a as u32, b as u32) as u64;
        let r = (a as u32) as i32 as i64 as u64;
        meaning::lemma_same_words(a, r);
        bytes::lemma_le_bytes_len(v as nat, 4);
        meaning::lemma_writing_spells(bus.mem, at, 4, v);
        meaning::lemma_widened_reading(bus.mem, at, 4, r, true);
        let after = atomic_result(bus, op, pa, b, is_word).0;
        assert(is_stored(after.mem, bus.mem, at, width(is_word), v));
    } else {
        let v = updated(op, a, b);
        bytes::lemma_le_bytes_len(v as nat, 8);
        meaning::lemma_writing_spells(bus.mem, at, 8, v);
        meaning::lemma_widened_reading(bus.mem, at, 8, a, true);
        let after = atomic_result(bus, op, pa, b, is_word).0;
        assert(is_stored(after.mem, bus.mem, at, width(is_word), v));
    }
}

/// The steps of an atomic update.
proof fn lemma_atomic_steps(
    s: HartState,
    mask: u64,
    bus: SystemState,
    insn: Insn,
    rd: u8,
    rs1: u8,
    rs2: u8,
    funct5: u8,
    op: AtomicOp,
    is_word: bool,
    aq: bool,
    rl: bool,
    pa: u64,
)
    requires
        s.wf(),
        rd < 32,
        rs1 < 32,
        rs2 < 32,
        atomic_op(funct5) == Some(op),
        translated(s, bus, s.regs[rs1 as int], AccessType::Load).1 == Ok::<u64, Trap>(pa),
        atomic_result(bus, op, pa, s.regs[rs2 as int], is_word).1 is Ok,
    ensures
        ({
            let vaddr = s.regs[rs1 as int];
            let (after, r) = atomic_result(bus, op, pa, s.regs[rs2 as int], is_word);
            let asked = HartState { tlb: translated(s, bus, vaddr, AccessType::Load).0, ..s };
            let cleared = without_reservation(asked, mask, vaddr);
            executed(
                s,
                mask,
                bus,
                insn,
                Op::Amo { rd, rs1, rs2, funct3: width_number(is_word), funct5, aq, rl },
            ) == (result_in(cleared, insn, rd, r->Ok_0).0, after, Step::Retire(Effect::Nothing))
        }),
{
    let vaddr = s.regs[rs1 as int];
    let value = s.regs[rs2 as int];
    let funct3 = width_number(is_word);
    let insn_op = Op::Amo { rd, rs1, rs2, funct3, funct5, aq, rl };
    let first = Step::Ask(
        Request::Translate { vaddr, access: AccessType::Load },
        Pending::AmoAddress { rd, vaddr, rs2, funct3, funct5 },
    );
    assert(begun(s, insn, insn_op) == (s, first));
    let asked = HartState { tlb: translated(s, bus, vaddr, AccessType::Load).0, ..s };
    let cleared = without_reservation(asked, mask, vaddr);
    let second = Step::Ask(
        Request::Atomic { op, pa, value, is_word },
        Pending::AmoData { rd },
    );
    assert(resumed(
        asked,
        mask,
        insn,
        Pending::AmoAddress { rd, vaddr, rs2, funct3, funct5 },
        Ok(pa),
    ) == (cleared, second));
    let (after, r) = atomic_result(bus, op, pa, value, is_word);
    let done = result_in(cleared, insn, rd, r->Ok_0);
    assert(resumed(cleared, mask, insn, Pending::AmoData { rd }, r) == done);
    assert(carried_on(done.0, mask, after, insn, done.1, 0) == (done.0, after, done.1));
    assert(carried_on(cleared, mask, bus, insn, second, 1) == (done.0, after, done.1));
    assert(carried_on(s, mask, bus, insn, first, 2) == (done.0, after, done.1));
}

/// Atomic instructions give what memory held, and leave there what they make of it and of a
/// register. They end a reservation of the granule that they write to, and no other.
#[verifier::spinoff_prover]
#[verifier::rlimit(40)]
pub proof fn law_atomic_updates(
    s: HartState,
    mask: u64,
    bus: SystemState,
    insn: Insn,
    rd: u8,
    rs1: u8,
    rs2: u8,
    funct5: u8,
    is_word: bool,
    aq: bool,
    rl: bool,
    at: int,
)
    requires
        s.wf(),
        0 < rd < 32,
        rs1 < 32,
        rs2 < 32,
        names_update(funct5),
        in_memory(s, bus, s.regs[rs1 as int], AccessType::Load, width(is_word), at),
    ensures
        ({
            let vaddr = s.regs[rs1 as int];
            let op = Op::Amo { rd, rs1, rs2, funct3: width_number(is_word), funct5, aq, rl };
            let (t, after, _) = executed(s, mask, bus, insn, op);
            &&& given(s, mask, bus, insn, op, rd, AccessType::Load, vaddr) matches Some(r)
                && is_loaded(r, bus.mem, at, width(is_word), true) && is_updated(
                after.mem,
                bus.mem,
                at,
                funct5,
                r,
                s.regs[rs2 as int],
                is_word,
            )
            &&& t.reservation == (if s.reservation == Some(vaddr & mask) {
                None
            } else {
                s.reservation
            })
        }),
{
    let vaddr = s.regs[rs1 as int];
    let op = atomic_op(funct5)->0;
    let pa = (bus.base + at) as u64;
    let b = s.regs[rs2 as int];
    lemma_atomic_memory(bus, funct5, op, pa, b, is_word, at);
    lemma_atomic_steps(s, mask, bus, insn, rd, rs1, rs2, funct5, op, is_word, aq, rl, pa);
}

/// A load that reserves gives what memory holds and notes the granule.
#[verifier::spinoff_prover]
#[verifier::rlimit(40)]
pub proof fn law_reserving_loads(
    s: HartState,
    mask: u64,
    bus: SystemState,
    insn: Insn,
    rd: u8,
    rs1: u8,
    rs2: u8,
    is_word: bool,
    aq: bool,
    rl: bool,
    at: int,
)
    requires
        s.wf(),
        0 < rd < 32,
        rs1 < 32,
        rs2 < 32,
        in_memory(s, bus, s.regs[rs1 as int], AccessType::Load, width(is_word), at),
    ensures
        ({
            let vaddr = s.regs[rs1 as int];
            let op = Op::Amo {
                rd,
                rs1,
                rs2,
                funct3: width_number(is_word),
                funct5: 0b00010,
                aq,
                rl,
            };
            let (t, after, _) = executed(s, mask, bus, insn, op);
            &&& given(s, mask, bus, insn, op, rd, AccessType::Load, vaddr) matches Some(r)
                && is_loaded(r, bus.mem, at, width(is_word), true)
            &&& after == bus
            &&& t.reservation == Some(vaddr & mask)
        }),
{
    let vaddr = s.regs[rs1 as int];
    let size = width(is_word);
    let a = bytes::le_u64(bus.mem.subrange(at, at + size));
    let pa = (bus.base + at) as u64;
    assert(read_result(bus, pa, size) == Ok::<u64, Trap>(a));
    meaning::lemma_widened(a);
    let v = if is_word {
        (a as i32) as i64 as u64
    } else {
        a
    };
    meaning::lemma_widened_reading(bus.mem, at, size, v, true);
    let op = Op::Amo { rd, rs1, rs2, funct3: width_number(is_word), funct5: 0b00010, aq, rl };
    let asked = HartState { tlb: translated(s, bus, vaddr, AccessType::Load).0, ..s };
    let reserved = HartState { reservation: Some(vaddr & mask), ..asked };
    reveal_with_fuel(carried_on, 4);
    assert(executed(s, mask, bus, insn, op) == (
        result_in(reserved, insn, rd, v).0,
        bus,
        Step::Retire(Effect::Nothing),
    ));
}

/// A conditional store writes where the granule is reserved, says so by 0 and ends the
/// reservation; where it is not reserved, it says so by 1 and writes nothing. An address that
/// is not a multiple of the width ends it in a trap.
#[verifier::spinoff_prover]
#[verifier::rlimit(40)]
pub proof fn law_conditional_stores(
    s: HartState,
    mask: u64,
    bus: SystemState,
    insn: Insn,
    rd: u8,
    rs1: u8,
    rs2: u8,
    is_word: bool,
    aq: bool,
    rl: bool,
    at: int,
)
    requires
        s.wf(),
        0 < rd < 32,
        rs1 < 32,
        rs2 < 32,
        in_memory(s, bus, s.regs[rs1 as int], AccessType::Load, width(is_word), at),
    ensures
        ({
            let vaddr = s.regs[rs1 as int];
            let op = Op::Amo {
                rd,
                rs1,
                rs2,
                funct3: width_number(is_word),
                funct5: 0b00011,
                aq,
                rl,
            };
            let (t, after, step) = executed(s, mask, bus, insn, op);
            let result = given(s, mask, bus, insn, op, rd, AccessType::Load, vaddr);
            let aligned = vaddr as int % width(is_word) as int == 0;
            let reserved = s.reservation == Some(vaddr & mask);
            &&& !aligned ==> step == Step::Raise(Trap::StoreAddressMisaligned(vaddr)) && after == bus
                && t.regs == s.regs && t.reservation == s.reservation
            &&& aligned && reserved ==> result == Some(0u64) && is_stored(
                after.mem,
                bus.mem,
                at,
                width(is_word),
                s.regs[rs2 as int],
            ) && t.reservation is None
            &&& aligned && !reserved ==> result == Some(1u64) && after == bus && t.reservation
                == s.reservation
        }),
{
    let vaddr = s.regs[rs1 as int];
    let size = width(is_word);
    let b = s.regs[rs2 as int];
    let pa = (bus.base + at) as u64;
    bytes::lemma_le_bytes_len(b as nat, size as nat);
    meaning::lemma_writing_spells(bus.mem, at, size, b);
    let op = Op::Amo { rd, rs1, rs2, funct3: width_number(is_word), funct5: 0b00011, aq, rl };
    let asked = HartState { tlb: translated(s, bus, vaddr, AccessType::Load).0, ..s };
    let (after, done) = write_result(bus, pa, size, b);
    reveal_with_fuel(carried_on, 4);
    if vaddr % size != 0 {
        assert(executed(s, mask, bus, insn, op) == (
            asked,
            bus,
            Step::Raise(Trap::StoreAddressMisaligned(vaddr)),
        ));
    } else if s.reservation == Some(vaddr & mask) {
        assert(executed(s, mask, bus, insn, op) == (
            result_in(HartState { reservation: None, ..asked }, insn, rd, 0).0,
            after,
            Step::Retire(Effect::Nothing),
        ));
    } else {
        assert(executed(s, mask, bus, insn, op) == (
            result_in(asked, insn, rd, 1).0,
            bus,
            Step::Retire(Effect::Nothing),
        ));
    }
}

/// Where the address leads to no memory, an instruction ends in a trap that names the physical
/// address; where it leads nowhere, in that of the translation. Memory and the registers stay.
pub proof fn law_accesses_outside_memory(
    s: HartState,
    mask: u64,
    bus: SystemState,
    insn: Insn,
    rd: u8,
    rs1: u8,
    rs2: u8,
    imm: i64,
    funct3: u8,
    vaddr: u64,
)
    requires
        s.wf(),
        rd < 32,
        rs1 < 32,
        rs2 < 32,
        funct3 < 4,
        is_cut(vaddr, s.regs[rs1 as int] + imm),
    ensures
        ({
            let size = alu::load_size(funct3)->0;
            let loading = translated(s, bus, vaddr, AccessType::Load).1;
            let storing = translated(s, bus, vaddr, AccessType::Store).1;
            let (t, after, step) = executed(s, mask, bus, insn, Op::Load { rd, rs1, imm, funct3 });
            let (u, then_after, then_step) = executed(
                s,
                mask,
                bus,
                insn,
                Op::Store { rs1, rs2, imm, funct3 },
            );
            &&& loading matches Ok(pa) ==> (pa < bus.base || pa + size > bus.base + bus.mem.len() ==> step
                == Step::Raise(Trap::LoadAccessFault(pa)) && after == bus && t.regs == s.regs && t.pc == s.pc)
            &&& storing matches Ok(pa) ==> (pa < bus.base || pa + size > bus.base + bus.mem.len() ==> then_step
                == Step::Raise(Trap::StoreAccessFault(pa)) && then_after == bus && u.regs == s.regs && u.pc == s.pc)
            &&& loading matches Err(trap) ==> step == Step::Abort(trap) && after == bus && t.regs
                == s.regs && t.pc == s.pc
            &&& storing matches Err(trap) ==> then_step == Step::Abort(trap) && then_after == bus
                && u.regs == s.regs && u.pc == s.pc
        }),
{
    meaning::lemma_casts(0, imm);
    assert(vaddr == s.regs[rs1 as int].wrapping_add(imm as u64));
    reveal_with_fuel(carried_on, 4);
    let size = alu::load_size(funct3)->0;
    bytes::lemma_le_bytes_len(s.regs[rs2 as int] as nat, size as nat);
}

} // verus!
