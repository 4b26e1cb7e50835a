//! What the instructions of the hart mean: relations between what the registers and memory
//! hold before and after.

use vstd::prelude::*;

verus! {

use crate::cpu::csr::{CSR_SATP, CSR_TIME};
use crate::cpu::decoder::Op;
use crate::cpu::execution::{
    begun, lemma_privileged_codes, resumed, Effect, Insn, Request, Step,
};
use crate::cpu::hart::HartState;
use crate::cpu::types::Trap;
use crate::meaning::{
    self, differs, divides, is_answer, is_cut, is_cut_word, is_division, is_high_part, lacks,
    meets, moved_down, moved_down_signed, moved_up, signed, signed_word, unites, word,
    word_moved_down, word_moved_down_signed, word_moved_up,
};

/// What an instruction puts into register `rd`, where this and to go on behind the instruction
/// is all that it does.
pub open spec fn given(s: HartState, insn: Insn, op: Op, rd: u8) -> Option<u64> {
    let (t, step) = begun(s, insn, op);
    if step == Step::Retire(Effect::Nothing) && is_cut(t.pc, s.pc + insn.len) && t == (HartState {
        regs: s.regs.update(rd as int, t.regs[rd as int]),
        pc: t.pc,
        ..s
    }) {
        Some(t.regs[rd as int])
    } else {
        None
    }
}

/// That an instruction does not exist: it ends in a trap that names its bits, and does nothing.
pub open spec fn does_not_exist(s: HartState, insn: Insn, op: Op) -> bool {
    begun(s, insn, op) == (s, Step::Raise(Trap::IllegalInstruction(insn.raw as u64)))
}

/// A constant as a machine number.
pub open spec fn constant(imm: i64) -> u64 {
    if imm < 0 {
        (imm + 0x1_0000_0000_0000_0000) as u64
    } else {
        imm as u64
    }
}

/// Sums, differences, products and comparisons of two registers.
pub proof fn law_register_sums(s: HartState, insn: Insn, rd: u8, rs1: u8, rs2: u8)
    requires
        s.wf(),
        0 < rd < 32,
        rs1 < 32,
        rs2 < 32,
    ensures
        ({
            let a = s.regs[rs1 as int];
            let b = s.regs[rs2 as int];
            let x = |funct7: u8, funct3: u8|
                given(s, insn, Op::Op { rd, rs1, rs2, funct3, funct7 }, rd);
            &&& x(0, 0) matches Some(r) && is_cut(r, a + b)
            &&& x(0x20, 0) matches Some(r) && is_cut(r, a - b)
            &&& x(1, 0) matches Some(r) && is_cut(r, a * b)
            &&& x(0, 2) matches Some(r) && is_answer(r, signed(a) < signed(b))
            &&& x(0, 3) matches Some(r) && is_answer(r, a < b)
            &&& x(1, 1) matches Some(r) && is_high_part(signed(r), signed(a) * signed(b))
            &&& x(1, 2) matches Some(r) && is_high_part(signed(r), signed(a) * b)
            &&& x(1, 3) matches Some(r) && is_high_part(r as int, a * b)
        }),
{
    let a = s.regs[rs1 as int];
    let b = s.regs[rs2 as int];
    meaning::lemma_sums(a, b);
    meaning::lemma_high_parts(a, b);
    meaning::lemma_casts(a, 0);
    meaning::lemma_casts(b, 0);
}

/// Bits of two registers, and shifts of one by the other modulo 64.
pub proof fn law_register_bits(s: HartState, insn: Insn, rd: u8, rs1: u8, rs2: u8)
    requires
        s.wf(),
        0 < rd < 32,
        rs1 < 32,
        rs2 < 32,
    ensures
        ({
            let a = s.regs[rs1 as int];
            let b = s.regs[rs2 as int];
            let n = b as int % 64;
            let x = |funct7: u8, funct3: u8|
                given(s, insn, Op::Op { rd, rs1, rs2, funct3, funct7 }, rd);
            &&& x(0, 4) matches Some(r) && differs(r, a, b)
            &&& x(0, 6) matches Some(r) && unites(r, a, b)
            &&& x(0, 7) matches Some(r) && meets(r, a, b)
            &&& x(0, 1) matches Some(r) && moved_up(r, a, n)
            &&& x(0, 5) matches Some(r) && moved_down(r, a, n)
            &&& x(0x20, 5) matches Some(r) && moved_down_signed(r, a, n)
        }),
{
    let a = s.regs[rs1 as int];
    let b = s.regs[rs2 as int];
    meaning::lemma_bits(a, b);
    meaning::lemma_shifts(a, b);
}

/// Quotients and remainders of two registers belong together.
pub proof fn law_register_divisions(s: HartState, insn: Insn, rd: u8, rs1: u8, rs2: u8)
    requires
        s.wf(),
        0 < rd < 32,
        rs1 < 32,
        rs2 < 32,
    ensures
        ({
            let a = s.regs[rs1 as int];
            let b = s.regs[rs2 as int];
            let x = |funct3: u8|
                given(s, insn, Op::Op { rd, rs1, rs2, funct3, funct7: 1 }, rd);
            &&& x(4) matches Some(q) && x(6) matches Some(rest) && is_division(
                signed(a),
                signed(b),
                signed(q),
                signed(rest),
                0x8000_0000_0000_0000,
            )
            &&& x(5) matches Some(q) && x(7) matches Some(rest) && if b == 0 {
                q == 0xffff_ffff_ffff_ffff && rest == a
            } else {
                divides(a as int, b as int, q as int, rest as int)
            }
        }),
{
    meaning::lemma_divisions(s.regs[rs1 as int], s.regs[rs2 as int]);
}

/// Sums, differences, products and shifts of the low words of two registers.
pub proof fn law_word_operations(s: HartState, insn: Insn, rd: u8, rs1: u8, rs2: u8)
    requires
        s.wf(),
        0 < rd < 32,
        rs1 < 32,
        rs2 < 32,
    ensures
        ({
            let a = s.regs[rs1 as int];
            let b = s.regs[rs2 as int];
            let n = b as int % 32;
            let x = |funct7: u8, funct3: u8|
                given(s, insn, Op::Op32 { rd, rs1, rs2, funct3, funct7 }, rd);
            &&& x(0, 0) matches Some(r) && is_cut_word(r, a + b)
            &&& x(0x20, 0) matches Some(r) && is_cut_word(r, a - b)
            &&& x(1, 0) matches Some(r) && is_cut_word(r, a * b)
            &&& x(0, 1) matches Some(r) && word_moved_up(r, a, n)
            &&& x(0, 5) matches Some(r) && word_moved_down(r, a, n)
            &&& x(0x20, 5) matches Some(r) && word_moved_down_signed(r, a, n)
        }),
{
    let a = s.regs[rs1 as int];
    let b = s.regs[rs2 as int];
    meaning::lemma_words(a, b);
    meaning::lemma_word_products(a, b);
    meaning::lemma_shifts(a, b);
}

/// Quotients and remainders of the low words of two registers belong together.
pub proof fn law_word_divisions(s: HartState, insn: Insn, rd: u8, rs1: u8, rs2: u8)
    requires
        s.wf(),
        0 < rd < 32,
        rs1 < 32,
        rs2 < 32,
    ensures
        ({
            let a = s.regs[rs1 as int];
            let b = s.regs[rs2 as int];
            let x = |funct3: u8|
                given(s, insn, Op::Op32 { rd, rs1, rs2, funct3, funct7: 1 }, rd);
            &&& x(4) matches Some(q) && x(6) matches Some(rest) && is_division(
                signed_word(a),
                signed_word(b),
                signed(q),
                signed(rest),
                0x8000_0000,
            )
            &&& x(5) matches Some(q) && x(7) matches Some(rest) && is_cut_word(q, word(q))
                && is_cut_word(rest, word(rest)) && if word(b) == 0 {
                word(q) == 0xffff_ffff && word(rest) == word(a)
            } else {
                divides(word(a), word(b), word(q), word(rest))
            }
        }),
{
    let a = s.regs[rs1 as int];
    let b = s.regs[rs2 as int];
    meaning::lemma_word_divisions(a, b);
    meaning::lemma_unsigned_word_divisions(a, b);
}

/// Operations on a register and a constant.
pub proof fn law_constant_operations(s: HartState, insn: Insn, rd: u8, rs1: u8, imm: i64, funct7: u8)
    requires
        s.wf(),
        0 < rd < 32,
        rs1 < 32,
    ensures
        ({
            let a = s.regs[rs1 as int];
            let c = constant(imm);
            let x = |funct3: u8|
                given(s, insn, Op::OpImm { rd, rs1, imm, funct3, funct7 }, rd);
            &&& x(0) matches Some(r) && is_cut(r, a + imm)
            &&& x(2) matches Some(r) && is_answer(r, signed(a) < imm)
            &&& x(3) matches Some(r) && is_answer(r, a < c)
            &&& x(4) matches Some(r) && differs(r, a, c)
            &&& x(6) matches Some(r) && unites(r, a, c)
            &&& x(7) matches Some(r) && meets(r, a, c)
            &&& given(s, insn, Op::OpImm32 { rd, rs1, imm, funct3: 0, funct7 }, rd) matches Some(
                r,
            ) && is_cut_word(r, a + imm)
        }),
{
    let a = s.regs[rs1 as int];
    let c = constant(imm);
    meaning::lemma_casts(a, imm);
    meaning::lemma_bits(a, c);
    meaning::lemma_words(a, c);
    assert((c - imm) % 0x1_0000_0000 == 0);
}

/// Shifts of a register by a constant.
pub proof fn law_constant_shifts(s: HartState, insn: Insn, rd: u8, rs1: u8, imm: i64)
    requires
        s.wf(),
        0 < rd < 32,
        rs1 < 32,
    ensures
        ({
            let a = s.regs[rs1 as int];
            let n = imm as int % 64;
            let m = imm as int % 32;
            let x = |funct3: u8, funct7: u8|
                given(s, insn, Op::OpImm { rd, rs1, imm, funct3, funct7 }, rd);
            let w = |funct3: u8, funct7: u8|
                given(s, insn, Op::OpImm32 { rd, rs1, imm, funct3, funct7 }, rd);
            &&& x(1, 0) matches Some(r) && moved_up(r, a, n)
            &&& x(5, 0) matches Some(r) && moved_down(r, a, n)
            &&& x(5, 0x20) matches Some(r) && moved_down_signed(r, a, n)
            &&& w(1, 0) matches Some(r) && word_moved_up(r, a, m)
            &&& w(5, 0) matches Some(r) && word_moved_down(r, a, m)
            &&& w(5, 0x20) matches Some(r) && word_moved_down_signed(r, a, m)
        }),
{
    let a = s.regs[rs1 as int];
    meaning::lemma_constant_shifts(a, imm);
    meaning::lemma_casts(0, 0);
}

/// Constants, on their own or relative to the instruction; a fence does nothing.
pub proof fn law_constants(s: HartState, insn: Insn, rd: u8, imm: i64)
    requires
        s.wf(),
        0 < rd < 32,
    ensures
        given(s, insn, Op::Lui { rd, imm }, rd) matches Some(r) && is_cut(r, imm as int),
        given(s, insn, Op::Auipc { rd, imm }, rd) matches Some(r) && is_cut(r, s.pc + imm),
        given(s, insn, Op::Fence, rd) == Some(s.regs[rd as int]),
{
    meaning::lemma_casts(0, imm);
    assert(s.regs.update(rd as int, s.regs[rd as int]) =~= s.regs);
}

/// That an instruction goes to an address, given up to multiples of 2^64, with the registers
/// given: where the address is odd, it ends in a trap that names it and goes nowhere.
pub open spec fn goes_to(s: HartState, insn: Insn, op: Op, target: int, regs: Seq<u64>) -> bool {
    let (t, step) = begun(s, insn, op);
    &&& target % 2 == 0 ==> step == Step::Retire(Effect::Nothing) && is_cut(t.pc, target) && t == (
    HartState { pc: t.pc, regs, ..s })
    &&& target % 2 != 0 ==> (step matches Step::Raise(Trap::InstructionAddressMisaligned(at))
        && is_cut(at, target)) && t == (HartState { regs, ..s })
}

/// Jumps leave the address behind them in a register and go where they point: `JAL` by a
/// distance, `JALR` to the even address at or right below a sum.
pub proof fn law_jumps(s: HartState, insn: Insn, rd: u8, rs1: u8, imm: i64)
    requires
        s.wf(),
        rd < 32,
        rs1 < 32,
    ensures
        ({
            let a = s.regs[rs1 as int];
            let behind = (s.pc + insn.len) % 0x1_0000_0000_0000_0000;
            let regs = if rd == 0 {
                s.regs
            } else {
                s.regs.update(rd as int, behind as u64)
            };
            &&& goes_to(s, insn, Op::Jal { rd, imm }, s.pc + imm, regs)
            &&& goes_to(
                s,
                insn,
                Op::Jalr { rd, rs1, imm },
                if (a + imm) % 2 == 0 {
                    a + imm
                } else {
                    a + imm - 1
                },
                regs,
            )
        }),
{
    let a = s.regs[rs1 as int];
    let c = constant(imm);
    meaning::lemma_casts(a.wrapping_add(c), imm);
    assert((c - imm) % 0x1_0000_0000_0000_0000 == 0);
    assert((s.pc.wrapping_add(c) - (s.pc + imm)) % 0x1_0000_0000_0000_0000 == 0);
    assert((a.wrapping_add(c) - (a + imm)) % 0x1_0000_0000_0000_0000 == 0);
    assert((a.wrapping_add(c) - (a + imm)) % 2 == 0);
    assert((s.pc.wrapping_add(c) - (s.pc + imm)) % 2 == 0);
}

/// That a branch goes by a distance if it is taken, else to the next instruction.
pub open spec fn branches(s: HartState, insn: Insn, op: Op, distance: int, taken: bool) -> bool {
    let (t, step) = begun(s, insn, op);
    &&& taken ==> goes_to(s, insn, op, s.pc + distance, s.regs)
    &&& !taken ==> step == Step::Retire(Effect::Nothing) && is_cut(t.pc, s.pc + insn.len) && t == (
    HartState { pc: t.pc, ..s })
}

/// Branches are taken where two registers are equal, or one less than the other.
pub proof fn law_branches(s: HartState, insn: Insn, rs1: u8, rs2: u8, imm: i64)
    requires
        s.wf(),
        rs1 < 32,
        rs2 < 32,
    ensures
        ({
            let a = s.regs[rs1 as int];
            let b = s.regs[rs2 as int];
            let x = |funct3: u8, taken: bool|
                branches(s, insn, Op::Branch { rs1, rs2, imm, funct3 }, imm as int, taken);
            &&& x(0, a == b)
            &&& x(1, a != b)
            &&& x(4, signed(a) < signed(b))
            &&& x(5, signed(b) <= signed(a))
            &&& x(6, a < b)
            &&& x(7, b <= a)
        }),
{
    let c = constant(imm);
    meaning::lemma_casts(s.regs[rs1 as int], imm);
    meaning::lemma_casts(s.regs[rs2 as int], 0);
    assert((s.pc.wrapping_add(c) - (s.pc + imm)) % 0x1_0000_0000_0000_0000 == 0);
    assert((s.pc.wrapping_add(c) - (s.pc + imm)) % 2 == 0);
}

/// The numbers that name no operation.
pub proof fn law_unknown_operations(
    s: HartState,
    insn: Insn,
    rd: u8,
    rs1: u8,
    rs2: u8,
    imm: i64,
    funct3: u8,
    funct7: u8,
)
    ensures
        funct3 > 7 || !(funct7 == 0 || funct7 == 1 || (funct7 == 0x20 && (funct3 == 0 || funct3
            == 5))) ==> does_not_exist(s, insn, Op::Op { rd, rs1, rs2, funct3, funct7 }),
        !((funct7 == 0 && (funct3 == 0 || funct3 == 1 || funct3 == 5)) || (funct7 == 1 && (funct3
            == 0 || 4 <= funct3 <= 7)) || (funct7 == 0x20 && (funct3 == 0 || funct3 == 5)))
            ==> does_not_exist(s, insn, Op::Op32 { rd, rs1, rs2, funct3, funct7 }),
        funct3 > 7 ==> does_not_exist(s, insn, Op::OpImm { rd, rs1, imm, funct3, funct7 }),
        funct3 != 0 && funct3 != 1 && funct3 != 5 ==> does_not_exist(
            s,
            insn,
            Op::OpImm32 { rd, rs1, imm, funct3, funct7 },
        ),
        funct3 == 2 || funct3 == 3 || funct3 > 7 ==> does_not_exist(
            s,
            insn,
            Op::Branch { rs1, rs2, imm, funct3 },
        ),
        funct3 > 6 ==> does_not_exist(s, insn, Op::Load { rd, rs1, imm, funct3 }),
        funct3 == 4 || funct3 > 7 ==> does_not_exist(s, insn, Op::System { rd, rs1, funct3, imm }),
{
}

/// The control register that a constant names: its low twelve bits.
pub open spec fn control_register(imm: i64) -> u16 {
    (imm as int % 0x1000) as u16
}

/// That an instruction first asks for a control register, or for the time where that is what
/// the register holds, and, told `old`, puts it into `rd` and writes nothing.
pub open spec fn only_reads(
    s: HartState,
    mask: u64,
    insn: Insn,
    op: Op,
    rd: u8,
    csr: u16,
    old: u64,
) -> bool {
    let (s1, first) = begun(s, insn, op);
    &&& s1 == s
    &&& first matches Step::Ask(request, pending) && asks_for(request, csr) && is_done(
        s,
        insn,
        rd,
        old,
        resumed(s, mask, insn, pending, Ok(old)),
    )
}

/// That a request is for what a control register holds.
pub open spec fn asks_for(request: Request, csr: u16) -> bool {
    request == if csr == CSR_TIME {
        Request::ReadTime
    } else {
        Request::ReadCsr { csr }
    }
}

/// That an instruction is complete, with `v` in register `rd`.
pub open spec fn is_done(
    s: HartState,
    insn: Insn,
    rd: u8,
    v: u64,
    end: (HartState, Step),
) -> bool {
    let (t, step) = end;
    &&& step == Step::Retire(Effect::Nothing)
    &&& is_cut(t.pc, s.pc + insn.len)
    &&& t == (HartState {
        pc: t.pc,
        regs: if rd == 0 {
            s.regs
        } else {
            s.regs.update(rd as int, v)
        },
        ..s
    })
}

/// What an instruction asks to be written to a control register, once it was told that the
/// register holds `old`, where with that done all that it does is to put `old` into `rd`.
/// Where the register names the page tables, it forgets the translations.
pub open spec fn written(
    s: HartState,
    mask: u64,
    insn: Insn,
    op: Op,
    rd: u8,
    csr: u16,
    old: u64,
    reply: u64,
) -> Option<u64> {
    let (s1, first) = begun(s, insn, op);
    match first {
        Step::Ask(request, pending) => match resumed(s1, mask, insn, pending, Ok(old)) {
            (s2, Step::Ask(Request::WriteCsr { csr: place, value }, rest)) => {
                let (t, last) = resumed(s2, mask, insn, rest, Ok(reply));
                let settled = if csr == CSR_SATP {
                    &&& last == Step::Retire(Effect::Redecode)
                    &&& t.tlb.len() == 64
                    &&& forall|i: int| 0 <= i < 64 ==> !(#[trigger] t.tlb[i]).valid
                } else {
                    &&& last == Step::Retire(Effect::Nothing)
                    &&& t.tlb == s.tlb
                };
                if s1 == s && s2 == s && asks_for(request, csr) && place == csr && settled
                    && is_done(
                    s,
                    insn,
                    rd,
                    old,
                    (HartState { tlb: s.tlb, ..t }, Step::Retire(Effect::Nothing)),
                ) {
                    Some(value)
                } else {
                    None
                }
            },
            _ => None,
        },
        _ => None,
    }
}

/// Instructions on control registers: the old value goes to a register; the new value is the
/// one given, or the old one with the bits given set or cleared. They are given by a register
/// or by the number that stands in its place, and `x0` or 0 changes no bits.
pub proof fn law_control_registers(
    s: HartState,
    mask: u64,
    insn: Insn,
    rd: u8,
    rs1: u8,
    imm: i64,
    old: u64,
    reply: u64,
)
    requires
        s.wf(),
        rd < 32,
        rs1 < 32,
    ensures
        ({
            let a = s.regs[rs1 as int];
            let c = rs1 as u64;
            let csr = control_register(imm);
            let w = |funct3: u8|
                written(
                    s,
                    mask,
                    insn,
                    Op::System { rd, rs1, funct3, imm },
                    rd,
                    csr,
                    old,
                    reply,
                );
            let reads = |funct3: u8|
                only_reads(s, mask, insn, Op::System { rd, rs1, funct3, imm }, rd, csr, old);
            &&& w(1) == Some(a)
            &&& w(5) == Some(c)
            &&& rs1 != 0 ==> (w(2) matches Some(v) && unites(v, old, a))
            &&& rs1 != 0 ==> (w(6) matches Some(v) && unites(v, old, c))
            &&& rs1 != 0 ==> (w(3) matches Some(v) && lacks(v, old, a) && v & a == 0 && v | (old
                & a) == old)
            &&& rs1 != 0 ==> (w(7) matches Some(v) && lacks(v, old, c) && v & c == 0 && v | (old
                & c) == old)
            &&& rs1 == 0 ==> reads(2) && reads(3) && reads(6) && reads(7)
        }),
{
    let a = s.regs[rs1 as int];
    let c = rs1 as u64;
    meaning::lemma_casts(0, imm);
    meaning::lemma_bits(old, a);
    meaning::lemma_bits(old, c);
    meaning::lemma_cleared_bits(old, a);
    meaning::lemma_cleared_bits(old, c);
}

/// A control register that cannot be read or written ends the instruction in the trap that was
/// answered, with nothing changed; where there is no clock, the time is zero.
pub proof fn law_refused_control_registers(
    s: HartState,
    mask: u64,
    insn: Insn,
    rd: u8,
    rs1: u8,
    imm: i64,
    funct3: u8,
    old: u64,
    trap: Trap,
)
    requires
        s.wf(),
        rd < 32,
        rs1 < 32,
        1 <= funct3 <= 7,
        funct3 != 4,
    ensures
        ({
            let csr = control_register(imm);
            &&& begun(s, insn, Op::System { rd, rs1, funct3, imm }).1 matches Step::Ask(_, pending)
                && {
                &&& csr != CSR_TIME ==> resumed(s, mask, insn, pending, Err(trap)) == (
                    s,
                    Step::Raise(trap),
                )
                &&& csr == CSR_TIME ==> resumed(s, mask, insn, pending, Err(trap)) == resumed(
                    s,
                    mask,
                    insn,
                    pending,
                    Ok(0),
                )
                &&& resumed(s, mask, insn, pending, Ok(old)).1 matches Step::Ask(_, rest)
                    ==> resumed(s, mask, insn, rest, Err(trap)) == (s, Step::Raise(trap))
            }
        }),
{
    meaning::lemma_casts(0, imm);
}

/// Calls and breakpoints stop the instruction where it is, and a call says from where; the
/// wait for an interrupt pauses the hart behind itself; a fence of translations forgets them.
pub proof fn law_instructions_on_the_hart(s: HartState, rd: u8, rs1: u8, imm: i64, len: u8)
    requires
        s.wf(),
    ensures
        ({
            let x = |raw: u32|
                begun(s, Insn { raw, len }, Op::System { rd, rs1, funct3: 0, imm });
            let (paused, pause) = x(0x1050_0073);
            let (fenced, fence) = x(0x1200_0073);
            &&& x(0x0010_0073) == (s, Step::Raise(Trap::Breakpoint))
            &&& s.mode is User ==> x(0x0000_0073) == (s, Step::Raise(Trap::EnvironmentCallFromU))
            &&& s.mode is Supervisor ==> x(0x0000_0073) == (
                s,
                Step::Raise(Trap::EnvironmentCallFromS),
            )
            &&& s.mode is Machine ==> x(0x0000_0073) == (
                s,
                Step::Raise(Trap::EnvironmentCallFromM),
            )
            &&& pause == Step::Retire(Effect::Pause)
            &&& is_cut(paused.pc, s.pc + len)
            &&& paused == (HartState { pc: paused.pc, ..s })
            &&& !(s.mode is User) ==> fence == Step::Retire(Effect::Redecode) && is_cut(
                fenced.pc,
                s.pc + len,
            ) && fenced == (HartState { pc: fenced.pc, tlb: fenced.tlb, ..s })
                && fenced.tlb.len() == 64 && forall|i: int|
                0 <= i < 64 ==> !(#[trigger] fenced.tlb[i]).valid
        }),
{
    lemma_privileged_codes();
}

} // verus!
