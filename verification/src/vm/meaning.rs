//! What the instructions of the machine mean, by the words that they are written as.

use vstd::prelude::*;

verus! {

use crate::bytes;
use crate::meaning::{
    self, differs, divides, is_answer, is_cut, is_cut_word, is_division, is_high_part, is_loaded,
    is_stored, lacks, meets, moved_down, moved_down_signed, moved_up, signed, unites,
    word_moved_down, word_moved_down_signed, word_moved_up,
};
use crate::vm::encoding::{self, b_type, constant, i_type, j_type, r_type, s_type, u_type};
use crate::vm::bus::BusState;
use crate::vm::isa::{execute, fetch, load_widen, load_width, step, CpuState};

/// A machine with all its registers.
pub open spec fn is_whole(s: CpuState) -> bool {
    s.regs.len() == 32 && s.csrs.len() == 4096
}

/// What a register reads as.
pub open spec fn value(s: CpuState, i: u32) -> u64 {
    if i == 0 {
        0
    } else {
        s.regs[i as int]
    }
}

/// What an instruction of `len` bytes puts into register `rd`, where this and to go on behind
/// the instruction is all that it does.
pub open spec fn given(s: CpuState, inst: u32, rd: u32, len: int) -> Option<u64> {
    let (t, r) = execute(s, inst);
    if r is Ok && is_cut(t.pc, s.pc + len) && t == (CpuState {
        regs: s.regs.update(rd as int, t.regs[rd as int]),
        pc: t.pc,
        ..s
    }) {
        Some(t.regs[rd as int])
    } else {
        None
    }
}

/// Sums, differences, products and comparisons of two registers.
#[verifier::spinoff_prover]
pub proof fn law_register_sums(s: CpuState, rd: u32, rs1: u32, rs2: u32)
    requires
        is_whole(s),
        0 < rd < 32,
        rs1 < 32,
        rs2 < 32,
    ensures
        ({
            let a = value(s, rs1);
            let b = value(s, rs2);
            let x = |funct7: u32, funct3: u32|
                given(s, r_type(funct7, rs2, rs1, funct3, rd, 0x33), rd, 4);
            &&& x(0, 0) matches Some(r) && is_cut(r, a + b)
            &&& x(0x20, 0) matches Some(r) && is_cut(r, a - b)
            &&& x(1, 0) matches Some(r) && is_cut(r, a * b)
            &&& x(0, 2) matches Some(r) && is_answer(r, signed(a) < signed(b))
            &&& x(0, 3) matches Some(r) && is_answer(r, a < b)
            &&& x(1, 1) matches Some(r) && is_high_part(signed(r), signed(a) * signed(b))
            &&& x(1, 2) matches Some(r) && is_high_part(signed(r), signed(a) * b)
            &&& x(1, 3) matches Some(r) && is_high_part(r as int, a * b)
        }),
{
    let a = value(s, rs1);
    let b = value(s, rs2);
    meaning::lemma_sums(a, b);
    meaning::lemma_high_parts(a, b);
    meaning::lemma_casts(a, 0);
    meaning::lemma_casts(b, 0);
    encoding::lemma_r(0, rs2, rs1, 0, rd, 0x33);
    encoding::lemma_r(0x20, rs2, rs1, 0, rd, 0x33);
    encoding::lemma_r(1, rs2, rs1, 0, rd, 0x33);
    encoding::lemma_r(0, rs2, rs1, 2, rd, 0x33);
    encoding::lemma_r(0, rs2, rs1, 3, rd, 0x33);
    encoding::lemma_r(1, rs2, rs1, 1, rd, 0x33);
    encoding::lemma_r(1, rs2, rs1, 2, rd, 0x33);
    encoding::lemma_r(1, rs2, rs1, 3, rd, 0x33);
}

/// Bits of two registers, and shifts of one by the other modulo 64.
#[verifier::spinoff_prover]
pub proof fn law_register_bits(s: CpuState, rd: u32, rs1: u32, rs2: u32)
    requires
        is_whole(s),
        0 < rd < 32,
        rs1 < 32,
        rs2 < 32,
    ensures
        ({
            let a = value(s, rs1);
            let b = value(s, rs2);
            let n = b as int % 64;
            let x = |funct7: u32, funct3: u32|
                given(s, r_type(funct7, rs2, rs1, funct3, rd, 0x33), rd, 4);
            &&& x(0, 4) matches Some(r) && differs(r, a, b)
            &&& x(0, 6) matches Some(r) && unites(r, a, b)
            &&& x(0, 7) matches Some(r) && meets(r, a, b)
            &&& x(0, 1) matches Some(r) && moved_up(r, a, n)
            &&& x(0, 5) matches Some(r) && moved_down(r, a, n)
            &&& x(0x20, 5) matches Some(r) && moved_down_signed(r, a, n)
        }),
{
    let a = value(s, rs1);
    let b = value(s, rs2);
    meaning::lemma_bits(a, b);
    meaning::lemma_shifts(a, b);
    encoding::lemma_r(0, rs2, rs1, 4, rd, 0x33);
    encoding::lemma_r(0, rs2, rs1, 6, rd, 0x33);
    encoding::lemma_r(0, rs2, rs1, 7, rd, 0x33);
    encoding::lemma_r(0, rs2, rs1, 1, rd, 0x33);
    encoding::lemma_r(0, rs2, rs1, 5, rd, 0x33);
    encoding::lemma_r(0x20, rs2, rs1, 5, rd, 0x33);
}

/// Quotients and remainders of two registers belong together.
#[verifier::spinoff_prover]
pub proof fn law_register_divisions(s: CpuState, rd: u32, rs1: u32, rs2: u32)
    requires
        is_whole(s),
        0 < rd < 32,
        rs1 < 32,
        rs2 < 32,
    ensures
        ({
            let a = value(s, rs1);
            let b = value(s, rs2);
            let x = |funct3: u32| given(s, r_type(1, rs2, rs1, funct3, rd, 0x33), rd, 4);
            &&& x(4) matches Some(q) && x(6) matches Some(rest) && is_division(
                signed(a),
                signed(b),
                signed(q),
                signed(rest),
                0x8000_0000_0000_0000,
            )
            &&& x(5) matches Some(q) && x(7) matches Some(rest) && if b == 0 {
                q == 0xffff_ffff_ffff_ffff && rest == a
            } else {
                divides(a as int, b as int, q as int, rest as int)
            }
        }),
{
    let a = value(s, rs1);
    let b = value(s, rs2);
    meaning::lemma_divisions(a, b);
    encoding::lemma_r(1, rs2, rs1, 4, rd, 0x33);
    encoding::lemma_r(1, rs2, rs1, 5, rd, 0x33);
    encoding::lemma_r(1, rs2, rs1, 6, rd, 0x33);
    encoding::lemma_r(1, rs2, rs1, 7, rd, 0x33);
}

/// Operations on the low words of two registers.
#[verifier::spinoff_prover]
pub proof fn law_word_operations(s: CpuState, rd: u32, rs1: u32, rs2: u32)
    requires
        is_whole(s),
        0 < rd < 32,
        rs1 < 32,
        rs2 < 32,
    ensures
        ({
            let a = value(s, rs1);
            let b = value(s, rs2);
            let n = b as int % 32;
            let x = |funct7: u32, funct3: u32|
                given(s, r_type(funct7, rs2, rs1, funct3, rd, 0x3b), rd, 4);
            &&& x(0, 0) matches Some(r) && is_cut_word(r, a + b)
            &&& x(0x20, 0) matches Some(r) && is_cut_word(r, a - b)
            &&& x(0, 1) matches Some(r) && word_moved_up(r, a, n)
            &&& x(0, 5) matches Some(r) && word_moved_down(r, a, n)
            &&& x(0x20, 5) matches Some(r) && word_moved_down_signed(r, a, n)
        }),
{
    let a = value(s, rs1);
    let b = value(s, rs2);
    let sum = (a as i32).wrapping_add(b as i32) as i64;
    let difference = (a as i32).wrapping_sub(b as i32) as i64;
    meaning::lemma_casts(a, sum);
    meaning::lemma_casts(b, difference);
    meaning::lemma_shifts(a, b);
    encoding::lemma_r(0, rs2, rs1, 0, rd, 0x3b);
    encoding::lemma_r(0x20, rs2, rs1, 0, rd, 0x3b);
    encoding::lemma_r(0, rs2, rs1, 1, rd, 0x3b);
    encoding::lemma_r(0, rs2, rs1, 5, rd, 0x3b);
    encoding::lemma_r(0x20, rs2, rs1, 5, rd, 0x3b);
}

/// Operations on a register and a constant.
#[verifier::spinoff_prover]
pub proof fn law_constant_operations(s: CpuState, rd: u32, rs1: u32, imm: i32)
    requires
        is_whole(s),
        0 < rd < 32,
        rs1 < 32,
        -0x800 <= imm < 0x800,
    ensures
        ({
            let a = value(s, rs1);
            let x = |funct3: u32| given(s, i_type(imm, rs1, funct3, rd, 0x13), rd, 4);
            &&& x(0) matches Some(r) && is_cut(r, a + imm)
            &&& x(2) matches Some(r) && is_answer(r, signed(a) < imm)
            &&& x(3) matches Some(r) && is_answer(r, a < constant(imm))
            &&& x(4) matches Some(r) && differs(r, a, constant(imm))
            &&& x(6) matches Some(r) && unites(r, a, constant(imm))
            &&& x(7) matches Some(r) && meets(r, a, constant(imm))
            &&& given(s, i_type(imm, rs1, 0, rd, 0x1b), rd, 4) matches Some(r) && is_cut_word(
                r,
                a + imm,
            )
        }),
{
    let a = value(s, rs1);
    let c = constant(imm);
    meaning::lemma_bits(a, c);
    let sum = (a as i32).wrapping_add(c as i32) as i64;
    meaning::lemma_casts(a, sum);
    meaning::lemma_casts(c, 0);
    encoding::lemma_i(imm, rs1, 0, rd, 0x13);
    encoding::lemma_i(imm, rs1, 2, rd, 0x13);
    encoding::lemma_i(imm, rs1, 3, rd, 0x13);
    encoding::lemma_i(imm, rs1, 4, rd, 0x13);
    encoding::lemma_i(imm, rs1, 6, rd, 0x13);
    encoding::lemma_i(imm, rs1, 7, rd, 0x13);
    encoding::lemma_i(imm, rs1, 0, rd, 0x1b);
}

/// Shifts of numbers by constants that are written as they stand or with the mark for signs.
proof fn lemma_amounts(a: u64, n: i32)
    requires
        0 <= n < 64,
    ensures
        ({
            let m = constant(n);
            let high = constant((n + 0x400) as i32);
            &&& moved_up(a << (m & 0x3f), a, n as int)
            &&& moved_down(a >> (m & 0x3f), a, n as int)
            &&& moved_down_signed(((a as i64) >> (high & 0x3f)) as u64, a, n as int)
        }),
        n < 32 ==> ({
            let k = n as u32;
            &&& word_moved_up((a as i32).wrapping_shl(k) as i64 as u64, a, n as int)
            &&& word_moved_down((((a as u32) >> k) as i32) as i64 as u64, a, n as int)
            &&& word_moved_down_signed((a as i32).wrapping_shr(k) as i64 as u64, a, n as int)
        }),
{
    let m = constant(n);
    let high = constant((n + 0x400) as i32);
    assert(m & 0x3f == m && high & 0x3f == m && m & 0x1f == m % 32) by {
        meaning::lemma_casts(m, 0);
        meaning::lemma_casts(high, 0);
    }
    meaning::lemma_shifts(a, m);
}

/// Shifts of a register by a constant.
#[verifier::spinoff_prover]
pub proof fn law_constant_shifts(s: CpuState, rd: u32, rs1: u32, n: i32)
    requires
        is_whole(s),
        0 < rd < 32,
        rs1 < 32,
        0 <= n < 64,
    ensures
        ({
            let a = value(s, rs1);
            let signed_n = (n + 0x400) as i32;
            let x = |imm: i32, funct3: u32| given(s, i_type(imm, rs1, funct3, rd, 0x13), rd, 4);
            &&& x(n, 1) matches Some(r) && moved_up(r, a, n as int)
            &&& x(n, 5) matches Some(r) && moved_down(r, a, n as int)
            &&& x(signed_n, 5) matches Some(r) && moved_down_signed(r, a, n as int)
        }),
{
    lemma_amounts(value(s, rs1), n);
    let signed_n = (n + 0x400) as i32;
    encoding::lemma_i(n, rs1, 1, rd, 0x13);
    encoding::lemma_i(n, rs1, 5, rd, 0x13);
    encoding::lemma_i(signed_n, rs1, 5, rd, 0x13);
}

/// Shifts of the low word of a register by a constant.
#[verifier::spinoff_prover]
pub proof fn law_constant_word_shifts(s: CpuState, rd: u32, rs1: u32, n: i32)
    requires
        is_whole(s),
        0 < rd < 32,
        rs1 < 32,
        0 <= n < 32,
    ensures
        ({
            let a = value(s, rs1);
            let signed_n = (n + 0x400) as i32;
            let w = |imm: i32, funct3: u32| given(s, i_type(imm, rs1, funct3, rd, 0x1b), rd, 4);
            &&& w(n, 1) matches Some(r) && word_moved_up(r, a, n as int)
            &&& w(n, 5) matches Some(r) && word_moved_down(r, a, n as int)
            &&& w(signed_n, 5) matches Some(r) && word_moved_down_signed(r, a, n as int)
        }),
{
    lemma_amounts(value(s, rs1), n);
    let signed_n = (n + 0x400) as i32;
    encoding::lemma_i(n, rs1, 1, rd, 0x1b);
    encoding::lemma_i(n, rs1, 5, rd, 0x1b);
    encoding::lemma_i(signed_n, rs1, 5, rd, 0x1b);
}

/// Constants for the upper part of a register, on their own or relative to the instruction.
#[verifier::spinoff_prover]
pub proof fn law_upper_constants(s: CpuState, rd: u32, imm: u32)
    requires
        is_whole(s),
        0 < rd < 32,
        imm < 0x10_0000,
    ensures
        given(s, u_type(imm, rd, 0x37), rd, 4) matches Some(r) && is_cut_word(r, imm * 0x1000),
        given(s, u_type(imm, rd, 0x17), rd, 4) matches Some(r) && exists|offset: u64| #[trigger]
            is_cut_word(offset, imm * 0x1000) && is_cut(r, s.pc + offset),
{
    encoding::lemma_u(imm, rd, 0x37);
    encoding::lemma_u(imm, rd, 0x17);
    let offset = crate::vm::isa::imm_u(u_type(imm, rd, 0x17));
    assert(is_cut_word(offset, imm * 0x1000));
}

/// That `t` is the machine `s` with another program counter.
pub open spec fn moved(t: CpuState, s: CpuState) -> bool {
    t == (CpuState { pc: t.pc, ..s })
}

/// Jumps leave the address behind them in a register and go where they point: `JAL` by a
/// distance, `JALR` to an even address.
#[verifier::spinoff_prover]
pub proof fn law_jumps(s: CpuState, rd: u32, rs1: u32, distance: i32, imm: i32)
    requires
        is_whole(s),
        rd < 32,
        rs1 < 32,
        -0x10_0000 <= distance < 0x10_0000,
        distance & 1 == 0,
        -0x800 <= imm < 0x800,
    ensures
        ({
            let (t, r) = execute(s, j_type(distance, rd, 0x6f));
            let (u, q) = execute(s, i_type(imm, rs1, 0, rd, 0x67));
            let a = value(s, rs1);
            &&& r is Ok
            &&& is_cut(t.pc, s.pc + distance)
            &&& rd > 0 ==> is_cut(t.regs[rd as int], s.pc + 4)
            &&& moved(
                t,
                CpuState {
                    regs: if rd == 0 {
                        s.regs
                    } else {
                        s.regs.update(rd as int, t.regs[rd as int])
                    },
                    ..s
                },
            )
            &&& q is Ok
            &&& u.pc % 2 == 0
            &&& is_cut(u.pc, a + imm) || is_cut(u.pc, a + imm - 1)
            &&& u.regs == t.regs
            &&& moved(u, CpuState { regs: t.regs, ..s })
        }),
{
    encoding::lemma_j(distance, rd, 0x6f);
    encoding::lemma_i(imm, rs1, 0, rd, 0x67);
    meaning::lemma_casts(value(s, rs1).wrapping_add(constant(imm)), 0);
    assert(crate::vm::isa::imm_i(i_type(imm, rs1, 0, rd, 0x67)) == constant(imm));
}

/// That a branch goes by a distance if it is taken, else to the next instruction, and does no
/// more.
pub open spec fn branches(s: CpuState, inst: u32, distance: int, taken: bool) -> bool {
    let (t, r) = execute(s, inst);
    &&& r is Ok
    &&& moved(t, s)
    &&& taken ==> is_cut(t.pc, s.pc + distance)
    &&& !taken ==> is_cut(t.pc, s.pc + 4)
}

/// Branches are taken where two registers are equal, or one less than the other.
#[verifier::spinoff_prover]
pub proof fn law_branches(s: CpuState, rs1: u32, rs2: u32, distance: i32)
    requires
        is_whole(s),
        rs1 < 32,
        rs2 < 32,
        -0x1000 <= distance < 0x1000,
        distance & 1 == 0,
    ensures
        ({
            let a = value(s, rs1);
            let b = value(s, rs2);
            let b_inst = |funct3: u32| b_type(distance, rs2, rs1, funct3, 0x63);
            &&& branches(s, b_inst(0), distance as int, a == b)
            &&& branches(s, b_inst(1), distance as int, a != b)
            &&& branches(s, b_inst(4), distance as int, signed(a) < signed(b))
            &&& branches(s, b_inst(5), distance as int, signed(b) <= signed(a))
            &&& branches(s, b_inst(6), distance as int, a < b)
            &&& branches(s, b_inst(7), distance as int, b <= a)
        }),
{
    meaning::lemma_casts(value(s, rs1), 0);
    meaning::lemma_casts(value(s, rs2), 0);
    encoding::lemma_b(distance, rs2, rs1, 0, 0x63);
    encoding::lemma_b(distance, rs2, rs1, 1, 0x63);
    encoding::lemma_b(distance, rs2, rs1, 4, 0x63);
    encoding::lemma_b(distance, rs2, rs1, 5, 0x63);
    encoding::lemma_b(distance, rs2, rs1, 6, 0x63);
    encoding::lemma_b(distance, rs2, rs1, 7, 0x63);
}

/// That the `size` bytes that start `imm` behind what `rs1` holds lie in main memory, from the
/// place `at` of it on.
pub open spec fn in_memory(s: CpuState, rs1: u32, imm: int, size: u64, at: int) -> bool {
    &&& is_cut((0x8000_0000 + at) as u64, value(s, rs1) + imm)
    &&& 0 <= at
    &&& at + size <= s.bus.dram.len()
    &&& s.bus.dram.len() <= 0x2000_0000
}

/// A load from main memory.
proof fn lemma_load(s: CpuState, rd: u32, rs1: u32, imm: i32, funct3: u32, size: u64, at: int)
    requires
        is_whole(s),
        0 < rd < 32,
        rs1 < 32,
        -0x800 <= imm < 0x800,
        funct3 < 7,
        load_width(funct3) == Some(size),
        in_memory(s, rs1, imm as int, size, at),
    ensures
        ({
            let v = bytes::le_u64(s.bus.dram.subrange(at, at + size));
            given(s, i_type(imm, rs1, funct3, rd, 0x03), rd, 4) == Some(load_widen(funct3, v))
        }),
        is_loaded(
            load_widen(funct3, bytes::le_u64(s.bus.dram.subrange(at, at + size))),
            s.bus.dram,
            at,
            size,
            funct3 < 4,
        ),
{
    let m = s.bus.dram;
    let addr = value(s, rs1).wrapping_add(constant(imm));
    assert(addr == 0x8000_0000 + at);
    let v = bytes::le_u64(m.subrange(at, at + size));
    encoding::lemma_i(imm, rs1, funct3, rd, 0x03);
    meaning::lemma_widened(v);
    meaning::lemma_reading_spells(m, at, size);
    bytes::lemma_pow256_values();
    meaning::lemma_fitting(v);
    meaning::lemma_widened_reading(m, at, size, load_widen(funct3, v), funct3 < 4);
}

/// Loads give the bytes of main memory, widened by their sign or by zeros.
#[verifier::spinoff_prover]
pub proof fn law_loads(s: CpuState, rd: u32, rs1: u32, imm: i32, size: u64, at: int)
    requires
        is_whole(s),
        0 < rd < 32,
        rs1 < 32,
        -0x800 <= imm < 0x800,
        size == 1 || size == 2 || size == 4 || size == 8,
        in_memory(s, rs1, imm as int, size, at),
    ensures
        ({
            let x = |funct3: u32| given(s, i_type(imm, rs1, funct3, rd, 0x03), rd, 4);
            let m = s.bus.dram;
            &&& size == 1 ==> (x(0) matches Some(r) && is_loaded(r, m, at, 1, true))
            &&& size == 2 ==> (x(1) matches Some(r) && is_loaded(r, m, at, 2, true))
            &&& size == 4 ==> (x(2) matches Some(r) && is_loaded(r, m, at, 4, true))
            &&& size == 8 ==> (x(3) matches Some(r) && is_loaded(r, m, at, 8, true))
            &&& size == 1 ==> (x(4) matches Some(r) && is_loaded(r, m, at, 1, false))
            &&& size == 2 ==> (x(5) matches Some(r) && is_loaded(r, m, at, 2, false))
            &&& size == 4 ==> (x(6) matches Some(r) && is_loaded(r, m, at, 4, false))
        }),
{
    if size == 1 {
        lemma_load(s, rd, rs1, imm, 0, size, at);
        lemma_load(s, rd, rs1, imm, 4, size, at);
    } else if size == 2 {
        lemma_load(s, rd, rs1, imm, 1, size, at);
        lemma_load(s, rd, rs1, imm, 5, size, at);
    } else if size == 4 {
        lemma_load(s, rd, rs1, imm, 2, size, at);
        lemma_load(s, rd, rs1, imm, 6, size, at);
    } else {
        lemma_load(s, rd, rs1, imm, 3, size, at);
    }
}

/// Stores put the low-order bytes of a register into main memory, and leave the rest of it.
#[verifier::spinoff_prover]
pub proof fn law_stores(s: CpuState, rs1: u32, rs2: u32, imm: i32, size: u64, at: int)
    requires
        is_whole(s),
        rs1 < 32,
        rs2 < 32,
        -0x800 <= imm < 0x800,
        size == 1 || size == 2 || size == 4 || size == 8,
        in_memory(s, rs1, imm as int, size, at),
    ensures
        ({
            let funct3: u32 = if size == 1 {
                0
            } else if size == 2 {
                1
            } else if size == 4 {
                2
            } else {
                3
            };
            let (t, r) = execute(s, s_type(imm, rs2, rs1, funct3, 0x23));
            &&& r is Ok
            &&& is_cut(t.pc, s.pc + 4)
            &&& is_stored(t.bus.dram, s.bus.dram, at, size, value(s, rs2))
            &&& t == (CpuState {
                pc: t.pc,
                bus: BusState { dram: t.bus.dram, ..s.bus },
                ..s
            })
        }),
{
    let addr = value(s, rs1).wrapping_add(constant(imm));
    assert(addr == 0x8000_0000 + at);
    meaning::lemma_writing_spells(s.bus.dram, at, size, value(s, rs2));
    bytes::lemma_le_bytes_len(value(s, rs2) as nat, size as nat);
    encoding::lemma_s(imm, rs2, rs1, 0, 0x23);
    encoding::lemma_s(imm, rs2, rs1, 1, 0x23);
    encoding::lemma_s(imm, rs2, rs1, 2, 0x23);
    encoding::lemma_s(imm, rs2, rs1, 3, 0x23);
}

/// That an instruction puts what control register `csr` holds into `rd`, and then changes that
/// register alone, to `v`.
pub open spec fn exchanges(s: CpuState, inst: u32, rd: u32, csr: int, v: u64) -> bool {
    let (t, r) = execute(s, inst);
    &&& r is Ok
    &&& is_cut(t.pc, s.pc + 4)
    &&& t == (CpuState {
        pc: t.pc,
        regs: if rd == 0 {
            s.regs
        } else {
            s.regs.update(rd as int, s.csrs[csr])
        },
        csrs: s.csrs.update(csr, v),
        ..s
    })
}

/// Instructions on control registers: the old value goes to a register; the new value is the
/// one given, or the old one with the bits given set or cleared. They are given by a register
/// or by the number that stands in its place.
#[verifier::spinoff_prover]
pub proof fn law_control_registers(s: CpuState, rd: u32, rs1: u32, imm: i32, csr: int)
    requires
        is_whole(s),
        rd < 32,
        rs1 < 32,
        -0x800 <= imm < 0x800,
        csr == if imm < 0 {
            imm + 0x1000
        } else {
            imm as int
        },
    ensures
        ({
            let a = value(s, rs1);
            let c = rs1 as u64;
            let before = s.csrs[csr];
            let after = |funct3: u32|
                execute(s, i_type(imm, rs1, funct3, rd, 0x73)).0.csrs[csr];
            let does = |funct3: u32|
                exchanges(s, i_type(imm, rs1, funct3, rd, 0x73), rd, csr, after(funct3));
            &&& does(1) && does(2) && does(3) && does(5) && does(6) && does(7)
            &&& after(1) == a && after(5) == c
            &&& unites(after(2), before, a) && unites(after(6), before, c)
            &&& lacks(after(3), before, a) && lacks(after(7), before, c)
        }),
{
    let a = value(s, rs1);
    meaning::lemma_bits(s.csrs[csr], a);
    meaning::lemma_bits(s.csrs[csr], rs1 as u64);
    meaning::lemma_cleared_bits(s.csrs[csr], a);
    meaning::lemma_cleared_bits(s.csrs[csr], rs1 as u64);
    encoding::lemma_i(imm, rs1, 1, rd, 0x73);
    encoding::lemma_i(imm, rs1, 2, rd, 0x73);
    encoding::lemma_i(imm, rs1, 3, rd, 0x73);
    encoding::lemma_i(imm, rs1, 5, rd, 0x73);
    encoding::lemma_i(imm, rs1, 6, rd, 0x73);
    encoding::lemma_i(imm, rs1, 7, rd, 0x73);
}

/// A return goes to the address that was saved, and waiting for an interrupt does nothing;
/// calls and breakpoints stop the machine where it is.
#[verifier::spinoff_prover]
pub proof fn law_privileged_instructions(s: CpuState)
    requires
        is_whole(s),
    ensures
        execute(s, i_type(0x302, 0, 0, 0, 0x73)) == (
            CpuState { pc: s.csrs[0x341], ..s },
            Ok::<(), Seq<char>>(()),
        ),
        branches(s, i_type(0x105, 0, 0, 0, 0x73), 4, true),
        execute(s, i_type(0, 0, 0, 0, 0x73)) == (
            s,
            Err::<(), Seq<char>>("ECALL encountered"@),
        ),
        execute(s, i_type(1, 0, 0, 0, 0x73)) == (
            s,
            Err::<(), Seq<char>>("EBREAK encountered"@),
        ),
{
    encoding::lemma_i(0x302, 0, 0, 0, 0x73);
    encoding::lemma_i(0x105, 0, 0, 0, 0x73);
    encoding::lemma_i(0, 0, 0, 0, 0x73);
    encoding::lemma_i(1, 0, 0, 0, 0x73);
}

/// A step executes the word that main memory holds at the program counter, notes it, and counts
/// it in the cycle register where it succeeds.
#[verifier::spinoff_prover]
pub proof fn law_steps(s: CpuState)
    requires
        is_whole(s),
        s.bus.dram.len() == 0x2000_0000,
        0x8000_0000 <= s.pc,
        s.pc + 4 <= 0xa000_0000,
    ensures
        ({
            let word = bytes::number_at(s.bus.dram, s.pc - 0x8000_0000, 4) as u32;
            let noted = CpuState { last_pc: s.pc, last_inst: word, ..s };
            let (u, r) = execute(noted, word);
            let (t, q) = step(s);
            &&& q == r
            &&& r is Err ==> t == u
            &&& r is Ok ==> is_cut(t.csrs[0xc00], u.csrs[0xc00] + 1) && t == (CpuState {
                csrs: u.csrs.update(0xc00, t.csrs[0xc00]),
                ..u
            })
        }),
{
    let word = bytes::number_at(s.bus.dram, s.pc - 0x8000_0000, 4) as u32;
    let noted = CpuState { last_pc: s.pc, last_inst: word, ..s };
    crate::vm::machine::law_register_zero(noted, word);
    assert(fetch(s) == (s, Ok::<u32, Seq<char>>(word)));
}

/// At the last half-word of main memory a step executes a short instruction; a wide one is
/// refused there.
#[verifier::spinoff_prover]
pub proof fn law_steps_at_the_end_of_memory(s: CpuState)
    requires
        is_whole(s),
        s.bus.dram.len() == 0x2000_0000,
        s.pc == 0x9fff_fffe,
    ensures
        ({
            let half = bytes::number_at(s.bus.dram, 0x1fff_fffe, 2) as u32;
            let noted = CpuState { last_pc: s.pc, last_inst: half, ..s };
            &&& half % 4 == 3 ==> step(s).1 is Err && step(s).0 == s
            &&& half % 4 != 3 ==> step(s).1 == execute(noted, half).1 && (step(s).1 is Err
                ==> step(s).0 == execute(noted, half).0)
        }),
{
    let half = bytes::number_at(s.bus.dram, 0x1fff_fffe, 2) as u32;
    meaning::lemma_low_bits(half);
}

/// Outside main memory and the devices there is nothing to execute.
pub proof fn law_nothing_to_execute(s: CpuState)
    requires
        s.pc > 0x2000_0000,
        s.pc < 0x8000_0000,
    ensures
        step(s).1 is Err,
        step(s).0 == s,
{
}

} // verus!
