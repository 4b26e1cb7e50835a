//! What the short instructions mean: the wide ones that they stand for.

use vstd::prelude::*;

verus! {

use crate::meaning::{self, is_cut};
use crate::vm::encoding::{
    self, b_type, c_addi16sp, c_addi4spn, c_branch, c_doubleword, c_j, c_ldsp, c_lwsp, c_sdsp,
    c_swsp, c_word, ci_type, cr_type, i_type, j_type, r_type, s_type, u_type,
};
use crate::vm::isa::{execute, CpuState};
use crate::vm::meaning::{is_whole, value};

/// That a short instruction does what a wide one does, and then goes on behind itself; where
/// the wide one fails, so does the short one.
#[verifier::opaque]
pub open spec fn stands_for(s: CpuState, short: u16, wide: u32) -> bool {
    let (t, r) = execute(s, short as u32);
    let (u, q) = execute(s, wide);
    &&& r is Ok <==> q is Ok
    &&& r is Ok ==> is_cut(t.pc, s.pc + 2) && t == (CpuState { pc: t.pc, ..u })
    &&& r is Err ==> t == u
}

/// Short sums of two registers, and copies.
#[verifier::spinoff_prover]
pub proof fn law_short_sums(s: CpuState, rd: u16, rs2: u16)
    requires
        is_whole(s),
        rd < 32,
        0 < rs2 < 32,
    ensures
        ({
            let d = rd as u32;
            &&& stands_for(s, cr_type(8, rd, rs2), r_type(0, rs2 as u32, 0, 0, d, 0x33))
            &&& stands_for(s, cr_type(9, rd, rs2), r_type(0, rs2 as u32, d, 0, d, 0x33))
        }),
{
    reveal(stands_for);
    let d = rd as u32;
    encoding::lemma_moves(rd, rs2);
    encoding::lemma_sums(rd, rs2);
    encoding::lemma_r(0, rs2 as u32, 0, 0, d, 0x33);
    encoding::lemma_r(0, rs2 as u32, d, 0, d, 0x33);
}

/// Short sums of a register and a constant, and constants alone.
#[verifier::spinoff_prover]
pub proof fn law_short_constants(s: CpuState, rd: u16, imm: i16)
    requires
        is_whole(s),
        rd < 32,
        -0x20 <= imm < 0x20,
    ensures
        ({
            let d = rd as u32;
            let c = imm as i32;
            let upper = (if imm < 0 {
                imm + 0x10_0000
            } else {
                imm as int
            }) as u32;
            &&& stands_for(s, ci_type(0, imm, rd, 1), i_type(c, d, 0, d, 0x13))
            &&& stands_for(s, ci_type(2, imm, rd, 1), i_type(c, 0, 0, d, 0x13))
            &&& rd != 2 ==> stands_for(s, ci_type(3, imm, rd, 1), u_type(upper, d, 0x37))
        }),
{
    reveal(stands_for);
    let d = rd as u32;
    let c = imm as i32;
    let upper = (if imm < 0 {
        imm + 0x10_0000
    } else {
        imm as int
    }) as u32;
    encoding::lemma_ci(0, imm, rd, 1);
    encoding::lemma_ci(2, imm, rd, 1);
    encoding::lemma_ci(3, imm, rd, 1);
    encoding::lemma_i(c, d, 0, d, 0x13);
    encoding::lemma_i(c, 0, 0, d, 0x13);
    encoding::lemma_u(upper, d, 0x37);
}

/// Short sums of words; there is none to register 0.
#[verifier::spinoff_prover]
pub proof fn law_short_word_sums(s: CpuState, rd: u16, imm: i16)
    requires
        is_whole(s),
        rd < 32,
        -0x20 <= imm < 0x20,
    ensures
        ({
            let d = rd as u32;
            let inst = ci_type(1, imm, rd, 1);
            &&& rd > 0 ==> stands_for(s, inst, i_type(imm as i32, d, 0, d, 0x1b))
            &&& rd == 0 ==> execute(s, inst as u32).1 is Err && execute(s, inst as u32).0 == s
        }),
{
    reveal(stands_for);
    let d = rd as u32;
    let c = imm as i32;
    encoding::lemma_ci(1, imm, rd, 1);
    encoding::lemma_i(c, d, 0, d, 0x1b);
    let a = value(s, d);
    let k = encoding::constant(c);
    lemma_word_sum(a, k);
}

/// The low word of a sum is the sum of the low words.
proof fn lemma_word_sum(a: u64, k: u64)
    ensures
        (a.wrapping_add(k) as i32) == (a as i32).wrapping_add(k as i32),
{
    let sum = a.wrapping_add(k);
    let p = (sum as i32) as int;
    let q = (a as i32).wrapping_add(k as i32) as int;
    let x = (a as i32) as int;
    let y = (k as i32) as int;
    assert((x - a) % 0x1_0000_0000 == 0) by {
        meaning::lemma_casts(a, 0);
    }
    assert((y - k) % 0x1_0000_0000 == 0) by {
        meaning::lemma_casts(k, 0);
    }
    assert((p - sum) % 0x1_0000_0000 == 0) by {
        meaning::lemma_casts(sum, 0);
    }
    assert((q - (x + y)) % 0x1_0000_0000 == 0);
    assert((sum - (a + k)) % 0x1_0000_0000 == 0);
    lemma_same_word(p, q, sum as int, a + k, x, y, a as int, k as int);
}

proof fn lemma_same_word(p: int, q: int, sum: int, total: int, x: int, y: int, a: int, k: int)
    requires
        -0x8000_0000 <= p < 0x8000_0000,
        -0x8000_0000 <= q < 0x8000_0000,
        (p - sum) % 0x1_0000_0000 == 0,
        (sum - total) % 0x1_0000_0000 == 0,
        (q - (x + y)) % 0x1_0000_0000 == 0,
        (x - a) % 0x1_0000_0000 == 0,
        (y - k) % 0x1_0000_0000 == 0,
        total == a + k,
    ensures
        p == q,
{
}

/// Short steps of the stack pointer, and shifts.
#[verifier::spinoff_prover]
pub proof fn law_short_stack_steps(s: CpuState, rd: u16, imm: u16, step: i16, n: i16, r: u16)
    requires
        is_whole(s),
        rd < 8,
        0 < imm < 0x400,
        imm % 4 == 0,
        -0x200 <= step < 0x200,
        step & 0xf == 0,
        0 < n < 0x40,
        0 < r < 32,
    ensures
        stands_for(s, c_addi4spn(imm, rd), i_type(imm as i32, 2, 0, (8 + rd) as u32, 0x13)),
        stands_for(s, c_addi16sp(step), i_type(step as i32, 2, 0, 2, 0x13)),
        stands_for(s, ci_type(0, n, r, 2), i_type(n as i32, r as u32, 1, r as u32, 0x13)),
{
    reveal(stands_for);
    encoding::lemma_addi4spn(imm, rd);
    encoding::lemma_addi16sp(step);
    encoding::lemma_ci(0, n, r, 2);
    encoding::lemma_i(imm as i32, 2, 0, (8 + rd) as u32, 0x13);
    encoding::lemma_i(step as i32, 2, 0, 2, 0x13);
    encoding::lemma_i(n as i32, r as u32, 1, r as u32, 0x13);
    meaning::lemma_casts(n as u64, 0);
}

proof fn lemma_short_load_word(s: CpuState, r: u16, base: u16, at: u16)
    requires
        is_whole(s),
        r < 8,
        base < 8,
        at < 0x80,
        at % 4 == 0,
    ensures
        stands_for(s, c_word(2, at, base, r), i_type(at as i32, (8 + base) as u32, 2, (8 + r) as u32, 0x03)),
{
    reveal(stands_for);
    encoding::lemma_word(2, at, base, r);
    encoding::lemma_i(at as i32, (8 + base) as u32, 2, (8 + r) as u32, 0x03);
}

proof fn lemma_short_load_doubleword(s: CpuState, r: u16, base: u16, at: u16)
    requires
        is_whole(s),
        r < 8,
        base < 8,
        at < 0x100,
        at % 8 == 0,
    ensures
        stands_for(s, c_doubleword(3, at, base, r), i_type(at as i32, (8 + base) as u32, 3, (8 + r) as u32, 0x03)),
{
    reveal(stands_for);
    encoding::lemma_doubleword(3, at, base, r);
    encoding::lemma_i(at as i32, (8 + base) as u32, 3, (8 + r) as u32, 0x03);
}

proof fn lemma_short_store_word(s: CpuState, r: u16, base: u16, at: u16)
    requires
        is_whole(s),
        r < 8,
        base < 8,
        at < 0x80,
        at % 4 == 0,
    ensures
        stands_for(s, c_word(6, at, base, r), s_type(at as i32, (8 + r) as u32, (8 + base) as u32, 2, 0x23)),
{
    reveal(stands_for);
    encoding::lemma_word(6, at, base, r);
    encoding::lemma_s(at as i32, (8 + r) as u32, (8 + base) as u32, 2, 0x23);
}

proof fn lemma_short_store_doubleword(s: CpuState, r: u16, base: u16, at: u16)
    requires
        is_whole(s),
        r < 8,
        base < 8,
        at < 0x100,
        at % 8 == 0,
    ensures
        stands_for(s, c_doubleword(7, at, base, r), s_type(at as i32, (8 + r) as u32, (8 + base) as u32, 3, 0x23)),
{
    reveal(stands_for);
    encoding::lemma_doubleword(7, at, base, r);
    encoding::lemma_s(at as i32, (8 + r) as u32, (8 + base) as u32, 3, 0x23);
}

/// Short loads and stores.
#[verifier::spinoff_prover]
pub proof fn law_short_accesses(s: CpuState, r: u16, base: u16, word: u16, double: u16)
    requires
        is_whole(s),
        r < 8,
        base < 8,
        word < 0x80,
        word % 4 == 0,
        double < 0x100,
        double % 8 == 0,
    ensures
        ({
            let x = (8 + r) as u32;
            let b = (8 + base) as u32;
            &&& stands_for(s, c_word(2, word, base, r), i_type(word as i32, b, 2, x, 0x03))
            &&& stands_for(s, c_doubleword(3, double, base, r), i_type(double as i32, b, 3, x, 0x03))
            &&& stands_for(s, c_word(6, word, base, r), s_type(word as i32, x, b, 2, 0x23))
            &&& stands_for(s, c_doubleword(7, double, base, r), s_type(double as i32, x, b, 3, 0x23))
        }),
{
    lemma_short_load_word(s, r, base, word);
    lemma_short_load_doubleword(s, r, base, double);
    lemma_short_store_word(s, r, base, word);
    lemma_short_store_doubleword(s, r, base, double);
}

proof fn lemma_lwsp(s: CpuState, r: u16, at: u16)
    requires
        is_whole(s),
        0 < r < 32,
        at < 0x100,
        at % 4 == 0,
    ensures
        stands_for(s, c_lwsp(at, r), i_type(at as i32, 2, 2, r as u32, 0x03)),
{
    reveal(stands_for);
    encoding::lemma_lwsp(at, r);
    encoding::lemma_i(at as i32, 2, 2, r as u32, 0x03);
}

proof fn lemma_ldsp(s: CpuState, r: u16, at: u16)
    requires
        is_whole(s),
        0 < r < 32,
        at < 0x200,
        at % 8 == 0,
    ensures
        stands_for(s, c_ldsp(at, r), i_type(at as i32, 2, 3, r as u32, 0x03)),
{
    reveal(stands_for);
    encoding::lemma_ldsp(at, r);
    encoding::lemma_i(at as i32, 2, 3, r as u32, 0x03);
}

proof fn lemma_swsp(s: CpuState, r: u16, at: u16)
    requires
        is_whole(s),
        r < 32,
        at < 0x100,
        at % 4 == 0,
    ensures
        stands_for(s, c_swsp(at, r), s_type(at as i32, r as u32, 2, 2, 0x23)),
{
    reveal(stands_for);
    encoding::lemma_swsp(at, r);
    encoding::lemma_s(at as i32, r as u32, 2, 2, 0x23);
}

proof fn lemma_sdsp(s: CpuState, r: u16, at: u16)
    requires
        is_whole(s),
        r < 32,
        at < 0x200,
        at % 8 == 0,
    ensures
        stands_for(s, c_sdsp(at, r), s_type(at as i32, r as u32, 2, 3, 0x23)),
{
    reveal(stands_for);
    encoding::lemma_sdsp(at, r);
    encoding::lemma_s(at as i32, r as u32, 2, 3, 0x23);
}

/// Short loads from the stack and stores to it.
#[verifier::spinoff_prover]
pub proof fn law_short_stack_accesses(s: CpuState, rd: u16, rs2: u16, word: u16, double: u16)
    requires
        is_whole(s),
        0 < rd < 32,
        rs2 < 32,
        word < 0x100,
        word % 4 == 0,
        double < 0x200,
        double % 8 == 0,
    ensures
        stands_for(s, c_lwsp(word, rd), i_type(word as i32, 2, 2, rd as u32, 0x03)),
        stands_for(s, c_ldsp(double, rd), i_type(double as i32, 2, 3, rd as u32, 0x03)),
        stands_for(s, c_swsp(word, rs2), s_type(word as i32, rs2 as u32, 2, 2, 0x23)),
        stands_for(s, c_sdsp(double, rs2), s_type(double as i32, rs2 as u32, 2, 3, 0x23)),
{
    lemma_lwsp(s, rd, word);
    lemma_ldsp(s, rd, double);
    lemma_swsp(s, rs2, word);
    lemma_sdsp(s, rs2, double);
}

/// Short jumps and branches go where the wide ones go; a branch that is not taken goes on
/// behind itself.
#[verifier::spinoff_prover]
pub proof fn law_short_jumps(s: CpuState, rs1: u16, jump: i16, distance: i16)
    requires
        is_whole(s),
        rs1 < 8,
        -0x800 <= jump < 0x800,
        jump & 1 == 0,
        -0x100 <= distance < 0x100,
        distance & 1 == 0,
    ensures
        ({
            let x = (8 + rs1) as u32;
            let zero = value(s, x) == 0;
            let beqz = c_branch(6, distance, rs1);
            let bnez = c_branch(7, distance, rs1);
            let beq = b_type(distance as i32, 0, x, 0, 0x63);
            let bne = b_type(distance as i32, 0, x, 1, 0x63);
            &&& execute(s, c_j(jump) as u32) == execute(s, j_type(jump as i32, 0, 0x6f))
            &&& zero ==> execute(s, beqz as u32) == execute(s, beq)
            &&& !zero ==> stands_for(s, beqz, beq)
            &&& !zero ==> execute(s, bnez as u32) == execute(s, bne)
            &&& zero ==> stands_for(s, bnez, bne)
        }),
{
    reveal(stands_for);
    let x = (8 + rs1) as u32;
    encoding::lemma_short_jump(jump);
    encoding::lemma_short_branch(6, distance, rs1);
    encoding::lemma_short_branch(7, distance, rs1);
    encoding::lemma_j(jump as i32, 0, 0x6f);
    encoding::lemma_b(distance as i32, 0, x, 0, 0x63);
    encoding::lemma_b(distance as i32, 0, x, 1, 0x63);
}

/// Short jumps to where a register points, and the short breakpoint.
#[verifier::spinoff_prover]
pub proof fn law_short_register_jumps(s: CpuState, rs1: u16)
    requires
        is_whole(s),
        rs1 < 32,
    ensures
        ({
            let (t, r) = execute(s, cr_type(8, rs1, 0) as u32);
            let (u, q) = execute(s, cr_type(9, rs1, 0) as u32);
            &&& rs1 > 0 ==> r is Ok && t == (CpuState { pc: s.regs[rs1 as int], ..s })
            &&& rs1 > 0 ==> q is Ok && is_cut(u.regs[1], s.pc + 2) && u == (CpuState {
                pc: s.regs[rs1 as int],
                regs: s.regs.update(1, u.regs[1]),
                ..s
            })
            &&& rs1 == 0 ==> r is Err && t == s && q is Err && u == s
        }),
{
    encoding::lemma_moves(rs1, 0);
    encoding::lemma_sums(rs1, 0);
}

} // verus!
