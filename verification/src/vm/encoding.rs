//! How instructions are written as words.

use vstd::prelude::*;

verus! {

use crate::vm::isa;

/// An instruction on two registers.
pub open spec fn r_type(funct7: u32, rs2: u32, rs1: u32, funct3: u32, rd: u32, opcode: u32) -> u32 {
    (funct7 << 25) | (rs2 << 20) | (rs1 << 15) | (funct3 << 12) | (rd << 7) | opcode
}

/// An instruction on a register and a constant of twelve bits.
pub open spec fn i_type(imm: i32, rs1: u32, funct3: u32, rd: u32, opcode: u32) -> u32 {
    (((imm as u32) & 0xfff) << 20) | (rs1 << 15) | (funct3 << 12) | (rd << 7) | opcode
}

/// A store.
pub open spec fn s_type(imm: i32, rs2: u32, rs1: u32, funct3: u32, opcode: u32) -> u32 {
    ((((imm as u32) >> 5) & 0x7f) << 25) | (rs2 << 20) | (rs1 << 15) | (funct3 << 12) | (((imm
        as u32) & 0x1f) << 7) | opcode
}

/// A branch: the distance is even.
pub open spec fn b_type(imm: i32, rs2: u32, rs1: u32, funct3: u32, opcode: u32) -> u32 {
    ((((imm as u32) >> 12) & 1) << 31) | ((((imm as u32) >> 5) & 0x3f) << 25) | (rs2 << 20) | (rs1
        << 15) | (funct3 << 12) | ((((imm as u32) >> 1) & 0xf) << 8) | ((((imm as u32) >> 11) & 1)
        << 7) | opcode
}

/// An instruction on a constant of twenty bits.
pub open spec fn u_type(imm: u32, rd: u32, opcode: u32) -> u32 {
    (imm << 12) | (rd << 7) | opcode
}

/// A jump: the distance is even.
pub open spec fn j_type(imm: i32, rd: u32, opcode: u32) -> u32 {
    ((((imm as u32) >> 20) & 1) << 31) | ((((imm as u32) >> 1) & 0x3ff) << 21) | ((((imm as u32)
        >> 11) & 1) << 20) | ((((imm as u32) >> 12) & 0xff) << 12) | (rd << 7) | opcode
}

// Short instructions. Registers 8 to 15 are numbered from 0.

/// A short instruction with a constant of six bits.
pub open spec fn ci_type(funct3: u16, imm: i16, rd: u16, quadrant: u16) -> u16 {
    (funct3 << 13) | ((((imm as u16) >> 5) & 1) << 12) | (rd << 7) | (((imm as u16) & 0x1f) << 2)
        | quadrant
}

/// A short instruction on two registers.
pub open spec fn cr_type(funct4: u16, rd: u16, rs2: u16) -> u16 {
    (funct4 << 12) | (rd << 7) | (rs2 << 2) | 2
}

/// The stack pointer and a constant, to a register.
pub open spec fn c_addi4spn(imm: u16, rd: u16) -> u16 {
    (((imm >> 4) & 0x3) << 11) | (((imm >> 6) & 0xf) << 7) | (((imm >> 2) & 1) << 6) | (((imm >> 3)
        & 1) << 5) | (rd << 2)
}

/// A constant to the stack pointer.
pub open spec fn c_addi16sp(imm: i16) -> u16 {
    (3u16 << 13) | ((((imm as u16) >> 9) & 1) << 12) | (2u16 << 7) | ((((imm as u16) >> 4) & 1)
        << 6) | ((((imm as u16) >> 6) & 1) << 5) | ((((imm as u16) >> 7) & 0x3) << 3) | ((((imm
        as u16) >> 5) & 1) << 2) | 1
}

/// An access to a word.
pub open spec fn c_word(funct3: u16, imm: u16, base: u16, r: u16) -> u16 {
    (funct3 << 13) | (((imm >> 3) & 0x7) << 10) | (base << 7) | (((imm >> 2) & 1) << 6) | (((imm
        >> 6) & 1) << 5) | (r << 2)
}

/// An access to a doubleword.
pub open spec fn c_doubleword(funct3: u16, imm: u16, base: u16, r: u16) -> u16 {
    (funct3 << 13) | (((imm >> 3) & 0x7) << 10) | (base << 7) | (((imm >> 6) & 0x3) << 5) | (r << 2)
}

/// A word from the stack.
pub open spec fn c_lwsp(imm: u16, rd: u16) -> u16 {
    (2u16 << 13) | (((imm >> 5) & 1) << 12) | (rd << 7) | (((imm >> 2) & 0x7) << 4) | (((imm >> 6)
        & 0x3) << 2) | 2
}

/// A doubleword from the stack.
pub open spec fn c_ldsp(imm: u16, rd: u16) -> u16 {
    (3u16 << 13) | (((imm >> 5) & 1) << 12) | (rd << 7) | (((imm >> 3) & 0x3) << 5) | (((imm >> 6)
        & 0x7) << 2) | 2
}

/// A word to the stack.
pub open spec fn c_swsp(imm: u16, rs2: u16) -> u16 {
    (6u16 << 13) | (((imm >> 2) & 0xf) << 9) | (((imm >> 6) & 0x3) << 7) | (rs2 << 2) | 2
}

/// A doubleword to the stack.
pub open spec fn c_sdsp(imm: u16, rs2: u16) -> u16 {
    (7u16 << 13) | (((imm >> 3) & 0x7) << 10) | (((imm >> 6) & 0x7) << 7) | (rs2 << 2) | 2
}

/// A jump.
pub open spec fn c_j(imm: i16) -> u16 {
    (5u16 << 13) | ((((imm as u16) >> 11) & 1) << 12) | ((((imm as u16) >> 4) & 1) << 11) | ((((imm
        as u16) >> 8) & 0x3) << 9) | ((((imm as u16) >> 10) & 1) << 8) | ((((imm as u16) >> 6) & 1)
        << 7) | ((((imm as u16) >> 7) & 1) << 6) | ((((imm as u16) >> 1) & 0x7) << 3) | ((((imm
        as u16) >> 5) & 1) << 2) | 1
}

/// A branch on whether a register is zero.
pub open spec fn c_branch(funct3: u16, imm: i16, rs1: u16) -> u16 {
    (funct3 << 13) | ((((imm as u16) >> 8) & 1) << 12) | ((((imm as u16) >> 3) & 0x3) << 10) | (rs1
        << 7) | ((((imm as u16) >> 6) & 0x3) << 5) | ((((imm as u16) >> 1) & 0x3) << 3) | ((((imm
        as u16) >> 5) & 1) << 2) | 1
}

/// Where the fields of wide instructions are found again.
proof fn lemma_wide(
    funct7: u32,
    rs2: u32,
    rs1: u32,
    funct3: u32,
    rd: u32,
    opcode: u32,
    imm: i32,
    upper: u32,
)
    by (bit_vector)
    requires
        funct7 < 128,
        rs2 < 32,
        rs1 < 32,
        funct3 < 8,
        rd < 32,
        opcode < 128,
        opcode % 4 == 3,
        upper < 0x10_0000,
    ensures
        r_type(funct7, rs2, rs1, funct3, rd, opcode) & 0x7f == opcode,
        r_type(funct7, rs2, rs1, funct3, rd, opcode) & 0x3 == 0x3,
        (r_type(funct7, rs2, rs1, funct3, rd, opcode) >> 7) & 0x1f == rd,
        (r_type(funct7, rs2, rs1, funct3, rd, opcode) >> 12) & 0x7 == funct3,
        (r_type(funct7, rs2, rs1, funct3, rd, opcode) >> 15) & 0x1f == rs1,
        (r_type(funct7, rs2, rs1, funct3, rd, opcode) >> 20) & 0x1f == rs2,
        (r_type(funct7, rs2, rs1, funct3, rd, opcode) >> 25) & 0x7f == funct7,
        i_type(imm, rs1, funct3, rd, opcode) & 0x7f == opcode,
        i_type(imm, rs1, funct3, rd, opcode) & 0x3 == 0x3,
        (i_type(imm, rs1, funct3, rd, opcode) >> 7) & 0x1f == rd,
        (i_type(imm, rs1, funct3, rd, opcode) >> 12) & 0x7 == funct3,
        (i_type(imm, rs1, funct3, rd, opcode) >> 15) & 0x1f == rs1,
        i_type(imm, rs1, funct3, rd, opcode) >> 20 == (imm as u32) & 0xfff,
        (i_type(imm, rs1, funct3, rd, opcode) >> 20) & 0x1f == (imm as u32) & 0x1f,
        (i_type(imm, rs1, funct3, rd, opcode) >> 30) & 1 == ((imm as u32) >> 10) & 1,
        s_type(imm, rs2, rs1, funct3, opcode) & 0x7f == opcode,
        s_type(imm, rs2, rs1, funct3, opcode) & 0x3 == 0x3,
        (s_type(imm, rs2, rs1, funct3, opcode) >> 12) & 0x7 == funct3,
        (s_type(imm, rs2, rs1, funct3, opcode) >> 15) & 0x1f == rs1,
        (s_type(imm, rs2, rs1, funct3, opcode) >> 20) & 0x1f == rs2,
        ((s_type(imm, rs2, rs1, funct3, opcode) >> 25) & 0x7f) << 5 | (s_type(
            imm,
            rs2,
            rs1,
            funct3,
            opcode,
        ) >> 7) & 0x1f == (imm as u32) & 0xfff,
        b_type(imm, rs2, rs1, funct3, opcode) & 0x7f == opcode,
        b_type(imm, rs2, rs1, funct3, opcode) & 0x3 == 0x3,
        (b_type(imm, rs2, rs1, funct3, opcode) >> 12) & 0x7 == funct3,
        (b_type(imm, rs2, rs1, funct3, opcode) >> 15) & 0x1f == rs1,
        (b_type(imm, rs2, rs1, funct3, opcode) >> 20) & 0x1f == rs2,
        ({
            let inst = b_type(imm, rs2, rs1, funct3, opcode);
            ((inst >> 31) & 0x1) << 12 | ((inst >> 7) & 0x1) << 11 | ((inst >> 25) & 0x3f) << 5 | ((
            inst >> 8) & 0xf) << 1
        }) == (imm as u32) & 0x1ffe,
        u_type(upper, rd, opcode) & 0x7f == opcode,
        u_type(upper, rd, opcode) & 0x3 == 0x3,
        (u_type(upper, rd, opcode) >> 7) & 0x1f == rd,
        u_type(upper, rd, opcode) & 0xffff_f000 == upper * 0x1000,
        j_type(imm, rd, opcode) & 0x7f == opcode,
        j_type(imm, rd, opcode) & 0x3 == 0x3,
        (j_type(imm, rd, opcode) >> 7) & 0x1f == rd,
        ({
            let inst = j_type(imm, rd, opcode);
            ((inst >> 31) & 0x1) << 20 | ((inst >> 12) & 0xff) << 12 | ((inst >> 20) & 0x1) << 11 | ((
            inst >> 21) & 0x3ff) << 1
        }) == (imm as u32) & 0x1f_fffe,
        -0x800 <= imm < 0x800 ==> (imm as u32) & 0xfff == (if imm >= 0 {
            imm as int
        } else {
            imm + 0x1000
        }),
        -0x1000 <= imm < 0x1000 && imm & 1 == 0 ==> (imm as u32) & 0x1ffe == (if imm >= 0 {
            imm as int
        } else {
            imm + 0x2000
        }),
        -0x10_0000 <= imm < 0x10_0000 && imm & 1 == 0 ==> (imm as u32) & 0x1f_fffe == (if imm
            >= 0 {
            imm as int
        } else {
            imm + 0x20_0000
        }),
        0 <= imm < 64 ==> ((imm as u32) >> 10) & 1 == 0,
        0x400 <= imm < 0x440 ==> ((imm as u32) >> 10) & 1 == 1,
        0 <= imm < 32 ==> (imm as u32) & 0x1f == imm,
        0x400 <= imm < 0x420 ==> (imm as u32) & 0x1f == imm - 0x400,
{
}

/// The constant of an instruction as a machine number.
pub open spec fn constant(imm: i32) -> u64 {
    if imm < 0 {
        (imm + 0x1_0000_0000_0000_0000) as u64
    } else {
        imm as u64
    }
}

/// The fields of an instruction on two registers.
pub proof fn lemma_r(funct7: u32, rs2: u32, rs1: u32, funct3: u32, rd: u32, opcode: u32)
    requires
        funct7 < 128,
        rs2 < 32,
        rs1 < 32,
        funct3 < 8,
        rd < 32,
        opcode < 128,
        opcode % 4 == 3,
    ensures
        r_type(funct7, rs2, rs1, funct3, rd, opcode) & 0x7f == opcode,
        r_type(funct7, rs2, rs1, funct3, rd, opcode) & 0x3 == 0x3,
        isa::rd(r_type(funct7, rs2, rs1, funct3, rd, opcode)) == rd,
        isa::rs1(r_type(funct7, rs2, rs1, funct3, rd, opcode)) == rs1,
        isa::rs2(r_type(funct7, rs2, rs1, funct3, rd, opcode)) == rs2,
        isa::funct3(r_type(funct7, rs2, rs1, funct3, rd, opcode)) == funct3,
        isa::funct7(r_type(funct7, rs2, rs1, funct3, rd, opcode)) == funct7,
{
    lemma_wide(funct7, rs2, rs1, funct3, rd, opcode, 0, 0);
}

/// The fields of an instruction on a register and a constant.
pub proof fn lemma_i(imm: i32, rs1: u32, funct3: u32, rd: u32, opcode: u32)
    requires
        rs1 < 32,
        funct3 < 8,
        rd < 32,
        opcode < 128,
        opcode % 4 == 3,
        -0x800 <= imm < 0x800,
    ensures
        i_type(imm, rs1, funct3, rd, opcode) & 0x7f == opcode,
        i_type(imm, rs1, funct3, rd, opcode) & 0x3 == 0x3,
        isa::rd(i_type(imm, rs1, funct3, rd, opcode)) == rd,
        isa::rs1(i_type(imm, rs1, funct3, rd, opcode)) == rs1,
        isa::funct3(i_type(imm, rs1, funct3, rd, opcode)) == funct3,
        isa::imm_i(i_type(imm, rs1, funct3, rd, opcode)) == constant(imm),
        isa::csr_number(i_type(imm, rs1, funct3, rd, opcode)) == (if imm < 0 { imm + 0x1000 } else { imm as int }),
        0 <= imm < 64 ==> (i_type(imm, rs1, funct3, rd, opcode) >> 30) & 1 == 0,
        0x400 <= imm < 0x440 ==> (i_type(imm, rs1, funct3, rd, opcode) >> 30) & 1 == 1,
        0 <= imm < 32 ==> (i_type(imm, rs1, funct3, rd, opcode) >> 20) & 0x1f == imm,
        0x400 <= imm < 0x420 ==> (i_type(imm, rs1, funct3, rd, opcode) >> 20) & 0x1f == imm - 0x400,
{
    lemma_wide(0, 0, rs1, funct3, rd, opcode, imm, 0);
}

/// The fields of a store.
pub proof fn lemma_s(imm: i32, rs2: u32, rs1: u32, funct3: u32, opcode: u32)
    requires
        rs2 < 32,
        rs1 < 32,
        funct3 < 8,
        opcode < 128,
        opcode % 4 == 3,
        -0x800 <= imm < 0x800,
    ensures
        s_type(imm, rs2, rs1, funct3, opcode) & 0x7f == opcode,
        s_type(imm, rs2, rs1, funct3, opcode) & 0x3 == 0x3,
        isa::rs1(s_type(imm, rs2, rs1, funct3, opcode)) == rs1,
        isa::rs2(s_type(imm, rs2, rs1, funct3, opcode)) == rs2,
        isa::funct3(s_type(imm, rs2, rs1, funct3, opcode)) == funct3,
        isa::imm_s(s_type(imm, rs2, rs1, funct3, opcode)) == constant(imm),
{
    lemma_wide(0, rs2, rs1, funct3, 0, opcode, imm, 0);
}

/// The fields of a branch.
pub proof fn lemma_b(imm: i32, rs2: u32, rs1: u32, funct3: u32, opcode: u32)
    requires
        rs2 < 32,
        rs1 < 32,
        funct3 < 8,
        opcode < 128,
        opcode % 4 == 3,
        -0x1000 <= imm < 0x1000,
        imm & 1 == 0,
    ensures
        b_type(imm, rs2, rs1, funct3, opcode) & 0x7f == opcode,
        b_type(imm, rs2, rs1, funct3, opcode) & 0x3 == 0x3,
        isa::rs1(b_type(imm, rs2, rs1, funct3, opcode)) == rs1,
        isa::rs2(b_type(imm, rs2, rs1, funct3, opcode)) == rs2,
        isa::funct3(b_type(imm, rs2, rs1, funct3, opcode)) == funct3,
        isa::imm_b(b_type(imm, rs2, rs1, funct3, opcode)) == constant(imm),
{
    lemma_wide(0, rs2, rs1, funct3, 0, opcode, imm, 0);
}

/// The fields of an instruction on a constant of twenty bits.
pub proof fn lemma_u(upper: u32, rd: u32, opcode: u32)
    requires
        rd < 32,
        opcode < 128,
        opcode % 4 == 3,
        upper < 0x10_0000,
    ensures
        u_type(upper, rd, opcode) & 0x7f == opcode,
        u_type(upper, rd, opcode) & 0x3 == 0x3,
        isa::rd(u_type(upper, rd, opcode)) == rd,
        isa::imm_u(u_type(upper, rd, opcode)) == (if upper < 0x8_0000 { upper * 0x1000 } else { upper * 0x1000 + 0xffff_ffff_0000_0000 }),
{
    lemma_wide(0, 0, 0, 0, rd, opcode, 0, upper);
}

/// The fields of a jump.
pub proof fn lemma_j(imm: i32, rd: u32, opcode: u32)
    requires
        rd < 32,
        opcode < 128,
        opcode % 4 == 3,
        -0x10_0000 <= imm < 0x10_0000,
        imm & 1 == 0,
    ensures
        j_type(imm, rd, opcode) & 0x7f == opcode,
        j_type(imm, rd, opcode) & 0x3 == 0x3,
        isa::rd(j_type(imm, rd, opcode)) == rd,
        isa::imm_j(j_type(imm, rd, opcode)) == constant(imm),
{
    lemma_wide(0, 0, 0, 0, rd, opcode, imm, 0);
}

/// Where the fields of short instructions are found again. Here `n` is a distance or a constant
/// with a sign, `u` one without, `r` and `q` are any registers, and `a` and `b` are short ones.
proof fn lemma_short(funct3: u16, quadrant: u16, n: i16, u: u16, r: u16, q: u16, a: u16, b: u16)
    by (bit_vector)
    requires
        funct3 < 8,
        quadrant < 3,
        r < 32,
        q < 32,
        a < 8,
        b < 8,
    ensures
        ci_type(funct3, n, r, quadrant) & 0x3 == quadrant,
        (ci_type(funct3, n, r, quadrant) >> 13) & 0x7 == funct3,
        (ci_type(funct3, n, r, quadrant) >> 7) & 0x1f == r,
        ((ci_type(funct3, n, r, quadrant) >> 12) & 1) << 5 | (ci_type(funct3, n, r, quadrant) >> 2)
            & 0x1f == (n as u16) & 0x3f,
        (ci_type(funct3, n, r, quadrant) >> 2) & 0x1f | ((ci_type(funct3, n, r, quadrant) >> 12)
            & 1) << 5 == (n as u16) & 0x3f,
        cr_type(8, r, q) & 0x3 == 2,
        cr_type(9, r, q) & 0x3 == 2,
        (cr_type(8, r, q) >> 13) & 0x7 == 4,
        (cr_type(9, r, q) >> 13) & 0x7 == 4,
        (cr_type(8, r, q) >> 12) & 1 == 0,
        (cr_type(9, r, q) >> 12) & 1 == 1,
        (cr_type(8, r, q) >> 7) & 0x1f == r,
        (cr_type(9, r, q) >> 7) & 0x1f == r,
        (cr_type(8, r, q) >> 2) & 0x1f == q,
        (cr_type(9, r, q) >> 2) & 0x1f == q,
        c_addi4spn(u, a) & 0x3 == 0,
        (c_addi4spn(u, a) >> 13) & 0x7 == 0,
        (c_addi4spn(u, a) >> 2) & 0x7 == a,
        ({
            let inst = c_addi4spn(u, a);
            ((inst >> 6) & 1) << 2 | ((inst >> 5) & 1) << 3 | ((inst >> 11) & 0x3) << 4 | ((inst
                >> 7) & 0xf) << 6
        }) == u & 0x3fc,
        c_addi16sp(n) & 0x3 == 1,
        (c_addi16sp(n) >> 13) & 0x7 == 3,
        (c_addi16sp(n) >> 7) & 0x1f == 2,
        ({
            let inst = c_addi16sp(n);
            ((inst >> 12) & 1) << 9 | ((inst >> 3) & 0x3) << 7 | ((inst >> 5) & 1) << 6 | ((inst
                >> 2) & 1) << 5 | ((inst >> 6) & 1) << 4
        }) == (n as u16) & 0x3f0,
        c_word(funct3, u, b, a) & 0x3 == 0,
        (c_word(funct3, u, b, a) >> 13) & 0x7 == funct3,
        (c_word(funct3, u, b, a) >> 2) & 0x7 == a,
        (c_word(funct3, u, b, a) >> 7) & 0x7 == b,
        ({
            let inst = c_word(funct3, u, b, a);
            ((inst >> 10) & 0x7) << 3 | ((inst >> 6) & 1) << 2 | ((inst >> 5) & 1) << 6
        }) == u & 0x7c,
        c_doubleword(funct3, u, b, a) & 0x3 == 0,
        (c_doubleword(funct3, u, b, a) >> 13) & 0x7 == funct3,
        (c_doubleword(funct3, u, b, a) >> 2) & 0x7 == a,
        (c_doubleword(funct3, u, b, a) >> 7) & 0x7 == b,
        ({
            let inst = c_doubleword(funct3, u, b, a);
            ((inst >> 10) & 0x7) << 3 | ((inst >> 5) & 0x3) << 6
        }) == u & 0xf8,
        c_lwsp(u, r) & 0x3 == 2,
        (c_lwsp(u, r) >> 13) & 0x7 == 2,
        (c_lwsp(u, r) >> 7) & 0x1f == r,
        ({
            let inst = c_lwsp(u, r);
            ((inst >> 2) & 0x3) << 6 | ((inst >> 12) & 1) << 5 | ((inst >> 4) & 0x7) << 2
        }) == u & 0xfc,
        c_ldsp(u, r) & 0x3 == 2,
        (c_ldsp(u, r) >> 13) & 0x7 == 3,
        (c_ldsp(u, r) >> 7) & 0x1f == r,
        ({
            let inst = c_ldsp(u, r);
            ((inst >> 2) & 0x7) << 6 | ((inst >> 12) & 1) << 5 | ((inst >> 5) & 0x3) << 3
        }) == u & 0x1f8,
        c_swsp(u, q) & 0x3 == 2,
        (c_swsp(u, q) >> 13) & 0x7 == 6,
        (c_swsp(u, q) >> 2) & 0x1f == q,
        ({
            let inst = c_swsp(u, q);
            ((inst >> 7) & 0x3) << 6 | ((inst >> 9) & 0xf) << 2
        }) == u & 0xfc,
        c_sdsp(u, q) & 0x3 == 2,
        (c_sdsp(u, q) >> 13) & 0x7 == 7,
        (c_sdsp(u, q) >> 2) & 0x1f == q,
        ({
            let inst = c_sdsp(u, q);
            ((inst >> 7) & 0x7) << 6 | ((inst >> 10) & 0x7) << 3
        }) == u & 0x1f8,
        c_j(n) & 0x3 == 1,
        (c_j(n) >> 13) & 0x7 == 5,
        ({
            let inst = c_j(n);
            ((inst >> 12) & 1) << 11 | ((inst >> 11) & 1) << 4 | ((inst >> 9) & 0x3) << 8 | ((inst
                >> 8) & 1) << 10 | ((inst >> 7) & 1) << 6 | ((inst >> 6) & 1) << 7 | ((inst >> 3)
                & 0x7) << 1 | ((inst >> 2) & 1) << 5
        }) == (n as u16) & 0xffe,
        c_branch(funct3, n, b) & 0x3 == 1,
        (c_branch(funct3, n, b) >> 13) & 0x7 == funct3,
        (c_branch(funct3, n, b) >> 7) & 0x7 == b,
        ({
            let inst = c_branch(funct3, n, b);
            ((inst >> 12) & 1) << 8 | ((inst >> 5) & 0x3) << 6 | ((inst >> 2) & 1) << 5 | ((inst
                >> 10) & 0x3) << 3 | ((inst >> 3) & 0x3) << 1
        }) == (n as u16) & 0x1fe,
        -0x20 <= n < 0x20 ==> (n as u16) & 0x3f == (if n >= 0 {
            n as int
        } else {
            n + 0x40
        }),
        0 <= n < 0x40 ==> (n as u16) & 0x3f == n,
        -0x200 <= n < 0x200 && n & 0xf == 0 ==> (n as u16) & 0x3f0 == (if n >= 0 {
            n as int
        } else {
            n + 0x400
        }),
        -0x800 <= n < 0x800 && n & 1 == 0 ==> (n as u16) & 0xffe == (if n >= 0 {
            n as int
        } else {
            n + 0x1000
        }),
        -0x100 <= n < 0x100 && n & 1 == 0 ==> (n as u16) & 0x1fe == (if n >= 0 {
            n as int
        } else {
            n + 0x200
        }),
        n & 1 == 0 ==> (n as i32) & 1 == 0,
        u % 4 == 0 && u < 0x400 ==> u & 0x3fc == u,
        u % 4 == 0 && u < 0x80 ==> u & 0x7c == u,
        u % 4 == 0 && u < 0x100 ==> u & 0xfc == u,
        u % 8 == 0 && u < 0x100 ==> u & 0xf8 == u,
        u % 8 == 0 && u < 0x200 ==> u & 0x1f8 == u,
        (u as u32) & 0x3 == u & 0x3,
        u & 0x3 == 0 || u & 0x3 == 1 || u & 0x3 == 2 || u & 0x3 == 3,
        ((u as u32) as u16) == u,
        (n as i64 as u64) << 12 == (if n >= 0 {
            n * 0x1000
        } else {
            n * 0x1000 + 0x1_0000_0000_0000_0000
        }),
        n as i64 as u64 == (if n >= 0 {
            n as int
        } else {
            n + 0x1_0000_0000_0000_0000
        }),
{
}

/// The fields of a short instruction with a constant of six bits.
pub proof fn lemma_ci(funct3: u16, n: i16, r: u16, quadrant: u16)
    requires
        funct3 < 8,
        r < 32,
        quadrant < 3,
    ensures
        (ci_type(funct3, n, r, quadrant) as u32) & 0x3 != 0x3,
        (ci_type(funct3, n, r, quadrant) as u32) as u16 == ci_type(funct3, n, r, quadrant),
        ci_type(funct3, n, r, quadrant) & 0x3 == quadrant,
        isa::c_funct3(ci_type(funct3, n, r, quadrant)) == funct3,
        isa::c_rd(ci_type(funct3, n, r, quadrant)) == r,
        -0x20 <= n < 0x20 ==> isa::c_imm6(ci_type(funct3, n, r, quadrant)) == constant(n as i32),
        0 <= n < 0x40 ==> isa::c_shamt(ci_type(funct3, n, r, quadrant)) == n,
        -0x20 <= n < 0x20 ==> isa::c_imm6(ci_type(funct3, n, r, quadrant)) << 12 == (if n >= 0 { n * 0x1000 } else { n * 0x1000 + 0x1_0000_0000_0000_0000 }),
{
    lemma_short(funct3, quadrant, n, 0, r, 0, 0, 0);
    lemma_short(0, 0, 0, ci_type(funct3, n, r, quadrant), 0, 0, 0, 0);
}

/// The fields of a short instruction on two registers.
pub proof fn lemma_moves(r: u16, q: u16)
    requires
        r < 32,
        q < 32,
    ensures
        (cr_type(8, r, q) as u32) & 0x3 != 0x3,
        (cr_type(8, r, q) as u32) as u16 == cr_type(8, r, q),
        cr_type(8, r, q) & 0x3 == 2,
        isa::c_funct3(cr_type(8, r, q)) == 4,
        isa::c_rd(cr_type(8, r, q)) == r,
        isa::c_rs2(cr_type(8, r, q)) == q,
        (cr_type(8, r, q) >> 12) & 1 == 0,
{
    lemma_short(0, 0, 0, 0, r, q, 0, 0);
    lemma_short(0, 0, 0, cr_type(8, r, q), 0, 0, 0, 0);
}

/// The fields of a short instruction on two registers.
pub proof fn lemma_sums(r: u16, q: u16)
    requires
        r < 32,
        q < 32,
    ensures
        (cr_type(9, r, q) as u32) & 0x3 != 0x3,
        (cr_type(9, r, q) as u32) as u16 == cr_type(9, r, q),
        cr_type(9, r, q) & 0x3 == 2,
        isa::c_funct3(cr_type(9, r, q)) == 4,
        isa::c_rd(cr_type(9, r, q)) == r,
        isa::c_rs2(cr_type(9, r, q)) == q,
        (cr_type(9, r, q) >> 12) & 1 == 1,
{
    lemma_short(0, 0, 0, 0, r, q, 0, 0);
    lemma_short(0, 0, 0, cr_type(9, r, q), 0, 0, 0, 0);
}

/// The fields of a sum of the stack pointer and a constant.
pub proof fn lemma_addi4spn(u: u16, a: u16)
    requires
        a < 8,
        u < 0x400,
        u % 4 == 0,
    ensures
        (c_addi4spn(u, a) as u32) & 0x3 != 0x3,
        (c_addi4spn(u, a) as u32) as u16 == c_addi4spn(u, a),
        c_addi4spn(u, a) & 0x3 == 0,
        isa::c_funct3(c_addi4spn(u, a)) == 0,
        isa::c_low(c_addi4spn(u, a)) == 8 + a,
        isa::c_imm_addi4spn(c_addi4spn(u, a)) == u,
{
    lemma_short(0, 0, 0, u, 0, 0, a, 0);
    lemma_short(0, 0, 0, c_addi4spn(u, a), 0, 0, 0, 0);
}

/// The fields of a step of the stack pointer.
pub proof fn lemma_addi16sp(n: i16)
    requires
        -0x200 <= n < 0x200,
        n & 0xf == 0,
    ensures
        (c_addi16sp(n) as u32) & 0x3 != 0x3,
        (c_addi16sp(n) as u32) as u16 == c_addi16sp(n),
        c_addi16sp(n) & 0x3 == 1,
        isa::c_funct3(c_addi16sp(n)) == 3,
        isa::c_rd(c_addi16sp(n)) == 2,
        isa::c_imm_addi16sp(c_addi16sp(n)) == constant(n as i32),
{
    lemma_short(0, 0, n, 0, 0, 0, 0, 0);
    lemma_short(0, 0, 0, c_addi16sp(n), 0, 0, 0, 0);
}

/// The fields of an access to a word.
pub proof fn lemma_word(funct3: u16, u: u16, b: u16, a: u16)
    requires
        funct3 < 8,
        a < 8,
        b < 8,
        u < 0x80,
        u % 4 == 0,
    ensures
        (c_word(funct3, u, b, a) as u32) & 0x3 != 0x3,
        (c_word(funct3, u, b, a) as u32) as u16 == c_word(funct3, u, b, a),
        c_word(funct3, u, b, a) & 0x3 == 0,
        isa::c_funct3(c_word(funct3, u, b, a)) == funct3,
        isa::c_low(c_word(funct3, u, b, a)) == 8 + a,
        isa::c_high(c_word(funct3, u, b, a)) == 8 + b,
        isa::c_imm_word(c_word(funct3, u, b, a)) == u,
{
    lemma_short(funct3, 0, 0, u, 0, 0, a, b);
    lemma_short(0, 0, 0, c_word(funct3, u, b, a), 0, 0, 0, 0);
}

/// The fields of an access to a doubleword.
pub proof fn lemma_doubleword(funct3: u16, u: u16, b: u16, a: u16)
    requires
        funct3 < 8,
        a < 8,
        b < 8,
        u < 0x100,
        u % 8 == 0,
    ensures
        (c_doubleword(funct3, u, b, a) as u32) & 0x3 != 0x3,
        (c_doubleword(funct3, u, b, a) as u32) as u16 == c_doubleword(funct3, u, b, a),
        c_doubleword(funct3, u, b, a) & 0x3 == 0,
        isa::c_funct3(c_doubleword(funct3, u, b, a)) == funct3,
        isa::c_low(c_doubleword(funct3, u, b, a)) == 8 + a,
        isa::c_high(c_doubleword(funct3, u, b, a)) == 8 + b,
        isa::c_imm_double(c_doubleword(funct3, u, b, a)) == u,
{
    lemma_short(funct3, 0, 0, u, 0, 0, a, b);
    lemma_short(0, 0, 0, c_doubleword(funct3, u, b, a), 0, 0, 0, 0);
}

/// The fields of a load of a word from the stack.
pub proof fn lemma_lwsp(u: u16, r: u16)
    requires
        r < 32,
        u < 0x100,
        u % 4 == 0,
    ensures
        (c_lwsp(u, r) as u32) & 0x3 != 0x3,
        (c_lwsp(u, r) as u32) as u16 == c_lwsp(u, r),
        c_lwsp(u, r) & 0x3 == 2,
        isa::c_funct3(c_lwsp(u, r)) == 2,
        isa::c_rd(c_lwsp(u, r)) == r,
        isa::c_imm_lwsp(c_lwsp(u, r)) == u,
{
    lemma_short(0, 0, 0, u, r, 0, 0, 0);
    lemma_short(0, 0, 0, c_lwsp(u, r), 0, 0, 0, 0);
}

/// The fields of a load of a doubleword from the stack.
pub proof fn lemma_ldsp(u: u16, r: u16)
    requires
        r < 32,
        u < 0x200,
        u % 8 == 0,
    ensures
        (c_ldsp(u, r) as u32) & 0x3 != 0x3,
        (c_ldsp(u, r) as u32) as u16 == c_ldsp(u, r),
        c_ldsp(u, r) & 0x3 == 2,
        isa::c_funct3(c_ldsp(u, r)) == 3,
        isa::c_rd(c_ldsp(u, r)) == r,
        isa::c_imm_ldsp(c_ldsp(u, r)) == u,
{
    lemma_short(0, 0, 0, u, r, 0, 0, 0);
    lemma_short(0, 0, 0, c_ldsp(u, r), 0, 0, 0, 0);
}

/// The fields of a store of a word to the stack.
pub proof fn lemma_swsp(u: u16, q: u16)
    requires
        q < 32,
        u < 0x100,
        u % 4 == 0,
    ensures
        (c_swsp(u, q) as u32) & 0x3 != 0x3,
        (c_swsp(u, q) as u32) as u16 == c_swsp(u, q),
        c_swsp(u, q) & 0x3 == 2,
        isa::c_funct3(c_swsp(u, q)) == 6,
        isa::c_rs2(c_swsp(u, q)) == q,
        isa::c_imm_swsp(c_swsp(u, q)) == u,
{
    lemma_short(0, 0, 0, u, 0, q, 0, 0);
    lemma_short(0, 0, 0, c_swsp(u, q), 0, 0, 0, 0);
}

/// The fields of a store of a doubleword to the stack.
pub proof fn lemma_sdsp(u: u16, q: u16)
    requires
        q < 32,
        u < 0x200,
        u % 8 == 0,
    ensures
        (c_sdsp(u, q) as u32) & 0x3 != 0x3,
        (c_sdsp(u, q) as u32) as u16 == c_sdsp(u, q),
        c_sdsp(u, q) & 0x3 == 2,
        isa::c_funct3(c_sdsp(u, q)) == 7,
        isa::c_rs2(c_sdsp(u, q)) == q,
        isa::c_imm_sdsp(c_sdsp(u, q)) == u,
{
    lemma_short(0, 0, 0, u, 0, q, 0, 0);
    lemma_short(0, 0, 0, c_sdsp(u, q), 0, 0, 0, 0);
}

/// The fields of a short jump.
pub proof fn lemma_short_jump(n: i16)
    requires
        -0x800 <= n < 0x800,
        n & 1 == 0,
    ensures
        (c_j(n) as u32) & 0x3 != 0x3,
        (c_j(n) as u32) as u16 == c_j(n),
        c_j(n) & 0x3 == 1,
        isa::c_funct3(c_j(n)) == 5,
        isa::c_imm_jump(c_j(n)) == constant(n as i32),
        (n as i32) & 1 == 0,
{
    lemma_short(0, 0, n, 0, 0, 0, 0, 0);
    lemma_short(0, 0, 0, c_j(n), 0, 0, 0, 0);
}

/// The fields of a short branch.
pub proof fn lemma_short_branch(funct3: u16, n: i16, b: u16)
    requires
        funct3 < 8,
        b < 8,
        -0x100 <= n < 0x100,
        n & 1 == 0,
    ensures
        (c_branch(funct3, n, b) as u32) & 0x3 != 0x3,
        (c_branch(funct3, n, b) as u32) as u16 == c_branch(funct3, n, b),
        c_branch(funct3, n, b) & 0x3 == 1,
        isa::c_funct3(c_branch(funct3, n, b)) == funct3,
        isa::c_high(c_branch(funct3, n, b)) == 8 + b,
        isa::c_imm_branch(c_branch(funct3, n, b)) == constant(n as i32),
        (n as i32) & 1 == 0,
{
    lemma_short(funct3, 0, n, 0, 0, 0, 0, b);
    lemma_short(0, 0, 0, c_branch(funct3, n, b), 0, 0, 0, 0);
}

} // verus!
