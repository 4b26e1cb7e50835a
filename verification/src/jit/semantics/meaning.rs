//! What compiled instructions mean: relations between what the registers hold before and after.

use vstd::prelude::*;

verus! {

use crate::engine::microop::MicroOp;
use crate::jit::codegen::{op_code, Code};
use crate::jit::semantics::{
    destination, i32_result, i64_holds, i64_result, law_compiled_instruction_computes,
    law_compiled_instruction_writes_one_register, names_registers, only_computes, ready, reg,
    result_of, run, Machine,
};
use crate::jit::wasm::{I32Op, I64Op, I64Test};
use crate::meaning::{
    self, differs, divides, is_answer, is_cut, is_cut_word, is_division, meets, moved_down,
    moved_down_signed, moved_up, signed, signed_word, unites, word, word_moved_down,
    word_moved_down_signed, word_moved_up,
};

/// What the code of an instruction leaves in register `rd` when it runs, where it comes to its
/// end and leaves the stack, the other registers and the services as they are.
#[verifier::opaque]
pub open spec fn gives(op: MicroOp, base_pc: u64, m: Machine, rd: u8) -> Option<u64> {
    match op_code(op, base_pc) {
        Some(code) => {
            let t = run(code, m);
            if ready(t) && t.stack == m.stack && t.host == m.host && forall|i: u8|
                i < 32 && i != rd ==> #[trigger] reg(t, i) == reg(m, i) {
                Some(reg(t, rd))
            } else {
                None
            }
        },
        None => None,
    }
}

proof fn lemma_gives(op: MicroOp, base_pc: u64, m: Machine)
    requires
        ready(m),
        names_registers(op),
        only_computes(op),
        destination(op) != 0,
    ensures
        gives(op, base_pc, m, destination(op)) == Some(result_of(op, base_pc, m)),
{
    reveal(gives);
    let none: Code = Seq::empty();
    law_compiled_instruction_computes(op, base_pc, m, none);
    law_compiled_instruction_writes_one_register(op, base_pc, m);
    let code = op_code(op, base_pc).unwrap();
    assert(code + none =~= code);
}

/// Sums, differences, products and comparisons of two registers.
pub proof fn law_compiled_sums(m: Machine, base_pc: u64, rd: u8, rs1: u8, rs2: u8)
    requires
        ready(m),
        0 < rd < 32,
        rs1 < 32,
        rs2 < 32,
    ensures
        ({
            let a = reg(m, rs1);
            let b = reg(m, rs2);
            &&& gives(MicroOp::Add { rd, rs1, rs2 }, base_pc, m, rd) matches Some(r) && is_cut(r, a + b)
            &&& gives(MicroOp::Sub { rd, rs1, rs2 }, base_pc, m, rd) matches Some(r) && is_cut(r, a - b)
            &&& gives(MicroOp::Mul { rd, rs1, rs2 }, base_pc, m, rd) matches Some(r) && is_cut(r, a * b)
            &&& gives(MicroOp::Slt { rd, rs1, rs2 }, base_pc, m, rd) matches Some(r) && is_answer(r, signed(a) < signed(b))
            &&& gives(MicroOp::Sltu { rd, rs1, rs2 }, base_pc, m, rd) matches Some(r) && is_answer(r, a < b)
        }),
{
    let a = reg(m, rs1);
    let b = reg(m, rs2);
    meaning::lemma_sums(a, b);
    meaning::lemma_casts(a, 0);
    meaning::lemma_casts(b, 0);
    lemma_gives(MicroOp::Add { rd, rs1, rs2 }, base_pc, m);
    lemma_gives(MicroOp::Sub { rd, rs1, rs2 }, base_pc, m);
    lemma_gives(MicroOp::Mul { rd, rs1, rs2 }, base_pc, m);
    lemma_gives(MicroOp::Slt { rd, rs1, rs2 }, base_pc, m);
    lemma_gives(MicroOp::Sltu { rd, rs1, rs2 }, base_pc, m);
}

/// Bits of two registers, and shifts of one by the other modulo 64.
pub proof fn law_compiled_bits(m: Machine, base_pc: u64, rd: u8, rs1: u8, rs2: u8)
    requires
        ready(m),
        0 < rd < 32,
        rs1 < 32,
        rs2 < 32,
    ensures
        ({
            let a = reg(m, rs1);
            let b = reg(m, rs2);
            let n = b as int % 64;
            &&& gives(MicroOp::Xor { rd, rs1, rs2 }, base_pc, m, rd) matches Some(r) && differs(r, a, b)
            &&& gives(MicroOp::Or { rd, rs1, rs2 }, base_pc, m, rd) matches Some(r) && unites(r, a, b)
            &&& gives(MicroOp::And { rd, rs1, rs2 }, base_pc, m, rd) matches Some(r) && meets(r, a, b)
            &&& gives(MicroOp::Sll { rd, rs1, rs2 }, base_pc, m, rd) matches Some(r) && moved_up(r, a, n)
            &&& gives(MicroOp::Srl { rd, rs1, rs2 }, base_pc, m, rd) matches Some(r) && moved_down(r, a, n)
            &&& gives(MicroOp::Sra { rd, rs1, rs2 }, base_pc, m, rd) matches Some(r) && moved_down_signed(r, a, n)
        }),
{
    let a = reg(m, rs1);
    let b = reg(m, rs2);
    meaning::lemma_bits(a, b);
    meaning::lemma_shifts(a, b);
    lemma_gives(MicroOp::Xor { rd, rs1, rs2 }, base_pc, m);
    lemma_gives(MicroOp::Or { rd, rs1, rs2 }, base_pc, m);
    lemma_gives(MicroOp::And { rd, rs1, rs2 }, base_pc, m);
    lemma_gives(MicroOp::Sll { rd, rs1, rs2 }, base_pc, m);
    lemma_gives(MicroOp::Srl { rd, rs1, rs2 }, base_pc, m);
    lemma_gives(MicroOp::Sra { rd, rs1, rs2 }, base_pc, m);
}

/// Quotients and remainders of two registers belong together.
pub proof fn law_compiled_divisions(m: Machine, base_pc: u64, rd: u8, rs1: u8, rs2: u8)
    requires
        ready(m),
        0 < rd < 32,
        rs1 < 32,
        rs2 < 32,
    ensures
        ({
            let a = reg(m, rs1);
            let b = reg(m, rs2);
            &&& gives(MicroOp::Div { rd, rs1, rs2 }, base_pc, m, rd) matches Some(q) && gives(MicroOp::Rem { rd, rs1, rs2 }, base_pc, m, rd) matches Some(rest) && is_division(
                signed(a),
                signed(b),
                signed(q),
                signed(rest),
                0x8000_0000_0000_0000,
            )
            &&& gives(MicroOp::Divu { rd, rs1, rs2 }, base_pc, m, rd) matches Some(q) && gives(MicroOp::Remu { rd, rs1, rs2 }, base_pc, m, rd) matches Some(rest) && if b == 0 {
                q == 0xffff_ffff_ffff_ffff && rest == a
            } else {
                divides(a as int, b as int, q as int, rest as int)
            }
        }),
{
    let a = reg(m, rs1);
    let b = reg(m, rs2);
    meaning::lemma_divisions(a, b);
    lemma_gives(MicroOp::Div { rd, rs1, rs2 }, base_pc, m);
    lemma_gives(MicroOp::Rem { rd, rs1, rs2 }, base_pc, m);
    lemma_gives(MicroOp::Divu { rd, rs1, rs2 }, base_pc, m);
    lemma_gives(MicroOp::Remu { rd, rs1, rs2 }, base_pc, m);
}

/// Sums, differences, products and shifts of the low words of two registers.
pub proof fn law_compiled_word_operations(m: Machine, base_pc: u64, rd: u8, rs1: u8, rs2: u8)
    requires
        ready(m),
        0 < rd < 32,
        rs1 < 32,
        rs2 < 32,
    ensures
        ({
            let a = reg(m, rs1);
            let b = reg(m, rs2);
            let n = b as int % 32;
            &&& gives(MicroOp::Addw { rd, rs1, rs2 }, base_pc, m, rd) matches Some(r) && is_cut_word(r, a + b)
            &&& gives(MicroOp::Subw { rd, rs1, rs2 }, base_pc, m, rd) matches Some(r) && is_cut_word(r, a - b)
            &&& gives(MicroOp::Mulw { rd, rs1, rs2 }, base_pc, m, rd) matches Some(r) && is_cut_word(r, a * b)
            &&& gives(MicroOp::Sllw { rd, rs1, rs2 }, base_pc, m, rd) matches Some(r) && word_moved_up(r, a, n)
            &&& gives(MicroOp::Srlw { rd, rs1, rs2 }, base_pc, m, rd) matches Some(r) && word_moved_down(r, a, n)
            &&& gives(MicroOp::Sraw { rd, rs1, rs2 }, base_pc, m, rd) matches Some(r) && word_moved_down_signed(r, a, n)
        }),
{
    let a = reg(m, rs1);
    let b = reg(m, rs2);
    meaning::lemma_words(a, b);
    meaning::lemma_word_products(a, b);
    meaning::lemma_shifts(a, b);
    lemma_gives(MicroOp::Addw { rd, rs1, rs2 }, base_pc, m);
    lemma_gives(MicroOp::Subw { rd, rs1, rs2 }, base_pc, m);
    lemma_gives(MicroOp::Mulw { rd, rs1, rs2 }, base_pc, m);
    lemma_gives(MicroOp::Sllw { rd, rs1, rs2 }, base_pc, m);
    lemma_gives(MicroOp::Srlw { rd, rs1, rs2 }, base_pc, m);
    lemma_gives(MicroOp::Sraw { rd, rs1, rs2 }, base_pc, m);
}

/// Quotients and remainders of the low words of two registers belong together.
pub proof fn law_compiled_word_divisions(m: Machine, base_pc: u64, rd: u8, rs1: u8, rs2: u8)
    requires
        ready(m),
        0 < rd < 32,
        rs1 < 32,
        rs2 < 32,
    ensures
        ({
            let a = reg(m, rs1);
            let b = reg(m, rs2);
            &&& gives(MicroOp::Divw { rd, rs1, rs2 }, base_pc, m, rd) matches Some(q) && gives(MicroOp::Remw { rd, rs1, rs2 }, base_pc, m, rd) matches Some(rest) && is_division(
                signed_word(a),
                signed_word(b),
                signed(q),
                signed(rest),
                0x8000_0000,
            )
            &&& gives(MicroOp::Divuw { rd, rs1, rs2 }, base_pc, m, rd) matches Some(q) && gives(MicroOp::Remuw { rd, rs1, rs2 }, base_pc, m, rd) matches Some(rest) && is_cut_word(
                q,
                word(q),
            ) && is_cut_word(rest, word(rest)) && if word(b) == 0 {
                word(q) == 0xffff_ffff && word(rest) == word(a)
            } else {
                divides(word(a), word(b), word(q), word(rest))
            }
        }),
{
    let a = reg(m, rs1);
    let b = reg(m, rs2);
    meaning::lemma_word_divisions(a, b);
    meaning::lemma_unsigned_word_divisions(a, b);
    lemma_gives(MicroOp::Divw { rd, rs1, rs2 }, base_pc, m);
    lemma_gives(MicroOp::Remw { rd, rs1, rs2 }, base_pc, m);
    lemma_gives(MicroOp::Divuw { rd, rs1, rs2 }, base_pc, m);
    lemma_gives(MicroOp::Remuw { rd, rs1, rs2 }, base_pc, m);
}

/// Operations on a register and a constant.
pub proof fn law_compiled_constant_operations(m: Machine, base_pc: u64, rd: u8, rs1: u8, imm: i64)
    requires
        ready(m),
        0 < rd < 32,
        rs1 < 32,
    ensures
        ({
            let a = reg(m, rs1);
            let c = constant(imm);
            &&& gives(MicroOp::Addi { rd, rs1, imm }, base_pc, m, rd) matches Some(r) && is_cut(r, a + imm)
            &&& gives(MicroOp::Slti { rd, rs1, imm }, base_pc, m, rd) matches Some(r) && is_answer(r, signed(a) < imm)
            &&& gives(MicroOp::Sltiu { rd, rs1, imm }, base_pc, m, rd) matches Some(r) && is_answer(r, a < c)
            &&& gives(MicroOp::Xori { rd, rs1, imm }, base_pc, m, rd) matches Some(r) && differs(r, a, c)
            &&& gives(MicroOp::Ori { rd, rs1, imm }, base_pc, m, rd) matches Some(r) && unites(r, a, c)
            &&& gives(MicroOp::Andi { rd, rs1, imm }, base_pc, m, rd) matches Some(r) && meets(r, a, c)
        }),
{
    let a = reg(m, rs1);
    let c = constant(imm);
    meaning::lemma_casts(a, imm);
    meaning::lemma_bits(a, c);
    lemma_gives(MicroOp::Addi { rd, rs1, imm }, base_pc, m);
    lemma_gives(MicroOp::Slti { rd, rs1, imm }, base_pc, m);
    lemma_gives(MicroOp::Sltiu { rd, rs1, imm }, base_pc, m);
    lemma_gives(MicroOp::Xori { rd, rs1, imm }, base_pc, m);
    lemma_gives(MicroOp::Ori { rd, rs1, imm }, base_pc, m);
    lemma_gives(MicroOp::Andi { rd, rs1, imm }, base_pc, m);
}

/// Sums of the low word of a register and a constant.
pub proof fn law_compiled_word_sums(m: Machine, base_pc: u64, rd: u8, rs1: u8, imm: i32)
    requires
        ready(m),
        0 < rd < 32,
        rs1 < 32,
    ensures
        ({
            let a = reg(m, rs1);
            &&& gives(MicroOp::Addiw { rd, rs1, imm }, base_pc, m, rd) matches Some(r) && is_cut_word(r, a + imm)
        }),
{
    let a = reg(m, rs1);
    let c = constant(imm as i64);
    meaning::lemma_casts(a, imm as i64);
    meaning::lemma_words(a, c);
    assert((c - imm) % 0x1_0000_0000 == 0);
    lemma_gives(MicroOp::Addiw { rd, rs1, imm }, base_pc, m);
}

/// Shifts of a register by a constant.
pub proof fn law_compiled_constant_shifts(m: Machine, base_pc: u64, rd: u8, rs1: u8, shamt: u8)
    requires
        ready(m),
        0 < rd < 32,
        rs1 < 32,
    ensures
        ({
            let a = reg(m, rs1);
            let n = shamt as int % 64;
            let k = shamt as int % 32;
            &&& gives(MicroOp::Slli { rd, rs1, shamt }, base_pc, m, rd) matches Some(r) && moved_up(r, a, n)
            &&& gives(MicroOp::Srli { rd, rs1, shamt }, base_pc, m, rd) matches Some(r) && moved_down(r, a, n)
            &&& gives(MicroOp::Srai { rd, rs1, shamt }, base_pc, m, rd) matches Some(r) && moved_down_signed(r, a, n)
            &&& gives(MicroOp::Slliw { rd, rs1, shamt }, base_pc, m, rd) matches Some(r) && word_moved_up(r, a, k)
            &&& gives(MicroOp::Srliw { rd, rs1, shamt }, base_pc, m, rd) matches Some(r) && word_moved_down(r, a, k)
            &&& gives(MicroOp::Sraiw { rd, rs1, shamt }, base_pc, m, rd) matches Some(r) && word_moved_down_signed(r, a, k)
        }),
{
    meaning::lemma_constant_shifts(reg(m, rs1), shamt as i64);
    meaning::lemma_casts(0, 0);
    lemma_gives(MicroOp::Slli { rd, rs1, shamt }, base_pc, m);
    lemma_gives(MicroOp::Srli { rd, rs1, shamt }, base_pc, m);
    lemma_gives(MicroOp::Srai { rd, rs1, shamt }, base_pc, m);
    lemma_gives(MicroOp::Slliw { rd, rs1, shamt }, base_pc, m);
    lemma_gives(MicroOp::Srliw { rd, rs1, shamt }, base_pc, m);
    lemma_gives(MicroOp::Sraiw { rd, rs1, shamt }, base_pc, m);
}

/// Constants, on their own or relative to the instruction.
pub proof fn law_compiled_constants(m: Machine, base_pc: u64, rd: u8, imm: i64, pc_offset: u16)
    requires
        ready(m),
        0 < rd < 32,
    ensures
        gives(MicroOp::Lui { rd, imm }, base_pc, m, rd) matches Some(r) && is_cut(r, imm as int),
        gives(MicroOp::Auipc { rd, imm, pc_offset }, base_pc, m, rd) matches Some(r) && is_cut(
            r,
            base_pc + pc_offset + imm,
        ),
{
    lemma_gives(MicroOp::Lui { rd, imm }, base_pc, m);
    lemma_gives(MicroOp::Auipc { rd, imm, pc_offset }, base_pc, m);
    meaning::lemma_casts(0, imm);
    meaning::lemma_casts(base_pc, 0);
    let at = (base_pc as i64).wrapping_add(pc_offset as i64);
    meaning::lemma_casts(0, at.wrapping_add(imm));
}

/// A constant as a machine number.
pub open spec fn constant(imm: i64) -> u64 {
    if imm < 0 {
        (imm + 0x1_0000_0000_0000_0000) as u64
    } else {
        imm as u64
    }
}

/// Computations for register 0 leave everything as it is.
pub proof fn law_compiled_register_zero(op: MicroOp, base_pc: u64, m: Machine)
    requires
        ready(m),
        names_registers(op),
        only_computes(op),
        destination(op) == 0,
    ensures
        op_code(op, base_pc) is Some,
        run(op_code(op, base_pc)->0, m) == m,
{
    let none: Code = Seq::empty();
    law_compiled_instruction_computes(op, base_pc, m, none);
    law_compiled_instruction_writes_one_register(op, base_pc, m);
    let code = op_code(op, base_pc).unwrap();
    assert(code + none =~= code);
}

/// The register that a computation writes to is the one that it names as its destination.
pub proof fn law_destinations(rd: u8, rs1: u8, rs2: u8, imm: i64, word_imm: i32, shamt: u8, place: u16)
    ensures
        destination(MicroOp::Add { rd, rs1, rs2 }) == rd,
        destination(MicroOp::Sub { rd, rs1, rs2 }) == rd,
        destination(MicroOp::Xor { rd, rs1, rs2 }) == rd,
        destination(MicroOp::Addi { rd, rs1, imm }) == rd,
        destination(MicroOp::Addiw { rd, rs1, imm: word_imm }) == rd,
        destination(MicroOp::Slli { rd, rs1, shamt }) == rd,
        destination(MicroOp::Lui { rd, imm }) == rd,
        destination(MicroOp::Auipc { rd, imm, pc_offset: place }) == rd,
{
}

/// The high halves of products are not compiled.
pub proof fn law_uncompiled_products(base_pc: u64, rd: u8, rs1: u8, rs2: u8)
    ensures
        op_code(MicroOp::Mulh { rd, rs1, rs2 }, base_pc) is None,
        op_code(MicroOp::Mulhsu { rd, rs1, rs2 }, base_pc) is None,
        op_code(MicroOp::Mulhu { rd, rs1, rs2 }, base_pc) is None,
{
}

/// What the operations of the compiled code on two numbers of 64 bits do.
pub proof fn law_operations_on_doublewords(a: u64, b: u64)
    ensures
        ({
            let n = b as int % 64;
            let fits = b != 0 && !(signed(a) == -0x8000_0000_0000_0000 && signed(b) == -1);
            &&& i64_result(I64Op::Add, a, b) matches Some(r) && is_cut(r, a + b)
            &&& i64_result(I64Op::Sub, a, b) matches Some(r) && is_cut(r, a - b)
            &&& i64_result(I64Op::Mul, a, b) matches Some(r) && is_cut(r, a * b)
            &&& i64_result(I64Op::And, a, b) matches Some(r) && meets(r, a, b)
            &&& i64_result(I64Op::Or, a, b) matches Some(r) && unites(r, a, b)
            &&& i64_result(I64Op::Xor, a, b) matches Some(r) && differs(r, a, b)
            &&& i64_result(I64Op::Shl, a, b) matches Some(r) && moved_up(r, a, n)
            &&& i64_result(I64Op::ShrU, a, b) matches Some(r) && moved_down(r, a, n)
            &&& i64_result(I64Op::ShrS, a, b) matches Some(r) && moved_down_signed(r, a, n)
            &&& i64_result(I64Op::DivS, a, b) is Some <==> fits
            &&& fits ==> (i64_result(I64Op::DivS, a, b) matches Some(q) && i64_result(
                I64Op::RemS,
                a,
                b,
            ) matches Some(rest) && divides(signed(a), signed(b), signed(q), signed(rest)))
            &&& i64_result(I64Op::RemS, a, b) is Some <==> b != 0
            &&& i64_result(I64Op::DivU, a, b) is Some <==> b != 0
            &&& b != 0 ==> (i64_result(I64Op::DivU, a, b) matches Some(q) && i64_result(
                I64Op::RemU,
                a,
                b,
            ) matches Some(rest) && divides(a as int, b as int, q as int, rest as int))
            &&& i64_result(I64Op::RemU, a, b) is Some <==> b != 0
            &&& i64_holds(I64Test::Eqz, a, b) == (b == 0)
            &&& i64_holds(I64Test::Eq, a, b) == (a - b == 0)
            &&& i64_holds(I64Test::Ne, a, b) != i64_holds(I64Test::Eq, a, b)
            &&& i64_holds(I64Test::LtS, a, b) == (signed(a) - signed(b) < 0)
            &&& i64_holds(I64Test::GeS, a, b) != i64_holds(I64Test::LtS, a, b)
            &&& i64_holds(I64Test::LtU, a, b) == (a - b < 0)
            &&& i64_holds(I64Test::GeU, a, b) != i64_holds(I64Test::LtU, a, b)
        }),
{
    meaning::lemma_sums(a, b);
    meaning::lemma_bits(a, b);
    meaning::lemma_shifts(a, b);
    meaning::lemma_casts(a, 0);
    meaning::lemma_casts(b, 0);
    meaning::lemma_divisions(a, b);
    if b != 0 {
        meaning::lemma_divides(signed(a), signed(b));
    }
}

/// What the operations of the compiled code on two numbers of 32 bits do.
pub proof fn law_operations_on_words(a: u32, b: u32)
    ensures
        ({
            let wide = |r: u32| r as i32 as i64 as u64;
            let x = a as u64;
            let y = b as u64;
            let n = b as int % 32;
            let fits = b != 0 && !(signed_word(x) == -0x8000_0000 && signed_word(y) == -1);
            &&& i32_result(I32Op::Add, a, b) matches Some(r) && (r - (a + b)) % 0x1_0000_0000 == 0
            &&& i32_result(I32Op::Mul, a, b) matches Some(r) && (r - a * b) % 0x1_0000_0000 == 0
            &&& i32_result(I32Op::And, a, b) matches Some(r) && meets(r as u64, x, y)
            &&& i32_result(I32Op::Shl, a, b) matches Some(r) && word_moved_up(wide(r), x, n)
            &&& i32_result(I32Op::ShrU, a, b) matches Some(r) && word_moved_down(wide(r), x, n)
            &&& i32_result(I32Op::ShrS, a, b) matches Some(r) && word_moved_down_signed(
                wide(r),
                x,
                n,
            )
            &&& i32_result(I32Op::DivS, a, b) is Some <==> fits
            &&& fits ==> (i32_result(I32Op::DivS, a, b) matches Some(q) && i32_result(
                I32Op::RemS,
                a,
                b,
            ) matches Some(rest) && divides(
                signed_word(x),
                signed_word(y),
                signed_word(q as u64),
                signed_word(rest as u64),
            ))
            &&& i32_result(I32Op::DivU, a, b) is Some <==> b != 0
            &&& b != 0 ==> (i32_result(I32Op::DivU, a, b) matches Some(q) && i32_result(
                I32Op::RemU,
                a,
                b,
            ) matches Some(rest) && divides(a as int, b as int, q as int, rest as int))
            &&& i32_result(I32Op::Eqz, a, b) matches Some(r) && is_answer(r as u64, b == 0)
            &&& i32_result(I32Op::Eq, a, b) matches Some(r) && is_answer(r as u64, a - b == 0)
        }),
{
    let x = a as u64;
    let y = b as u64;
    meaning::lemma_bits(x, y);
    meaning::lemma_shifts(x, y);
    meaning::lemma_word_casts(a, b, 0);
    if b != 0 {
        meaning::lemma_divides(signed_word(x), signed_word(y));
        meaning::lemma_divides(a as int, b as int);
        let q = crate::arith::quotient(signed_word(x), signed_word(y)) as i32;
        let rest = crate::arith::remainder(signed_word(x), signed_word(y)) as i32;
        meaning::lemma_word_signs(q);
        meaning::lemma_word_signs(rest);
    }
}

} // verus!
