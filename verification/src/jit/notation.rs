//! The notation of instructions in texts: mnemonics and operands in assembler notation, and the
//! lines of a listing.

use vstd::prelude::*;

verus! {

use crate::engine::microop::MicroOp;
use crate::jit::disasm::{
    bool_text, debug_amo, debug_branch, debug_csr, debug_csr_imm, debug_imm, debug_jal,
    debug_jalr, debug_load, debug_lr, debug_regs, debug_sc, debug_shamt, debug_store,
    debug_system, debug_text, debug_upper, debug_upper_pc, short_amo, short_csr, short_csr_imm,
    short_imm, short_jump, short_lr, short_mem, short_regs, short_sc, short_shamt, short_text,
    short_upper, width_suffix,
};
use crate::text::{dec, dec_signed, hex0x, hex_pad};

/// A register by its number.
pub open spec fn x(r: u8) -> Seq<char> {
    seq!['x'] + dec(r as nat)
}

/// The memory that a register points to.
pub open spec fn at(r: u8) -> Seq<char> {
    seq!['('] + x(r) + seq![')']
}

/// A control register by its number, in three hexadecimal digits.
pub open spec fn numbered(csr: u16) -> Seq<char> {
    seq!['0', 'x'] + hex_pad(csr as nat, 3)
}

/// Operands one after another, with a comma and a space between them.
pub open spec fn listed(operands: Seq<Seq<char>>) -> Seq<char>
    decreases operands.len(),
{
    if operands.len() == 0 {
        Seq::empty()
    } else if operands.len() == 1 {
        operands[0]
    } else {
        listed(operands.drop_last()) + seq![',', ' '] + operands.last()
    }
}

/// A mnemonic and its operands.
pub open spec fn noted(mnemonic: Seq<char>, operands: Seq<Seq<char>>) -> Seq<char> {
    if operands.len() == 0 {
        mnemonic
    } else {
        mnemonic + seq![' '] + listed(operands)
    }
}

proof fn lemma_marks()
    ensures
        " x"@ == seq![' ', 'x'],
        ", x"@ == seq![',', ' ', 'x'],
        ", "@ == seq![',', ' '],
        "(x"@ == seq!['(', 'x'],
        ")"@ == seq![')'],
        ", 0x"@ == seq![',', ' ', '0', 'x'],
        ", (x"@ == seq![',', ' ', '(', 'x'],
{
    reveal_strlit(" x");
    reveal_strlit(", x");
    reveal_strlit(", ");
    reveal_strlit("(x");
    reveal_strlit(")");
    reveal_strlit(", 0x");
    reveal_strlit(", (x");
    assert(" x"@ =~= seq![' ', 'x']);
    assert(", x"@ =~= seq![',', ' ', 'x']);
    assert(", "@ =~= seq![',', ' ']);
    assert("(x"@ =~= seq!['(', 'x']);
    assert(")"@ =~= seq![')']);
    assert(", 0x"@ =~= seq![',', ' ', '0', 'x']);
    assert(", (x"@ =~= seq![',', ' ', '(', 'x']);
}

proof fn lemma_listed(a: Seq<char>, b: Seq<char>, c: Seq<char>)
    ensures
        listed(seq![a]) == a,
        listed(seq![a, b]) == a + seq![',', ' '] + b,
        listed(seq![a, b, c]) == a + seq![',', ' '] + b + seq![',', ' '] + c,
{
    reveal_with_fuel(listed, 4);
    assert(seq![a, b].drop_last() =~= seq![a]);
    assert(seq![a, b, c].drop_last() =~= seq![a, b]);
}

proof fn lemma_short_imm(name: Seq<char>, a: u8, b: u8, imm: i64)
    ensures
        short_imm(name, a, b, imm) == noted(name, seq![x(a), x(b), dec_signed(imm as int)]),
{
    lemma_marks();
    lemma_listed(x(a), x(b), dec_signed(imm as int));
    assert(short_imm(name, a, b, imm) =~= noted(name, seq![x(a), x(b), dec_signed(imm as int)]));
}

proof fn lemma_short_shamt(name: Seq<char>, a: u8, b: u8, shamt: u8)
    ensures
        short_shamt(name, a, b, shamt) == noted(name, seq![x(a), x(b), dec(shamt as nat)]),
{
    lemma_marks();
    lemma_listed(x(a), x(b), dec(shamt as nat));
    assert(short_shamt(name, a, b, shamt) =~= noted(name, seq![x(a), x(b), dec(shamt as nat)]));
}

proof fn lemma_short_regs(name: Seq<char>, a: u8, b: u8, c: u8)
    ensures
        short_regs(name, a, b, c) == noted(name, seq![x(a), x(b), x(c)]),
{
    lemma_marks();
    lemma_listed(x(a), x(b), x(c));
    assert(short_regs(name, a, b, c) =~= noted(name, seq![x(a), x(b), x(c)]));
}

proof fn lemma_short_upper(name: Seq<char>, a: u8, imm: u64)
    ensures
        short_upper(name, a, imm) == noted(name, seq![x(a), hex0x(imm as nat)]),
{
    lemma_marks();
    lemma_listed(x(a), hex0x(imm as nat), Seq::empty());
    assert(short_upper(name, a, imm) =~= noted(name, seq![x(a), hex0x(imm as nat)]));
}

proof fn lemma_short_mem(name: Seq<char>, a: u8, imm: i64, b: u8)
    ensures
        short_mem(name, a, imm, b) == noted(name, seq![x(a), dec_signed(imm as int) + at(b)]),
{
    lemma_marks();
    lemma_listed(x(a), dec_signed(imm as int) + at(b), Seq::empty());
    assert(short_mem(name, a, imm, b) =~= noted(name, seq![x(a), dec_signed(imm as int) + at(b)]));
}

proof fn lemma_short_jump(name: Seq<char>, a: u8, imm: i64)
    ensures
        short_jump(name, a, imm) == noted(name, seq![x(a), dec_signed(imm as int)]),
{
    lemma_marks();
    lemma_listed(x(a), dec_signed(imm as int), Seq::empty());
    assert(short_jump(name, a, imm) =~= noted(name, seq![x(a), dec_signed(imm as int)]));
}

proof fn lemma_short_csr(name: Seq<char>, a: u8, csr: u16, b: u8)
    ensures
        short_csr(name, a, csr, b) == noted(name, seq![x(a), numbered(csr), x(b)]),
{
    lemma_marks();
    lemma_listed(x(a), numbered(csr), x(b));
    assert(short_csr(name, a, csr, b) =~= noted(name, seq![x(a), numbered(csr), x(b)]));
}

proof fn lemma_short_csr_imm(name: Seq<char>, a: u8, csr: u16, zimm: u8)
    ensures
        short_csr_imm(name, a, csr, zimm) == noted(name, seq![x(a), numbered(csr), dec(zimm as nat)]),
{
    lemma_marks();
    lemma_listed(x(a), numbered(csr), dec(zimm as nat));
    assert(short_csr_imm(name, a, csr, zimm) =~= noted(name, seq![x(a), numbered(csr), dec(zimm as nat)]));
}

proof fn lemma_short_lr(name: Seq<char>, a: u8, b: u8)
    ensures
        short_lr(name, a, b) == noted(name, seq![x(a), at(b)]),
{
    lemma_marks();
    lemma_listed(x(a), at(b), Seq::empty());
    assert(short_lr(name, a, b) =~= noted(name, seq![x(a), at(b)]));
}

proof fn lemma_short_sc(name: Seq<char>, a: u8, b: u8, c: u8)
    ensures
        short_sc(name, a, b, c) == noted(name, seq![x(a), x(b), at(c)]),
{
    lemma_marks();
    lemma_listed(x(a), x(b), at(c));
    assert(short_sc(name, a, b, c) =~= noted(name, seq![x(a), x(b), at(c)]));
}

proof fn lemma_short_amo(name: Seq<char>, is_word: bool, a: u8, b: u8, c: u8)
    ensures
        short_amo(name, is_word, a, b, c) == noted(
            name + width_suffix(is_word),
            seq![x(a), x(b), at(c)],
        ),
{
    lemma_marks();
    lemma_listed(x(a), x(b), at(c));
    assert(short_amo(name, is_word, a, b, c) =~= noted(
        name + width_suffix(is_word),
        seq![x(a), x(b), at(c)],
    ));
}

/// The width of an atomic update, behind its mnemonic.
pub open spec fn width(is_word: bool) -> Seq<char> {
    if is_word {
        seq!['.', 'w']
    } else {
        seq!['.', 'd']
    }
}

/// Operations on a constant, and branches: two registers and the constant or distance. An
/// operation has its destination first.
#[verifier::spinoff_prover]
pub proof fn law_notation_imm(rd: u8, rs1: u8, imm: i64, word_imm: i32, rs2: u8, pc_offset: u16, insn_len: u8)
    ensures
        short_text(MicroOp::Addi { rd, rs1, imm }) == noted("addi"@, seq![x(rd), x(rs1), dec_signed(imm as int)]),
        short_text(MicroOp::Xori { rd, rs1, imm }) == noted("xori"@, seq![x(rd), x(rs1), dec_signed(imm as int)]),
        short_text(MicroOp::Ori { rd, rs1, imm }) == noted("ori"@, seq![x(rd), x(rs1), dec_signed(imm as int)]),
        short_text(MicroOp::Andi { rd, rs1, imm }) == noted("andi"@, seq![x(rd), x(rs1), dec_signed(imm as int)]),
        short_text(MicroOp::Slti { rd, rs1, imm }) == noted("slti"@, seq![x(rd), x(rs1), dec_signed(imm as int)]),
        short_text(MicroOp::Sltiu { rd, rs1, imm }) == noted("sltiu"@, seq![x(rd), x(rs1), dec_signed(imm as int)]),
        short_text(MicroOp::Addiw { rd, rs1, imm: word_imm }) == noted("addiw"@, seq![x(rd), x(rs1), dec_signed(word_imm as int)]),
        short_text(MicroOp::Beq { rs1, rs2, imm, pc_offset, insn_len }) == noted("beq"@, seq![x(rs1), x(rs2), dec_signed(imm as int)]),
        short_text(MicroOp::Bne { rs1, rs2, imm, pc_offset, insn_len }) == noted("bne"@, seq![x(rs1), x(rs2), dec_signed(imm as int)]),
        short_text(MicroOp::Blt { rs1, rs2, imm, pc_offset, insn_len }) == noted("blt"@, seq![x(rs1), x(rs2), dec_signed(imm as int)]),
        short_text(MicroOp::Bge { rs1, rs2, imm, pc_offset, insn_len }) == noted("bge"@, seq![x(rs1), x(rs2), dec_signed(imm as int)]),
        short_text(MicroOp::Bltu { rs1, rs2, imm, pc_offset, insn_len }) == noted("bltu"@, seq![x(rs1), x(rs2), dec_signed(imm as int)]),
        short_text(MicroOp::Bgeu { rs1, rs2, imm, pc_offset, insn_len }) == noted("bgeu"@, seq![x(rs1), x(rs2), dec_signed(imm as int)]),
{
    lemma_short_imm("addi"@, rd, rs1, imm);
    lemma_short_imm("xori"@, rd, rs1, imm);
    lemma_short_imm("ori"@, rd, rs1, imm);
    lemma_short_imm("andi"@, rd, rs1, imm);
    lemma_short_imm("slti"@, rd, rs1, imm);
    lemma_short_imm("sltiu"@, rd, rs1, imm);
    lemma_short_imm("addiw"@, rd, rs1, word_imm as i64);
    lemma_short_imm("beq"@, rs1, rs2, imm);
    lemma_short_imm("bne"@, rs1, rs2, imm);
    lemma_short_imm("blt"@, rs1, rs2, imm);
    lemma_short_imm("bge"@, rs1, rs2, imm);
    lemma_short_imm("bltu"@, rs1, rs2, imm);
    lemma_short_imm("bgeu"@, rs1, rs2, imm);
}

/// Shifts by a constant: the destination, the operand and how far.
#[verifier::spinoff_prover]
pub proof fn law_notation_shamt(rd: u8, rs1: u8, shamt: u8)
    ensures
        short_text(MicroOp::Slli { rd, rs1, shamt }) == noted("slli"@, seq![x(rd), x(rs1), dec(shamt as nat)]),
        short_text(MicroOp::Srli { rd, rs1, shamt }) == noted("srli"@, seq![x(rd), x(rs1), dec(shamt as nat)]),
        short_text(MicroOp::Srai { rd, rs1, shamt }) == noted("srai"@, seq![x(rd), x(rs1), dec(shamt as nat)]),
        short_text(MicroOp::Slliw { rd, rs1, shamt }) == noted("slliw"@, seq![x(rd), x(rs1), dec(shamt as nat)]),
        short_text(MicroOp::Srliw { rd, rs1, shamt }) == noted("srliw"@, seq![x(rd), x(rs1), dec(shamt as nat)]),
        short_text(MicroOp::Sraiw { rd, rs1, shamt }) == noted("sraiw"@, seq![x(rd), x(rs1), dec(shamt as nat)]),
{
    lemma_short_shamt("slli"@, rd, rs1, shamt);
    lemma_short_shamt("srli"@, rd, rs1, shamt);
    lemma_short_shamt("srai"@, rd, rs1, shamt);
    lemma_short_shamt("slliw"@, rd, rs1, shamt);
    lemma_short_shamt("srliw"@, rd, rs1, shamt);
    lemma_short_shamt("sraiw"@, rd, rs1, shamt);
}

/// Operations on registers: the destination and the two operands in order.
#[verifier::spinoff_prover]
pub proof fn law_notation_regs(rd: u8, rs1: u8, rs2: u8)
    ensures
        short_text(MicroOp::Add { rd, rs1, rs2 }) == noted("add"@, seq![x(rd), x(rs1), x(rs2)]),
        short_text(MicroOp::Sub { rd, rs1, rs2 }) == noted("sub"@, seq![x(rd), x(rs1), x(rs2)]),
        short_text(MicroOp::Xor { rd, rs1, rs2 }) == noted("xor"@, seq![x(rd), x(rs1), x(rs2)]),
        short_text(MicroOp::Or { rd, rs1, rs2 }) == noted("or"@, seq![x(rd), x(rs1), x(rs2)]),
        short_text(MicroOp::And { rd, rs1, rs2 }) == noted("and"@, seq![x(rd), x(rs1), x(rs2)]),
        short_text(MicroOp::Sll { rd, rs1, rs2 }) == noted("sll"@, seq![x(rd), x(rs1), x(rs2)]),
        short_text(MicroOp::Srl { rd, rs1, rs2 }) == noted("srl"@, seq![x(rd), x(rs1), x(rs2)]),
        short_text(MicroOp::Sra { rd, rs1, rs2 }) == noted("sra"@, seq![x(rd), x(rs1), x(rs2)]),
        short_text(MicroOp::Slt { rd, rs1, rs2 }) == noted("slt"@, seq![x(rd), x(rs1), x(rs2)]),
        short_text(MicroOp::Sltu { rd, rs1, rs2 }) == noted("sltu"@, seq![x(rd), x(rs1), x(rs2)]),
        short_text(MicroOp::Addw { rd, rs1, rs2 }) == noted("addw"@, seq![x(rd), x(rs1), x(rs2)]),
        short_text(MicroOp::Subw { rd, rs1, rs2 }) == noted("subw"@, seq![x(rd), x(rs1), x(rs2)]),
        short_text(MicroOp::Sllw { rd, rs1, rs2 }) == noted("sllw"@, seq![x(rd), x(rs1), x(rs2)]),
        short_text(MicroOp::Srlw { rd, rs1, rs2 }) == noted("srlw"@, seq![x(rd), x(rs1), x(rs2)]),
        short_text(MicroOp::Sraw { rd, rs1, rs2 }) == noted("sraw"@, seq![x(rd), x(rs1), x(rs2)]),
        short_text(MicroOp::Mul { rd, rs1, rs2 }) == noted("mul"@, seq![x(rd), x(rs1), x(rs2)]),
        short_text(MicroOp::Mulh { rd, rs1, rs2 }) == noted("mulh"@, seq![x(rd), x(rs1), x(rs2)]),
        short_text(MicroOp::Mulhsu { rd, rs1, rs2 }) == noted("mulhsu"@, seq![x(rd), x(rs1), x(rs2)]),
        short_text(MicroOp::Mulhu { rd, rs1, rs2 }) == noted("mulhu"@, seq![x(rd), x(rs1), x(rs2)]),
        short_text(MicroOp::Div { rd, rs1, rs2 }) == noted("div"@, seq![x(rd), x(rs1), x(rs2)]),
        short_text(MicroOp::Divu { rd, rs1, rs2 }) == noted("divu"@, seq![x(rd), x(rs1), x(rs2)]),
        short_text(MicroOp::Rem { rd, rs1, rs2 }) == noted("rem"@, seq![x(rd), x(rs1), x(rs2)]),
        short_text(MicroOp::Remu { rd, rs1, rs2 }) == noted("remu"@, seq![x(rd), x(rs1), x(rs2)]),
        short_text(MicroOp::Mulw { rd, rs1, rs2 }) == noted("mulw"@, seq![x(rd), x(rs1), x(rs2)]),
        short_text(MicroOp::Divw { rd, rs1, rs2 }) == noted("divw"@, seq![x(rd), x(rs1), x(rs2)]),
        short_text(MicroOp::Divuw { rd, rs1, rs2 }) == noted("divuw"@, seq![x(rd), x(rs1), x(rs2)]),
        short_text(MicroOp::Remw { rd, rs1, rs2 }) == noted("remw"@, seq![x(rd), x(rs1), x(rs2)]),
        short_text(MicroOp::Remuw { rd, rs1, rs2 }) == noted("remuw"@, seq![x(rd), x(rs1), x(rs2)]),
{
    lemma_short_regs("add"@, rd, rs1, rs2);
    lemma_short_regs("sub"@, rd, rs1, rs2);
    lemma_short_regs("xor"@, rd, rs1, rs2);
    lemma_short_regs("or"@, rd, rs1, rs2);
    lemma_short_regs("and"@, rd, rs1, rs2);
    lemma_short_regs("sll"@, rd, rs1, rs2);
    lemma_short_regs("srl"@, rd, rs1, rs2);
    lemma_short_regs("sra"@, rd, rs1, rs2);
    lemma_short_regs("slt"@, rd, rs1, rs2);
    lemma_short_regs("sltu"@, rd, rs1, rs2);
    lemma_short_regs("addw"@, rd, rs1, rs2);
    lemma_short_regs("subw"@, rd, rs1, rs2);
    lemma_short_regs("sllw"@, rd, rs1, rs2);
    lemma_short_regs("srlw"@, rd, rs1, rs2);
    lemma_short_regs("sraw"@, rd, rs1, rs2);
    lemma_short_regs("mul"@, rd, rs1, rs2);
    lemma_short_regs("mulh"@, rd, rs1, rs2);
    lemma_short_regs("mulhsu"@, rd, rs1, rs2);
    lemma_short_regs("mulhu"@, rd, rs1, rs2);
    lemma_short_regs("div"@, rd, rs1, rs2);
    lemma_short_regs("divu"@, rd, rs1, rs2);
    lemma_short_regs("rem"@, rd, rs1, rs2);
    lemma_short_regs("remu"@, rd, rs1, rs2);
    lemma_short_regs("mulw"@, rd, rs1, rs2);
    lemma_short_regs("divw"@, rd, rs1, rs2);
    lemma_short_regs("divuw"@, rd, rs1, rs2);
    lemma_short_regs("remw"@, rd, rs1, rs2);
    lemma_short_regs("remuw"@, rd, rs1, rs2);
}

/// Constants for the upper part of a register: the destination and the upper bits.
#[verifier::spinoff_prover]
pub proof fn law_notation_upper(rd: u8, imm: i64, pc_offset: u16)
    ensures
        short_text(MicroOp::Lui { rd, imm }) == noted("lui"@, seq![x(rd), hex0x((imm as u64) as nat / 0x1000)]),
        short_text(MicroOp::Auipc { rd, imm, pc_offset }) == noted("auipc"@, seq![x(rd), hex0x((imm as u64) as nat / 0x1000)]),
{
    crate::meaning::lemma_pages(imm as u64);
    lemma_short_upper("lui"@, rd, (imm as u64) >> 12);
    lemma_short_upper("auipc"@, rd, (imm as u64) >> 12);
}

/// Loads, stores and indirect jumps: the register that is filled or stored, and a distance from
/// where another one points.
#[verifier::spinoff_prover]
pub proof fn law_notation_mem(rd: u8, rs1: u8, imm: i64, pc_offset: u16, rs2: u8, insn_len: u8)
    ensures
        short_text(MicroOp::Lb { rd, rs1, imm, pc_offset }) == noted("lb"@, seq![x(rd), dec_signed(imm as int) + at(rs1)]),
        short_text(MicroOp::Lbu { rd, rs1, imm, pc_offset }) == noted("lbu"@, seq![x(rd), dec_signed(imm as int) + at(rs1)]),
        short_text(MicroOp::Lh { rd, rs1, imm, pc_offset }) == noted("lh"@, seq![x(rd), dec_signed(imm as int) + at(rs1)]),
        short_text(MicroOp::Lhu { rd, rs1, imm, pc_offset }) == noted("lhu"@, seq![x(rd), dec_signed(imm as int) + at(rs1)]),
        short_text(MicroOp::Lw { rd, rs1, imm, pc_offset }) == noted("lw"@, seq![x(rd), dec_signed(imm as int) + at(rs1)]),
        short_text(MicroOp::Lwu { rd, rs1, imm, pc_offset }) == noted("lwu"@, seq![x(rd), dec_signed(imm as int) + at(rs1)]),
        short_text(MicroOp::Ld { rd, rs1, imm, pc_offset }) == noted("ld"@, seq![x(rd), dec_signed(imm as int) + at(rs1)]),
        short_text(MicroOp::Sb { rs1, rs2, imm, pc_offset }) == noted("sb"@, seq![x(rs2), dec_signed(imm as int) + at(rs1)]),
        short_text(MicroOp::Sh { rs1, rs2, imm, pc_offset }) == noted("sh"@, seq![x(rs2), dec_signed(imm as int) + at(rs1)]),
        short_text(MicroOp::Sw { rs1, rs2, imm, pc_offset }) == noted("sw"@, seq![x(rs2), dec_signed(imm as int) + at(rs1)]),
        short_text(MicroOp::Sd { rs1, rs2, imm, pc_offset }) == noted("sd"@, seq![x(rs2), dec_signed(imm as int) + at(rs1)]),
        short_text(MicroOp::Jalr { rd, rs1, imm, pc_offset, insn_len }) == noted("jalr"@, seq![x(rd), dec_signed(imm as int) + at(rs1)]),
{
    lemma_short_mem("lb"@, rd, imm, rs1);
    lemma_short_mem("lbu"@, rd, imm, rs1);
    lemma_short_mem("lh"@, rd, imm, rs1);
    lemma_short_mem("lhu"@, rd, imm, rs1);
    lemma_short_mem("lw"@, rd, imm, rs1);
    lemma_short_mem("lwu"@, rd, imm, rs1);
    lemma_short_mem("ld"@, rd, imm, rs1);
    lemma_short_mem("sb"@, rs2, imm, rs1);
    lemma_short_mem("sh"@, rs2, imm, rs1);
    lemma_short_mem("sw"@, rs2, imm, rs1);
    lemma_short_mem("sd"@, rs2, imm, rs1);
    lemma_short_mem("jalr"@, rd, imm, rs1);
}

/// Jumps: the register for the address behind, and the distance.
#[verifier::spinoff_prover]
pub proof fn law_notation_jump(rd: u8, imm: i64, pc_offset: u16, insn_len: u8)
    ensures
        short_text(MicroOp::Jal { rd, imm, pc_offset, insn_len }) == noted("jal"@, seq![x(rd), dec_signed(imm as int)]),
{
    lemma_short_jump("jal"@, rd, imm);
}

/// Instructions without operands.
#[verifier::spinoff_prover]
pub proof fn law_notation_alone(pc_offset: u16)
    ensures
        short_text(MicroOp::Ecall { pc_offset }) == "ecall"@,
        short_text(MicroOp::Ebreak { pc_offset }) == "ebreak"@,
        short_text(MicroOp::Mret { pc_offset }) == "mret"@,
        short_text(MicroOp::Sret { pc_offset }) == "sret"@,
        short_text(MicroOp::Wfi { pc_offset }) == "wfi"@,
        short_text(MicroOp::SfenceVma { pc_offset }) == "sfence.vma"@,
        short_text(MicroOp::Fence) == "fence"@,
{
}

/// Instructions on control registers: the destination, the number and the operand.
#[verifier::spinoff_prover]
pub proof fn law_notation_csr(rd: u8, rs1: u8, csr: u16, pc_offset: u16)
    ensures
        short_text(MicroOp::Csrrw { rd, rs1, csr, pc_offset }) == noted("csrrw"@, seq![x(rd), numbered(csr), x(rs1)]),
        short_text(MicroOp::Csrrs { rd, rs1, csr, pc_offset }) == noted("csrrs"@, seq![x(rd), numbered(csr), x(rs1)]),
        short_text(MicroOp::Csrrc { rd, rs1, csr, pc_offset }) == noted("csrrc"@, seq![x(rd), numbered(csr), x(rs1)]),
{
    lemma_short_csr("csrrw"@, rd, csr, rs1);
    lemma_short_csr("csrrs"@, rd, csr, rs1);
    lemma_short_csr("csrrc"@, rd, csr, rs1);
}

/// Instructions on control registers with a number for an operand.
#[verifier::spinoff_prover]
pub proof fn law_notation_csr_imm(rd: u8, zimm: u8, csr: u16, pc_offset: u16)
    ensures
        short_text(MicroOp::Csrrwi { rd, zimm, csr, pc_offset }) == noted("csrrwi"@, seq![x(rd), numbered(csr), dec(zimm as nat)]),
        short_text(MicroOp::Csrrsi { rd, zimm, csr, pc_offset }) == noted("csrrsi"@, seq![x(rd), numbered(csr), dec(zimm as nat)]),
        short_text(MicroOp::Csrrci { rd, zimm, csr, pc_offset }) == noted("csrrci"@, seq![x(rd), numbered(csr), dec(zimm as nat)]),
{
    lemma_short_csr_imm("csrrwi"@, rd, csr, zimm);
    lemma_short_csr_imm("csrrsi"@, rd, csr, zimm);
    lemma_short_csr_imm("csrrci"@, rd, csr, zimm);
}

/// Loads that reserve: the destination and where the address stands.
#[verifier::spinoff_prover]
pub proof fn law_notation_lr(rd: u8, rs1: u8, pc_offset: u16)
    ensures
        short_text(MicroOp::LrW { rd, rs1, pc_offset }) == noted("lr.w"@, seq![x(rd), at(rs1)]),
        short_text(MicroOp::LrD { rd, rs1, pc_offset }) == noted("lr.d"@, seq![x(rd), at(rs1)]),
{
    lemma_short_lr("lr.w"@, rd, rs1);
    lemma_short_lr("lr.d"@, rd, rs1);
}

/// Conditional stores: the destination, the value, and where the address stands.
#[verifier::spinoff_prover]
pub proof fn law_notation_sc(rd: u8, rs1: u8, rs2: u8, pc_offset: u16)
    ensures
        short_text(MicroOp::ScW { rd, rs1, rs2, pc_offset }) == noted("sc.w"@, seq![x(rd), x(rs2), at(rs1)]),
        short_text(MicroOp::ScD { rd, rs1, rs2, pc_offset }) == noted("sc.d"@, seq![x(rd), x(rs2), at(rs1)]),
{
    lemma_short_sc("sc.w"@, rd, rs2, rs1);
    lemma_short_sc("sc.d"@, rd, rs2, rs1);
}

/// Atomic updates: the destination, the value, and where the address stands.
#[verifier::spinoff_prover]
pub proof fn law_notation_amo(rd: u8, rs1: u8, rs2: u8, is_word: bool, pc_offset: u16)
    ensures
        short_text(MicroOp::AmoSwap { rd, rs1, rs2, is_word, pc_offset }) == noted("amoswap"@ + width(is_word), seq![x(rd), x(rs2), at(rs1)]),
        short_text(MicroOp::AmoAdd { rd, rs1, rs2, is_word, pc_offset }) == noted("amoadd"@ + width(is_word), seq![x(rd), x(rs2), at(rs1)]),
        short_text(MicroOp::AmoXor { rd, rs1, rs2, is_word, pc_offset }) == noted("amoxor"@ + width(is_word), seq![x(rd), x(rs2), at(rs1)]),
        short_text(MicroOp::AmoAnd { rd, rs1, rs2, is_word, pc_offset }) == noted("amoand"@ + width(is_word), seq![x(rd), x(rs2), at(rs1)]),
        short_text(MicroOp::AmoOr { rd, rs1, rs2, is_word, pc_offset }) == noted("amoor"@ + width(is_word), seq![x(rd), x(rs2), at(rs1)]),
        short_text(MicroOp::AmoMin { rd, rs1, rs2, is_word, pc_offset }) == noted("amomin"@ + width(is_word), seq![x(rd), x(rs2), at(rs1)]),
        short_text(MicroOp::AmoMax { rd, rs1, rs2, is_word, pc_offset }) == noted("amomax"@ + width(is_word), seq![x(rd), x(rs2), at(rs1)]),
        short_text(MicroOp::AmoMinu { rd, rs1, rs2, is_word, pc_offset }) == noted("amominu"@ + width(is_word), seq![x(rd), x(rs2), at(rs1)]),
        short_text(MicroOp::AmoMaxu { rd, rs1, rs2, is_word, pc_offset }) == noted("amomaxu"@ + width(is_word), seq![x(rd), x(rs2), at(rs1)]),
{
    reveal_strlit(".w");
    reveal_strlit(".d");
    assert(width_suffix(is_word) =~= width(is_word));
    lemma_short_amo("amoswap"@, is_word, rd, rs2, rs1);
    lemma_short_amo("amoadd"@, is_word, rd, rs2, rs1);
    lemma_short_amo("amoxor"@, is_word, rd, rs2, rs1);
    lemma_short_amo("amoand"@, is_word, rd, rs2, rs1);
    lemma_short_amo("amoor"@, is_word, rd, rs2, rs1);
    lemma_short_amo("amomin"@, is_word, rd, rs2, rs1);
    lemma_short_amo("amomax"@, is_word, rd, rs2, rs1);
    lemma_short_amo("amominu"@, is_word, rd, rs2, rs1);
    lemma_short_amo("amomaxu"@, is_word, rd, rs2, rs1);
}

/// Registers can be told apart by their notation.
pub proof fn law_registers_are_told_apart(a: u8, b: u8)
    ensures
        x(a) == x(b) <==> a == b,
        at(a) == at(b) <==> a == b,
{
    crate::text::law_numbers_read_back(a as nat);
    crate::text::law_numbers_read_back(b as nat);
    assert(x(a).skip(1) =~= dec(a as nat));
    assert(x(b).skip(1) =~= dec(b as nat));
    assert(at(a).subrange(1, at(a).len() - 1) =~= x(a));
    assert(at(b).subrange(1, at(b).len() - 1) =~= x(b));
}

/// The fields of an instruction with their values.
pub open spec fn fields(parts: Seq<(Seq<char>, Seq<char>)>) -> Seq<char>
    decreases parts.len(),
{
    if parts.len() == 0 {
        Seq::empty()
    } else {
        fields(parts.drop_last()) + (if parts.len() == 1 {
            seq![' ', '{', ' ']
        } else {
            seq![',', ' ']
        }) + parts.last().0 + seq![':', ' '] + parts.last().1
    }
}

/// An instruction by its name and its fields.
pub open spec fn record(name: Seq<char>, parts: Seq<(Seq<char>, Seq<char>)>) -> Seq<char> {
    name + fields(parts) + seq![' ', '}']
}

/// One field more.
proof fn lemma_field(parts: Seq<(Seq<char>, Seq<char>)>, name: Seq<char>, value: Seq<char>)
    ensures
        fields(parts.push((name, value))) == fields(parts) + (if parts.len() == 0 {
            seq![' ', '{', ' ']
        } else {
            seq![',', ' ']
        }) + name + seq![':', ' '] + value,
{
    assert(parts.push((name, value)).drop_last() =~= parts);
}

proof fn lemma_debug_imm(name: Seq<char>, rd: u8, rs1: u8, imm: i64)
    ensures
        debug_imm(name, rd, rs1, imm) == record(name, seq![("rd"@, dec(rd as nat)), ("rs1"@, dec(rs1 as nat)), ("imm"@, dec_signed(imm as int))]),
{
    reveal_strlit(" }");
    let parts: Seq<(Seq<char>, Seq<char>)> = Seq::empty();
    let text = name;
    assert(text =~= name + fields(parts));
    reveal_strlit("rd");
    reveal_strlit(" { rd: ");
    assert(" { rd: "@ =~= seq![' ', '{', ' '] + "rd"@ + seq![':', ' ']);
    lemma_field(parts, "rd"@, dec(rd as nat));
    assert(text + " { rd: "@ + dec(rd as nat) =~= name + fields(parts.push(("rd"@, dec(rd as nat)))));
    let text = text + " { rd: "@ + dec(rd as nat);
    let parts = parts.push(("rd"@, dec(rd as nat)));
    reveal_strlit("rs1");
    reveal_strlit(", rs1: ");
    assert(", rs1: "@ =~= seq![',', ' '] + "rs1"@ + seq![':', ' ']);
    lemma_field(parts, "rs1"@, dec(rs1 as nat));
    assert(text + ", rs1: "@ + dec(rs1 as nat) =~= name + fields(parts.push(("rs1"@, dec(rs1 as nat)))));
    let text = text + ", rs1: "@ + dec(rs1 as nat);
    let parts = parts.push(("rs1"@, dec(rs1 as nat)));
    reveal_strlit("imm");
    reveal_strlit(", imm: ");
    assert(", imm: "@ =~= seq![',', ' '] + "imm"@ + seq![':', ' ']);
    lemma_field(parts, "imm"@, dec_signed(imm as int));
    assert(text + ", imm: "@ + dec_signed(imm as int) =~= name + fields(parts.push(("imm"@, dec_signed(imm as int)))));
    let text = text + ", imm: "@ + dec_signed(imm as int);
    let parts = parts.push(("imm"@, dec_signed(imm as int)));
    assert(parts =~= seq![("rd"@, dec(rd as nat)), ("rs1"@, dec(rs1 as nat)), ("imm"@, dec_signed(imm as int))]);
    assert(" }"@ =~= seq![' ', '}']);
}

proof fn lemma_debug_shamt(name: Seq<char>, rd: u8, rs1: u8, shamt: u8)
    ensures
        debug_shamt(name, rd, rs1, shamt) == record(name, seq![("rd"@, dec(rd as nat)), ("rs1"@, dec(rs1 as nat)), ("shamt"@, dec(shamt as nat))]),
{
    reveal_strlit(" }");
    let parts: Seq<(Seq<char>, Seq<char>)> = Seq::empty();
    let text = name;
    assert(text =~= name + fields(parts));
    reveal_strlit("rd");
    reveal_strlit(" { rd: ");
    assert(" { rd: "@ =~= seq![' ', '{', ' '] + "rd"@ + seq![':', ' ']);
    lemma_field(parts, "rd"@, dec(rd as nat));
    assert(text + " { rd: "@ + dec(rd as nat) =~= name + fields(parts.push(("rd"@, dec(rd as nat)))));
    let text = text + " { rd: "@ + dec(rd as nat);
    let parts = parts.push(("rd"@, dec(rd as nat)));
    reveal_strlit("rs1");
    reveal_strlit(", rs1: ");
    assert(", rs1: "@ =~= seq![',', ' '] + "rs1"@ + seq![':', ' ']);
    lemma_field(parts, "rs1"@, dec(rs1 as nat));
    assert(text + ", rs1: "@ + dec(rs1 as nat) =~= name + fields(parts.push(("rs1"@, dec(rs1 as nat)))));
    let text = text + ", rs1: "@ + dec(rs1 as nat);
    let parts = parts.push(("rs1"@, dec(rs1 as nat)));
    reveal_strlit("shamt");
    reveal_strlit(", shamt: ");
    assert(", shamt: "@ =~= seq![',', ' '] + "shamt"@ + seq![':', ' ']);
    lemma_field(parts, "shamt"@, dec(shamt as nat));
    assert(text + ", shamt: "@ + dec(shamt as nat) =~= name + fields(parts.push(("shamt"@, dec(shamt as nat)))));
    let text = text + ", shamt: "@ + dec(shamt as nat);
    let parts = parts.push(("shamt"@, dec(shamt as nat)));
    assert(parts =~= seq![("rd"@, dec(rd as nat)), ("rs1"@, dec(rs1 as nat)), ("shamt"@, dec(shamt as nat))]);
    assert(" }"@ =~= seq![' ', '}']);
}

proof fn lemma_debug_regs(name: Seq<char>, rd: u8, rs1: u8, rs2: u8)
    ensures
        debug_regs(name, rd, rs1, rs2) == record(name, seq![("rd"@, dec(rd as nat)), ("rs1"@, dec(rs1 as nat)), ("rs2"@, dec(rs2 as nat))]),
{
    reveal_strlit(" }");
    let parts: Seq<(Seq<char>, Seq<char>)> = Seq::empty();
    let text = name;
    assert(text =~= name + fields(parts));
    reveal_strlit("rd");
    reveal_strlit(" { rd: ");
    assert(" { rd: "@ =~= seq![' ', '{', ' '] + "rd"@ + seq![':', ' ']);
    lemma_field(parts, "rd"@, dec(rd as nat));
    assert(text + " { rd: "@ + dec(rd as nat) =~= name + fields(parts.push(("rd"@, dec(rd as nat)))));
    let text = text + " { rd: "@ + dec(rd as nat);
    let parts = parts.push(("rd"@, dec(rd as nat)));
    reveal_strlit("rs1");
    reveal_strlit(", rs1: ");
    assert(", rs1: "@ =~= seq![',', ' '] + "rs1"@ + seq![':', ' ']);
    lemma_field(parts, "rs1"@, dec(rs1 as nat));
    assert(text + ", rs1: "@ + dec(rs1 as nat) =~= name + fields(parts.push(("rs1"@, dec(rs1 as nat)))));
    let text = text + ", rs1: "@ + dec(rs1 as nat);
    let parts = parts.push(("rs1"@, dec(rs1 as nat)));
    reveal_strlit("rs2");
    reveal_strlit(", rs2: ");
    assert(", rs2: "@ =~= seq![',', ' '] + "rs2"@ + seq![':', ' ']);
    lemma_field(parts, "rs2"@, dec(rs2 as nat));
    assert(text + ", rs2: "@ + dec(rs2 as nat) =~= name + fields(parts.push(("rs2"@, dec(rs2 as nat)))));
    let text = text + ", rs2: "@ + dec(rs2 as nat);
    let parts = parts.push(("rs2"@, dec(rs2 as nat)));
    assert(parts =~= seq![("rd"@, dec(rd as nat)), ("rs1"@, dec(rs1 as nat)), ("rs2"@, dec(rs2 as nat))]);
    assert(" }"@ =~= seq![' ', '}']);
}

proof fn lemma_debug_upper(name: Seq<char>, rd: u8, imm: i64)
    ensures
        debug_upper(name, rd, imm) == record(name, seq![("rd"@, dec(rd as nat)), ("imm"@, dec_signed(imm as int))]),
{
    reveal_strlit(" }");
    let parts: Seq<(Seq<char>, Seq<char>)> = Seq::empty();
    let text = name;
    assert(text =~= name + fields(parts));
    reveal_strlit("rd");
    reveal_strlit(" { rd: ");
    assert(" { rd: "@ =~= seq![' ', '{', ' '] + "rd"@ + seq![':', ' ']);
    lemma_field(parts, "rd"@, dec(rd as nat));
    assert(text + " { rd: "@ + dec(rd as nat) =~= name + fields(parts.push(("rd"@, dec(rd as nat)))));
    let text = text + " { rd: "@ + dec(rd as nat);
    let parts = parts.push(("rd"@, dec(rd as nat)));
    reveal_strlit("imm");
    reveal_strlit(", imm: ");
    assert(", imm: "@ =~= seq![',', ' '] + "imm"@ + seq![':', ' ']);
    lemma_field(parts, "imm"@, dec_signed(imm as int));
    assert(text + ", imm: "@ + dec_signed(imm as int) =~= name + fields(parts.push(("imm"@, dec_signed(imm as int)))));
    let text = text + ", imm: "@ + dec_signed(imm as int);
    let parts = parts.push(("imm"@, dec_signed(imm as int)));
    assert(parts =~= seq![("rd"@, dec(rd as nat)), ("imm"@, dec_signed(imm as int))]);
    assert(" }"@ =~= seq![' ', '}']);
}

proof fn lemma_debug_upper_pc(name: Seq<char>, rd: u8, imm: i64, pc_offset: u16)
    ensures
        debug_upper_pc(name, rd, imm, pc_offset) == record(name, seq![("rd"@, dec(rd as nat)), ("imm"@, dec_signed(imm as int)), ("pc_offset"@, dec(pc_offset as nat))]),
{
    reveal_strlit(" }");
    let parts: Seq<(Seq<char>, Seq<char>)> = Seq::empty();
    let text = name;
    assert(text =~= name + fields(parts));
    reveal_strlit("rd");
    reveal_strlit(" { rd: ");
    assert(" { rd: "@ =~= seq![' ', '{', ' '] + "rd"@ + seq![':', ' ']);
    lemma_field(parts, "rd"@, dec(rd as nat));
    assert(text + " { rd: "@ + dec(rd as nat) =~= name + fields(parts.push(("rd"@, dec(rd as nat)))));
    let text = text + " { rd: "@ + dec(rd as nat);
    let parts = parts.push(("rd"@, dec(rd as nat)));
    reveal_strlit("imm");
    reveal_strlit(", imm: ");
    assert(", imm: "@ =~= seq![',', ' '] + "imm"@ + seq![':', ' ']);
    lemma_field(parts, "imm"@, dec_signed(imm as int));
    assert(text + ", imm: "@ + dec_signed(imm as int) =~= name + fields(parts.push(("imm"@, dec_signed(imm as int)))));
    let text = text + ", imm: "@ + dec_signed(imm as int);
    let parts = parts.push(("imm"@, dec_signed(imm as int)));
    reveal_strlit("pc_offset");
    reveal_strlit(", pc_offset: ");
    assert(", pc_offset: "@ =~= seq![',', ' '] + "pc_offset"@ + seq![':', ' ']);
    lemma_field(parts, "pc_offset"@, dec(pc_offset as nat));
    assert(text + ", pc_offset: "@ + dec(pc_offset as nat) =~= name + fields(parts.push(("pc_offset"@, dec(pc_offset as nat)))));
    let text = text + ", pc_offset: "@ + dec(pc_offset as nat);
    let parts = parts.push(("pc_offset"@, dec(pc_offset as nat)));
    assert(parts =~= seq![("rd"@, dec(rd as nat)), ("imm"@, dec_signed(imm as int)), ("pc_offset"@, dec(pc_offset as nat))]);
    assert(" }"@ =~= seq![' ', '}']);
}

proof fn lemma_debug_load(name: Seq<char>, rd: u8, rs1: u8, imm: i64, pc_offset: u16)
    ensures
        debug_load(name, rd, rs1, imm, pc_offset) == record(name, seq![("rd"@, dec(rd as nat)), ("rs1"@, dec(rs1 as nat)), ("imm"@, dec_signed(imm as int)), ("pc_offset"@, dec(pc_offset as nat))]),
{
    reveal_strlit(" }");
    let parts: Seq<(Seq<char>, Seq<char>)> = Seq::empty();
    let text = name;
    assert(text =~= name + fields(parts));
    reveal_strlit("rd");
    reveal_strlit(" { rd: ");
    assert(" { rd: "@ =~= seq![' ', '{', ' '] + "rd"@ + seq![':', ' ']);
    lemma_field(parts, "rd"@, dec(rd as nat));
    assert(text + " { rd: "@ + dec(rd as nat) =~= name + fields(parts.push(("rd"@, dec(rd as nat)))));
    let text = text + " { rd: "@ + dec(rd as nat);
    let parts = parts.push(("rd"@, dec(rd as nat)));
    reveal_strlit("rs1");
    reveal_strlit(", rs1: ");
    assert(", rs1: "@ =~= seq![',', ' '] + "rs1"@ + seq![':', ' ']);
    lemma_field(parts, "rs1"@, dec(rs1 as nat));
    assert(text + ", rs1: "@ + dec(rs1 as nat) =~= name + fields(parts.push(("rs1"@, dec(rs1 as nat)))));
    let text = text + ", rs1: "@ + dec(rs1 as nat);
    let parts = parts.push(("rs1"@, dec(rs1 as nat)));
    reveal_strlit("imm");
    reveal_strlit(", imm: ");
    assert(", imm: "@ =~= seq![',', ' '] + "imm"@ + seq![':', ' ']);
    lemma_field(parts, "imm"@, dec_signed(imm as int));
    assert(text + ", imm: "@ + dec_signed(imm as int) =~= name + fields(parts.push(("imm"@, dec_signed(imm as int)))));
    let text = text + ", imm: "@ + dec_signed(imm as int);
    let parts = parts.push(("imm"@, dec_signed(imm as int)));
    reveal_strlit("pc_offset");
    reveal_strlit(", pc_offset: ");
    assert(", pc_offset: "@ =~= seq![',', ' '] + "pc_offset"@ + seq![':', ' ']);
    lemma_field(parts, "pc_offset"@, dec(pc_offset as nat));
    assert(text + ", pc_offset: "@ + dec(pc_offset as nat) =~= name + fields(parts.push(("pc_offset"@, dec(pc_offset as nat)))));
    let text = text + ", pc_offset: "@ + dec(pc_offset as nat);
    let parts = parts.push(("pc_offset"@, dec(pc_offset as nat)));
    assert(parts =~= seq![("rd"@, dec(rd as nat)), ("rs1"@, dec(rs1 as nat)), ("imm"@, dec_signed(imm as int)), ("pc_offset"@, dec(pc_offset as nat))]);
    assert(" }"@ =~= seq![' ', '}']);
}

proof fn lemma_debug_store(name: Seq<char>, rs1: u8, rs2: u8, imm: i64, pc_offset: u16)
    ensures
        debug_store(name, rs1, rs2, imm, pc_offset) == record(name, seq![("rs1"@, dec(rs1 as nat)), ("rs2"@, dec(rs2 as nat)), ("imm"@, dec_signed(imm as int)), ("pc_offset"@, dec(pc_offset as nat))]),
{
    reveal_strlit(" }");
    let parts: Seq<(Seq<char>, Seq<char>)> = Seq::empty();
    let text = name;
    assert(text =~= name + fields(parts));
    reveal_strlit("rs1");
    reveal_strlit(" { rs1: ");
    assert(" { rs1: "@ =~= seq![' ', '{', ' '] + "rs1"@ + seq![':', ' ']);
    lemma_field(parts, "rs1"@, dec(rs1 as nat));
    assert(text + " { rs1: "@ + dec(rs1 as nat) =~= name + fields(parts.push(("rs1"@, dec(rs1 as nat)))));
    let text = text + " { rs1: "@ + dec(rs1 as nat);
    let parts = parts.push(("rs1"@, dec(rs1 as nat)));
    reveal_strlit("rs2");
    reveal_strlit(", rs2: ");
    assert(", rs2: "@ =~= seq![',', ' '] + "rs2"@ + seq![':', ' ']);
    lemma_field(parts, "rs2"@, dec(rs2 as nat));
    assert(text + ", rs2: "@ + dec(rs2 as nat) =~= name + fields(parts.push(("rs2"@, dec(rs2 as nat)))));
    let text = text + ", rs2: "@ + dec(rs2 as nat);
    let parts = parts.push(("rs2"@, dec(rs2 as nat)));
    reveal_strlit("imm");
    reveal_strlit(", imm: ");
    assert(", imm: "@ =~= seq![',', ' '] + "imm"@ + seq![':', ' ']);
    lemma_field(parts, "imm"@, dec_signed(imm as int));
    assert(text + ", imm: "@ + dec_signed(imm as int) =~= name + fields(parts.push(("imm"@, dec_signed(imm as int)))));
    let text = text + ", imm: "@ + dec_signed(imm as int);
    let parts = parts.push(("imm"@, dec_signed(imm as int)));
    reveal_strlit("pc_offset");
    reveal_strlit(", pc_offset: ");
    assert(", pc_offset: "@ =~= seq![',', ' '] + "pc_offset"@ + seq![':', ' ']);
    lemma_field(parts, "pc_offset"@, dec(pc_offset as nat));
    assert(text + ", pc_offset: "@ + dec(pc_offset as nat) =~= name + fields(parts.push(("pc_offset"@, dec(pc_offset as nat)))));
    let text = text + ", pc_offset: "@ + dec(pc_offset as nat);
    let parts = parts.push(("pc_offset"@, dec(pc_offset as nat)));
    assert(parts =~= seq![("rs1"@, dec(rs1 as nat)), ("rs2"@, dec(rs2 as nat)), ("imm"@, dec_signed(imm as int)), ("pc_offset"@, dec(pc_offset as nat))]);
    assert(" }"@ =~= seq![' ', '}']);
}

proof fn lemma_debug_branch(name: Seq<char>, rs1: u8, rs2: u8, imm: i64, pc_offset: u16, insn_len: u8)
    ensures
        debug_branch(name, rs1, rs2, imm, pc_offset, insn_len) == record(name, seq![("rs1"@, dec(rs1 as nat)), ("rs2"@, dec(rs2 as nat)), ("imm"@, dec_signed(imm as int)), ("pc_offset"@, dec(pc_offset as nat)), ("insn_len"@, dec(insn_len as nat))]),
{
    reveal_strlit(" }");
    let parts: Seq<(Seq<char>, Seq<char>)> = Seq::empty();
    let text = name;
    assert(text =~= name + fields(parts));
    reveal_strlit("rs1");
    reveal_strlit(" { rs1: ");
    assert(" { rs1: "@ =~= seq![' ', '{', ' '] + "rs1"@ + seq![':', ' ']);
    lemma_field(parts, "rs1"@, dec(rs1 as nat));
    assert(text + " { rs1: "@ + dec(rs1 as nat) =~= name + fields(parts.push(("rs1"@, dec(rs1 as nat)))));
    let text = text + " { rs1: "@ + dec(rs1 as nat);
    let parts = parts.push(("rs1"@, dec(rs1 as nat)));
    reveal_strlit("rs2");
    reveal_strlit(", rs2: ");
    assert(", rs2: "@ =~= seq![',', ' '] + "rs2"@ + seq![':', ' ']);
    lemma_field(parts, "rs2"@, dec(rs2 as nat));
    assert(text + ", rs2: "@ + dec(rs2 as nat) =~= name + fields(parts.push(("rs2"@, dec(rs2 as nat)))));
    let text = text + ", rs2: "@ + dec(rs2 as nat);
    let parts = parts.push(("rs2"@, dec(rs2 as nat)));
    reveal_strlit("imm");
    reveal_strlit(", imm: ");
    assert(", imm: "@ =~= seq![',', ' '] + "imm"@ + seq![':', ' ']);
    lemma_field(parts, "imm"@, dec_signed(imm as int));
    assert(text + ", imm: "@ + dec_signed(imm as int) =~= name + fields(parts.push(("imm"@, dec_signed(imm as int)))));
    let text = text + ", imm: "@ + dec_signed(imm as int);
    let parts = parts.push(("imm"@, dec_signed(imm as int)));
    reveal_strlit("pc_offset");
    reveal_strlit(", pc_offset: ");
    assert(", pc_offset: "@ =~= seq![',', ' '] + "pc_offset"@ + seq![':', ' ']);
    lemma_field(parts, "pc_offset"@, dec(pc_offset as nat));
    assert(text + ", pc_offset: "@ + dec(pc_offset as nat) =~= name + fields(parts.push(("pc_offset"@, dec(pc_offset as nat)))));
    let text = text + ", pc_offset: "@ + dec(pc_offset as nat);
    let parts = parts.push(("pc_offset"@, dec(pc_offset as nat)));
    reveal_strlit("insn_len");
    reveal_strlit(", insn_len: ");
    assert(", insn_len: "@ =~= seq![',', ' '] + "insn_len"@ + seq![':', ' ']);
    lemma_field(parts, "insn_len"@, dec(insn_len as nat));
    assert(text + ", insn_len: "@ + dec(insn_len as nat) =~= name + fields(parts.push(("insn_len"@, dec(insn_len as nat)))));
    let text = text + ", insn_len: "@ + dec(insn_len as nat);
    let parts = parts.push(("insn_len"@, dec(insn_len as nat)));
    assert(parts =~= seq![("rs1"@, dec(rs1 as nat)), ("rs2"@, dec(rs2 as nat)), ("imm"@, dec_signed(imm as int)), ("pc_offset"@, dec(pc_offset as nat)), ("insn_len"@, dec(insn_len as nat))]);
    assert(" }"@ =~= seq![' ', '}']);
}

proof fn lemma_debug_jal(name: Seq<char>, rd: u8, imm: i64, pc_offset: u16, insn_len: u8)
    ensures
        debug_jal(name, rd, imm, pc_offset, insn_len) == record(name, seq![("rd"@, dec(rd as nat)), ("imm"@, dec_signed(imm as int)), ("pc_offset"@, dec(pc_offset as nat)), ("insn_len"@, dec(insn_len as nat))]),
{
    reveal_strlit(" }");
    let parts: Seq<(Seq<char>, Seq<char>)> = Seq::empty();
    let text = name;
    assert(text =~= name + fields(parts));
    reveal_strlit("rd");
    reveal_strlit(" { rd: ");
    assert(" { rd: "@ =~= seq![' ', '{', ' '] + "rd"@ + seq![':', ' ']);
    lemma_field(parts, "rd"@, dec(rd as nat));
    assert(text + " { rd: "@ + dec(rd as nat) =~= name + fields(parts.push(("rd"@, dec(rd as nat)))));
    let text = text + " { rd: "@ + dec(rd as nat);
    let parts = parts.push(("rd"@, dec(rd as nat)));
    reveal_strlit("imm");
    reveal_strlit(", imm: ");
    assert(", imm: "@ =~= seq![',', ' '] + "imm"@ + seq![':', ' ']);
    lemma_field(parts, "imm"@, dec_signed(imm as int));
    assert(text + ", imm: "@ + dec_signed(imm as int) =~= name + fields(parts.push(("imm"@, dec_signed(imm as int)))));
    let text = text + ", imm: "@ + dec_signed(imm as int);
    let parts = parts.push(("imm"@, dec_signed(imm as int)));
    reveal_strlit("pc_offset");
    reveal_strlit(", pc_offset: ");
    assert(", pc_offset: "@ =~= seq![',', ' '] + "pc_offset"@ + seq![':', ' ']);
    lemma_field(parts, "pc_offset"@, dec(pc_offset as nat));
    assert(text + ", pc_offset: "@ + dec(pc_offset as nat) =~= name + fields(parts.push(("pc_offset"@, dec(pc_offset as nat)))));
    let text = text + ", pc_offset: "@ + dec(pc_offset as nat);
    let parts = parts.push(("pc_offset"@, dec(pc_offset as nat)));
    reveal_strlit("insn_len");
    reveal_strlit(", insn_len: ");
    assert(", insn_len: "@ =~= seq![',', ' '] + "insn_len"@ + seq![':', ' ']);
    lemma_field(parts, "insn_len"@, dec(insn_len as nat));
    assert(text + ", insn_len: "@ + dec(insn_len as nat) =~= name + fields(parts.push(("insn_len"@, dec(insn_len as nat)))));
    let text = text + ", insn_len: "@ + dec(insn_len as nat);
    let parts = parts.push(("insn_len"@, dec(insn_len as nat)));
    assert(parts =~= seq![("rd"@, dec(rd as nat)), ("imm"@, dec_signed(imm as int)), ("pc_offset"@, dec(pc_offset as nat)), ("insn_len"@, dec(insn_len as nat))]);
    assert(" }"@ =~= seq![' ', '}']);
}

proof fn lemma_debug_jalr(name: Seq<char>, rd: u8, rs1: u8, imm: i64, pc_offset: u16, insn_len: u8)
    ensures
        debug_jalr(name, rd, rs1, imm, pc_offset, insn_len) == record(name, seq![("rd"@, dec(rd as nat)), ("rs1"@, dec(rs1 as nat)), ("imm"@, dec_signed(imm as int)), ("pc_offset"@, dec(pc_offset as nat)), ("insn_len"@, dec(insn_len as nat))]),
{
    reveal_strlit(" }");
    let parts: Seq<(Seq<char>, Seq<char>)> = Seq::empty();
    let text = name;
    assert(text =~= name + fields(parts));
    reveal_strlit("rd");
    reveal_strlit(" { rd: ");
    assert(" { rd: "@ =~= seq![' ', '{', ' '] + "rd"@ + seq![':', ' ']);
    lemma_field(parts, "rd"@, dec(rd as nat));
    assert(text + " { rd: "@ + dec(rd as nat) =~= name + fields(parts.push(("rd"@, dec(rd as nat)))));
    let text = text + " { rd: "@ + dec(rd as nat);
    let parts = parts.push(("rd"@, dec(rd as nat)));
    reveal_strlit("rs1");
    reveal_strlit(", rs1: ");
    assert(", rs1: "@ =~= seq![',', ' '] + "rs1"@ + seq![':', ' ']);
    lemma_field(parts, "rs1"@, dec(rs1 as nat));
    assert(text + ", rs1: "@ + dec(rs1 as nat) =~= name + fields(parts.push(("rs1"@, dec(rs1 as nat)))));
    let text = text + ", rs1: "@ + dec(rs1 as nat);
    let parts = parts.push(("rs1"@, dec(rs1 as nat)));
    reveal_strlit("imm");
    reveal_strlit(", imm: ");
    assert(", imm: "@ =~= seq![',', ' '] + "imm"@ + seq![':', ' ']);
    lemma_field(parts, "imm"@, dec_signed(imm as int));
    assert(text + ", imm: "@ + dec_signed(imm as int) =~= name + fields(parts.push(("imm"@, dec_signed(imm as int)))));
    let text = text + ", imm: "@ + dec_signed(imm as int);
    let parts = parts.push(("imm"@, dec_signed(imm as int)));
    reveal_strlit("pc_offset");
    reveal_strlit(", pc_offset: ");
    assert(", pc_offset: "@ =~= seq![',', ' '] + "pc_offset"@ + seq![':', ' ']);
    lemma_field(parts, "pc_offset"@, dec(pc_offset as nat));
    assert(text + ", pc_offset: "@ + dec(pc_offset as nat) =~= name + fields(parts.push(("pc_offset"@, dec(pc_offset as nat)))));
    let text = text + ", pc_offset: "@ + dec(pc_offset as nat);
    let parts = parts.push(("pc_offset"@, dec(pc_offset as nat)));
    reveal_strlit("insn_len");
    reveal_strlit(", insn_len: ");
    assert(", insn_len: "@ =~= seq![',', ' '] + "insn_len"@ + seq![':', ' ']);
    lemma_field(parts, "insn_len"@, dec(insn_len as nat));
    assert(text + ", insn_len: "@ + dec(insn_len as nat) =~= name + fields(parts.push(("insn_len"@, dec(insn_len as nat)))));
    let text = text + ", insn_len: "@ + dec(insn_len as nat);
    let parts = parts.push(("insn_len"@, dec(insn_len as nat)));
    assert(parts =~= seq![("rd"@, dec(rd as nat)), ("rs1"@, dec(rs1 as nat)), ("imm"@, dec_signed(imm as int)), ("pc_offset"@, dec(pc_offset as nat)), ("insn_len"@, dec(insn_len as nat))]);
    assert(" }"@ =~= seq![' ', '}']);
}

proof fn lemma_debug_csr(name: Seq<char>, rd: u8, rs1: u8, csr: u16, pc_offset: u16)
    ensures
        debug_csr(name, rd, rs1, csr, pc_offset) == record(name, seq![("rd"@, dec(rd as nat)), ("rs1"@, dec(rs1 as nat)), ("csr"@, dec(csr as nat)), ("pc_offset"@, dec(pc_offset as nat))]),
{
    reveal_strlit(" }");
    let parts: Seq<(Seq<char>, Seq<char>)> = Seq::empty();
    let text = name;
    assert(text =~= name + fields(parts));
    reveal_strlit("rd");
    reveal_strlit(" { rd: ");
    assert(" { rd: "@ =~= seq![' ', '{', ' '] + "rd"@ + seq![':', ' ']);
    lemma_field(parts, "rd"@, dec(rd as nat));
    assert(text + " { rd: "@ + dec(rd as nat) =~= name + fields(parts.push(("rd"@, dec(rd as nat)))));
    let text = text + " { rd: "@ + dec(rd as nat);
    let parts = parts.push(("rd"@, dec(rd as nat)));
    reveal_strlit("rs1");
    reveal_strlit(", rs1: ");
    assert(", rs1: "@ =~= seq![',', ' '] + "rs1"@ + seq![':', ' ']);
    lemma_field(parts, "rs1"@, dec(rs1 as nat));
    assert(text + ", rs1: "@ + dec(rs1 as nat) =~= name + fields(parts.push(("rs1"@, dec(rs1 as nat)))));
    let text = text + ", rs1: "@ + dec(rs1 as nat);
    let parts = parts.push(("rs1"@, dec(rs1 as nat)));
    reveal_strlit("csr");
    reveal_strlit(", csr: ");
    assert(", csr: "@ =~= seq![',', ' '] + "csr"@ + seq![':', ' ']);
    lemma_field(parts, "csr"@, dec(csr as nat));
    assert(text + ", csr: "@ + dec(csr as nat) =~= name + fields(parts.push(("csr"@, dec(csr as nat)))));
    let text = text + ", csr: "@ + dec(csr as nat);
    let parts = parts.push(("csr"@, dec(csr as nat)));
    reveal_strlit("pc_offset");
    reveal_strlit(", pc_offset: ");
    assert(", pc_offset: "@ =~= seq![',', ' '] + "pc_offset"@ + seq![':', ' ']);
    lemma_field(parts, "pc_offset"@, dec(pc_offset as nat));
    assert(text + ", pc_offset: "@ + dec(pc_offset as nat) =~= name + fields(parts.push(("pc_offset"@, dec(pc_offset as nat)))));
    let text = text + ", pc_offset: "@ + dec(pc_offset as nat);
    let parts = parts.push(("pc_offset"@, dec(pc_offset as nat)));
    assert(parts =~= seq![("rd"@, dec(rd as nat)), ("rs1"@, dec(rs1 as nat)), ("csr"@, dec(csr as nat)), ("pc_offset"@, dec(pc_offset as nat))]);
    assert(" }"@ =~= seq![' ', '}']);
}

proof fn lemma_debug_csr_imm(name: Seq<char>, rd: u8, zimm: u8, csr: u16, pc_offset: u16)
    ensures
        debug_csr_imm(name, rd, zimm, csr, pc_offset) == record(name, seq![("rd"@, dec(rd as nat)), ("zimm"@, dec(zimm as nat)), ("csr"@, dec(csr as nat)), ("pc_offset"@, dec(pc_offset as nat))]),
{
    reveal_strlit(" }");
    let parts: Seq<(Seq<char>, Seq<char>)> = Seq::empty();
    let text = name;
    assert(text =~= name + fields(parts));
    reveal_strlit("rd");
    reveal_strlit(" { rd: ");
    assert(" { rd: "@ =~= seq![' ', '{', ' '] + "rd"@ + seq![':', ' ']);
    lemma_field(parts, "rd"@, dec(rd as nat));
    assert(text + " { rd: "@ + dec(rd as nat) =~= name + fields(parts.push(("rd"@, dec(rd as nat)))));
    let text = text + " { rd: "@ + dec(rd as nat);
    let parts = parts.push(("rd"@, dec(rd as nat)));
    reveal_strlit("zimm");
    reveal_strlit(", zimm: ");
    assert(", zimm: "@ =~= seq![',', ' '] + "zimm"@ + seq![':', ' ']);
    lemma_field(parts, "zimm"@, dec(zimm as nat));
    assert(text + ", zimm: "@ + dec(zimm as nat) =~= name + fields(parts.push(("zimm"@, dec(zimm as nat)))));
    let text = text + ", zimm: "@ + dec(zimm as nat);
    let parts = parts.push(("zimm"@, dec(zimm as nat)));
    reveal_strlit("csr");
    reveal_strlit(", csr: ");
    assert(", csr: "@ =~= seq![',', ' '] + "csr"@ + seq![':', ' ']);
    lemma_field(parts, "csr"@, dec(csr as nat));
    assert(text + ", csr: "@ + dec(csr as nat) =~= name + fields(parts.push(("csr"@, dec(csr as nat)))));
    let text = text + ", csr: "@ + dec(csr as nat);
    let parts = parts.push(("csr"@, dec(csr as nat)));
    reveal_strlit("pc_offset");
    reveal_strlit(", pc_offset: ");
    assert(", pc_offset: "@ =~= seq![',', ' '] + "pc_offset"@ + seq![':', ' ']);
    lemma_field(parts, "pc_offset"@, dec(pc_offset as nat));
    assert(text + ", pc_offset: "@ + dec(pc_offset as nat) =~= name + fields(parts.push(("pc_offset"@, dec(pc_offset as nat)))));
    let text = text + ", pc_offset: "@ + dec(pc_offset as nat);
    let parts = parts.push(("pc_offset"@, dec(pc_offset as nat)));
    assert(parts =~= seq![("rd"@, dec(rd as nat)), ("zimm"@, dec(zimm as nat)), ("csr"@, dec(csr as nat)), ("pc_offset"@, dec(pc_offset as nat))]);
    assert(" }"@ =~= seq![' ', '}']);
}

proof fn lemma_debug_system(name: Seq<char>, pc_offset: u16)
    ensures
        debug_system(name, pc_offset) == record(name, seq![("pc_offset"@, dec(pc_offset as nat))]),
{
    reveal_strlit(" }");
    let parts: Seq<(Seq<char>, Seq<char>)> = Seq::empty();
    let text = name;
    assert(text =~= name + fields(parts));
    reveal_strlit("pc_offset");
    reveal_strlit(" { pc_offset: ");
    assert(" { pc_offset: "@ =~= seq![' ', '{', ' '] + "pc_offset"@ + seq![':', ' ']);
    lemma_field(parts, "pc_offset"@, dec(pc_offset as nat));
    assert(text + " { pc_offset: "@ + dec(pc_offset as nat) =~= name + fields(parts.push(("pc_offset"@, dec(pc_offset as nat)))));
    let text = text + " { pc_offset: "@ + dec(pc_offset as nat);
    let parts = parts.push(("pc_offset"@, dec(pc_offset as nat)));
    assert(parts =~= seq![("pc_offset"@, dec(pc_offset as nat))]);
    assert(" }"@ =~= seq![' ', '}']);
}

proof fn lemma_debug_lr(name: Seq<char>, rd: u8, rs1: u8, pc_offset: u16)
    ensures
        debug_lr(name, rd, rs1, pc_offset) == record(name, seq![("rd"@, dec(rd as nat)), ("rs1"@, dec(rs1 as nat)), ("pc_offset"@, dec(pc_offset as nat))]),
{
    reveal_strlit(" }");
    let parts: Seq<(Seq<char>, Seq<char>)> = Seq::empty();
    let text = name;
    assert(text =~= name + fields(parts));
    reveal_strlit("rd");
    reveal_strlit(" { rd: ");
    assert(" { rd: "@ =~= seq![' ', '{', ' '] + "rd"@ + seq![':', ' ']);
    lemma_field(parts, "rd"@, dec(rd as nat));
    assert(text + " { rd: "@ + dec(rd as nat) =~= name + fields(parts.push(("rd"@, dec(rd as nat)))));
    let text = text + " { rd: "@ + dec(rd as nat);
    let parts = parts.push(("rd"@, dec(rd as nat)));
    reveal_strlit("rs1");
    reveal_strlit(", rs1: ");
    assert(", rs1: "@ =~= seq![',', ' '] + "rs1"@ + seq![':', ' ']);
    lemma_field(parts, "rs1"@, dec(rs1 as nat));
    assert(text + ", rs1: "@ + dec(rs1 as nat) =~= name + fields(parts.push(("rs1"@, dec(rs1 as nat)))));
    let text = text + ", rs1: "@ + dec(rs1 as nat);
    let parts = parts.push(("rs1"@, dec(rs1 as nat)));
    reveal_strlit("pc_offset");
    reveal_strlit(", pc_offset: ");
    assert(", pc_offset: "@ =~= seq![',', ' '] + "pc_offset"@ + seq![':', ' ']);
    lemma_field(parts, "pc_offset"@, dec(pc_offset as nat));
    assert(text + ", pc_offset: "@ + dec(pc_offset as nat) =~= name + fields(parts.push(("pc_offset"@, dec(pc_offset as nat)))));
    let text = text + ", pc_offset: "@ + dec(pc_offset as nat);
    let parts = parts.push(("pc_offset"@, dec(pc_offset as nat)));
    assert(parts =~= seq![("rd"@, dec(rd as nat)), ("rs1"@, dec(rs1 as nat)), ("pc_offset"@, dec(pc_offset as nat))]);
    assert(" }"@ =~= seq![' ', '}']);
}

proof fn lemma_debug_sc(name: Seq<char>, rd: u8, rs1: u8, rs2: u8, pc_offset: u16)
    ensures
        debug_sc(name, rd, rs1, rs2, pc_offset) == record(name, seq![("rd"@, dec(rd as nat)), ("rs1"@, dec(rs1 as nat)), ("rs2"@, dec(rs2 as nat)), ("pc_offset"@, dec(pc_offset as nat))]),
{
    reveal_strlit(" }");
    let parts: Seq<(Seq<char>, Seq<char>)> = Seq::empty();
    let text = name;
    assert(text =~= name + fields(parts));
    reveal_strlit("rd");
    reveal_strlit(" { rd: ");
    assert(" { rd: "@ =~= seq![' ', '{', ' '] + "rd"@ + seq![':', ' ']);
    lemma_field(parts, "rd"@, dec(rd as nat));
    assert(text + " { rd: "@ + dec(rd as nat) =~= name + fields(parts.push(("rd"@, dec(rd as nat)))));
    let text = text + " { rd: "@ + dec(rd as nat);
    let parts = parts.push(("rd"@, dec(rd as nat)));
    reveal_strlit("rs1");
    reveal_strlit(", rs1: ");
    assert(", rs1: "@ =~= seq![',', ' '] + "rs1"@ + seq![':', ' ']);
    lemma_field(parts, "rs1"@, dec(rs1 as nat));
    assert(text + ", rs1: "@ + dec(rs1 as nat) =~= name + fields(parts.push(("rs1"@, dec(rs1 as nat)))));
    let text = text + ", rs1: "@ + dec(rs1 as nat);
    let parts = parts.push(("rs1"@, dec(rs1 as nat)));
    reveal_strlit("rs2");
    reveal_strlit(", rs2: ");
    assert(", rs2: "@ =~= seq![',', ' '] + "rs2"@ + seq![':', ' ']);
    lemma_field(parts, "rs2"@, dec(rs2 as nat));
    assert(text + ", rs2: "@ + dec(rs2 as nat) =~= name + fields(parts.push(("rs2"@, dec(rs2 as nat)))));
    let text = text + ", rs2: "@ + dec(rs2 as nat);
    let parts = parts.push(("rs2"@, dec(rs2 as nat)));
    reveal_strlit("pc_offset");
    reveal_strlit(", pc_offset: ");
    assert(", pc_offset: "@ =~= seq![',', ' '] + "pc_offset"@ + seq![':', ' ']);
    lemma_field(parts, "pc_offset"@, dec(pc_offset as nat));
    assert(text + ", pc_offset: "@ + dec(pc_offset as nat) =~= name + fields(parts.push(("pc_offset"@, dec(pc_offset as nat)))));
    let text = text + ", pc_offset: "@ + dec(pc_offset as nat);
    let parts = parts.push(("pc_offset"@, dec(pc_offset as nat)));
    assert(parts =~= seq![("rd"@, dec(rd as nat)), ("rs1"@, dec(rs1 as nat)), ("rs2"@, dec(rs2 as nat)), ("pc_offset"@, dec(pc_offset as nat))]);
    assert(" }"@ =~= seq![' ', '}']);
}

proof fn lemma_debug_amo(name: Seq<char>, rd: u8, rs1: u8, rs2: u8, is_word: bool, pc_offset: u16)
    ensures
        debug_amo(name, rd, rs1, rs2, is_word, pc_offset) == record(name, seq![("rd"@, dec(rd as nat)), ("rs1"@, dec(rs1 as nat)), ("rs2"@, dec(rs2 as nat)), ("is_word"@, bool_text(is_word)), ("pc_offset"@, dec(pc_offset as nat))]),
{
    reveal_strlit(" }");
    let parts: Seq<(Seq<char>, Seq<char>)> = Seq::empty();
    let text = name;
    assert(text =~= name + fields(parts));
    reveal_strlit("rd");
    reveal_strlit(" { rd: ");
    assert(" { rd: "@ =~= seq![' ', '{', ' '] + "rd"@ + seq![':', ' ']);
    lemma_field(parts, "rd"@, dec(rd as nat));
    assert(text + " { rd: "@ + dec(rd as nat) =~= name + fields(parts.push(("rd"@, dec(rd as nat)))));
    let text = text + " { rd: "@ + dec(rd as nat);
    let parts = parts.push(("rd"@, dec(rd as nat)));
    reveal_strlit("rs1");
    reveal_strlit(", rs1: ");
    assert(", rs1: "@ =~= seq![',', ' '] + "rs1"@ + seq![':', ' ']);
    lemma_field(parts, "rs1"@, dec(rs1 as nat));
    assert(text + ", rs1: "@ + dec(rs1 as nat) =~= name + fields(parts.push(("rs1"@, dec(rs1 as nat)))));
    let text = text + ", rs1: "@ + dec(rs1 as nat);
    let parts = parts.push(("rs1"@, dec(rs1 as nat)));
    reveal_strlit("rs2");
    reveal_strlit(", rs2: ");
    assert(", rs2: "@ =~= seq![',', ' '] + "rs2"@ + seq![':', ' ']);
    lemma_field(parts, "rs2"@, dec(rs2 as nat));
    assert(text + ", rs2: "@ + dec(rs2 as nat) =~= name + fields(parts.push(("rs2"@, dec(rs2 as nat)))));
    let text = text + ", rs2: "@ + dec(rs2 as nat);
    let parts = parts.push(("rs2"@, dec(rs2 as nat)));
    reveal_strlit("is_word");
    reveal_strlit(", is_word: ");
    assert(", is_word: "@ =~= seq![',', ' '] + "is_word"@ + seq![':', ' ']);
    lemma_field(parts, "is_word"@, bool_text(is_word));
    assert(text + ", is_word: "@ + bool_text(is_word) =~= name + fields(parts.push(("is_word"@, bool_text(is_word)))));
    let text = text + ", is_word: "@ + bool_text(is_word);
    let parts = parts.push(("is_word"@, bool_text(is_word)));
    reveal_strlit("pc_offset");
    reveal_strlit(", pc_offset: ");
    assert(", pc_offset: "@ =~= seq![',', ' '] + "pc_offset"@ + seq![':', ' ']);
    lemma_field(parts, "pc_offset"@, dec(pc_offset as nat));
    assert(text + ", pc_offset: "@ + dec(pc_offset as nat) =~= name + fields(parts.push(("pc_offset"@, dec(pc_offset as nat)))));
    let text = text + ", pc_offset: "@ + dec(pc_offset as nat);
    let parts = parts.push(("pc_offset"@, dec(pc_offset as nat)));
    assert(parts =~= seq![("rd"@, dec(rd as nat)), ("rs1"@, dec(rs1 as nat)), ("rs2"@, dec(rs2 as nat)), ("is_word"@, bool_text(is_word)), ("pc_offset"@, dec(pc_offset as nat))]);
    assert(" }"@ =~= seq![' ', '}']);
}

/// The record of an instruction has its name and all its fields in order.
#[verifier::spinoff_prover]
pub proof fn law_record_imm(rd: u8, rs1: u8, imm: i64, word_imm: i32)
    ensures
        debug_text(MicroOp::Addi { rd, rs1, imm }) == record(
            "Addi"@,
            seq![("rd"@, dec(rd as nat)), ("rs1"@, dec(rs1 as nat)), ("imm"@, dec_signed(imm as int))],
        ),
        debug_text(MicroOp::Xori { rd, rs1, imm }) == record(
            "Xori"@,
            seq![("rd"@, dec(rd as nat)), ("rs1"@, dec(rs1 as nat)), ("imm"@, dec_signed(imm as int))],
        ),
        debug_text(MicroOp::Ori { rd, rs1, imm }) == record(
            "Ori"@,
            seq![("rd"@, dec(rd as nat)), ("rs1"@, dec(rs1 as nat)), ("imm"@, dec_signed(imm as int))],
        ),
        debug_text(MicroOp::Andi { rd, rs1, imm }) == record(
            "Andi"@,
            seq![("rd"@, dec(rd as nat)), ("rs1"@, dec(rs1 as nat)), ("imm"@, dec_signed(imm as int))],
        ),
        debug_text(MicroOp::Slti { rd, rs1, imm }) == record(
            "Slti"@,
            seq![("rd"@, dec(rd as nat)), ("rs1"@, dec(rs1 as nat)), ("imm"@, dec_signed(imm as int))],
        ),
        debug_text(MicroOp::Sltiu { rd, rs1, imm }) == record(
            "Sltiu"@,
            seq![("rd"@, dec(rd as nat)), ("rs1"@, dec(rs1 as nat)), ("imm"@, dec_signed(imm as int))],
        ),
        debug_text(MicroOp::Addiw { rd, rs1, imm: word_imm }) == record(
            "Addiw"@,
            seq![("rd"@, dec(rd as nat)), ("rs1"@, dec(rs1 as nat)), ("imm"@, dec_signed(word_imm as int))],
        ),
{
    lemma_debug_imm("Addi"@, rd, rs1, imm);
    lemma_debug_imm("Xori"@, rd, rs1, imm);
    lemma_debug_imm("Ori"@, rd, rs1, imm);
    lemma_debug_imm("Andi"@, rd, rs1, imm);
    lemma_debug_imm("Slti"@, rd, rs1, imm);
    lemma_debug_imm("Sltiu"@, rd, rs1, imm);
    lemma_debug_imm("Addiw"@, rd, rs1, word_imm as i64);
}

/// The record of an instruction has its name and all its fields in order.
#[verifier::spinoff_prover]
pub proof fn law_record_shamt(rd: u8, rs1: u8, shamt: u8)
    ensures
        debug_text(MicroOp::Slli { rd, rs1, shamt }) == record(
            "Slli"@,
            seq![("rd"@, dec(rd as nat)), ("rs1"@, dec(rs1 as nat)), ("shamt"@, dec(shamt as nat))],
        ),
        debug_text(MicroOp::Srli { rd, rs1, shamt }) == record(
            "Srli"@,
            seq![("rd"@, dec(rd as nat)), ("rs1"@, dec(rs1 as nat)), ("shamt"@, dec(shamt as nat))],
        ),
        debug_text(MicroOp::Srai { rd, rs1, shamt }) == record(
            "Srai"@,
            seq![("rd"@, dec(rd as nat)), ("rs1"@, dec(rs1 as nat)), ("shamt"@, dec(shamt as nat))],
        ),
        debug_text(MicroOp::Slliw { rd, rs1, shamt }) == record(
            "Slliw"@,
            seq![("rd"@, dec(rd as nat)), ("rs1"@, dec(rs1 as nat)), ("shamt"@, dec(shamt as nat))],
        ),
        debug_text(MicroOp::Srliw { rd, rs1, shamt }) == record(
            "Srliw"@,
            seq![("rd"@, dec(rd as nat)), ("rs1"@, dec(rs1 as nat)), ("shamt"@, dec(shamt as nat))],
        ),
        debug_text(MicroOp::Sraiw { rd, rs1, shamt }) == record(
            "Sraiw"@,
            seq![("rd"@, dec(rd as nat)), ("rs1"@, dec(rs1 as nat)), ("shamt"@, dec(shamt as nat))],
        ),
{
    lemma_debug_shamt("Slli"@, rd, rs1, shamt);
    lemma_debug_shamt("Srli"@, rd, rs1, shamt);
    lemma_debug_shamt("Srai"@, rd, rs1, shamt);
    lemma_debug_shamt("Slliw"@, rd, rs1, shamt);
    lemma_debug_shamt("Srliw"@, rd, rs1, shamt);
    lemma_debug_shamt("Sraiw"@, rd, rs1, shamt);
}

/// The record of an instruction has its name and all its fields in order.
#[verifier::spinoff_prover]
pub proof fn law_record_regs(rd: u8, rs1: u8, rs2: u8)
    ensures
        debug_text(MicroOp::Add { rd, rs1, rs2 }) == record(
            "Add"@,
            seq![("rd"@, dec(rd as nat)), ("rs1"@, dec(rs1 as nat)), ("rs2"@, dec(rs2 as nat))],
        ),
        debug_text(MicroOp::Sub { rd, rs1, rs2 }) == record(
            "Sub"@,
            seq![("rd"@, dec(rd as nat)), ("rs1"@, dec(rs1 as nat)), ("rs2"@, dec(rs2 as nat))],
        ),
        debug_text(MicroOp::Xor { rd, rs1, rs2 }) == record(
            "Xor"@,
            seq![("rd"@, dec(rd as nat)), ("rs1"@, dec(rs1 as nat)), ("rs2"@, dec(rs2 as nat))],
        ),
        debug_text(MicroOp::Or { rd, rs1, rs2 }) == record(
            "Or"@,
            seq![("rd"@, dec(rd as nat)), ("rs1"@, dec(rs1 as nat)), ("rs2"@, dec(rs2 as nat))],
        ),
        debug_text(MicroOp::And { rd, rs1, rs2 }) == record(
            "And"@,
            seq![("rd"@, dec(rd as nat)), ("rs1"@, dec(rs1 as nat)), ("rs2"@, dec(rs2 as nat))],
        ),
        debug_text(MicroOp::Sll { rd, rs1, rs2 }) == record(
            "Sll"@,
            seq![("rd"@, dec(rd as nat)), ("rs1"@, dec(rs1 as nat)), ("rs2"@, dec(rs2 as nat))],
        ),
        debug_text(MicroOp::Srl { rd, rs1, rs2 }) == record(
            "Srl"@,
            seq![("rd"@, dec(rd as nat)), ("rs1"@, dec(rs1 as nat)), ("rs2"@, dec(rs2 as nat))],
        ),
        debug_text(MicroOp::Sra { rd, rs1, rs2 }) == record(
            "Sra"@,
            seq![("rd"@, dec(rd as nat)), ("rs1"@, dec(rs1 as nat)), ("rs2"@, dec(rs2 as nat))],
        ),
        debug_text(MicroOp::Slt { rd, rs1, rs2 }) == record(
            "Slt"@,
            seq![("rd"@, dec(rd as nat)), ("rs1"@, dec(rs1 as nat)), ("rs2"@, dec(rs2 as nat))],
        ),
        debug_text(MicroOp::Sltu { rd, rs1, rs2 }) == record(
            "Sltu"@,
            seq![("rd"@, dec(rd as nat)), ("rs1"@, dec(rs1 as nat)), ("rs2"@, dec(rs2 as nat))],
        ),
        debug_text(MicroOp::Addw { rd, rs1, rs2 }) == record(
            "Addw"@,
            seq![("rd"@, dec(rd as nat)), ("rs1"@, dec(rs1 as nat)), ("rs2"@, dec(rs2 as nat))],
        ),
        debug_text(MicroOp::Subw { rd, rs1, rs2 }) == record(
            "Subw"@,
            seq![("rd"@, dec(rd as nat)), ("rs1"@, dec(rs1 as nat)), ("rs2"@, dec(rs2 as nat))],
        ),
        debug_text(MicroOp::Sllw { rd, rs1, rs2 }) == record(
            "Sllw"@,
            seq![("rd"@, dec(rd as nat)), ("rs1"@, dec(rs1 as nat)), ("rs2"@, dec(rs2 as nat))],
        ),
        debug_text(MicroOp::Srlw { rd, rs1, rs2 }) == record(
            "Srlw"@,
            seq![("rd"@, dec(rd as nat)), ("rs1"@, dec(rs1 as nat)), ("rs2"@, dec(rs2 as nat))],
        ),
        debug_text(MicroOp::Sraw { rd, rs1, rs2 }) == record(
            "Sraw"@,
            seq![("rd"@, dec(rd as nat)), ("rs1"@, dec(rs1 as nat)), ("rs2"@, dec(rs2 as nat))],
        ),
        debug_text(MicroOp::Mul { rd, rs1, rs2 }) == record(
            "Mul"@,
            seq![("rd"@, dec(rd as nat)), ("rs1"@, dec(rs1 as nat)), ("rs2"@, dec(rs2 as nat))],
        ),
        debug_text(MicroOp::Mulh { rd, rs1, rs2 }) == record(
            "Mulh"@,
            seq![("rd"@, dec(rd as nat)), ("rs1"@, dec(rs1 as nat)), ("rs2"@, dec(rs2 as nat))],
        ),
        debug_text(MicroOp::Mulhsu { rd, rs1, rs2 }) == record(
            "Mulhsu"@,
            seq![("rd"@, dec(rd as nat)), ("rs1"@, dec(rs1 as nat)), ("rs2"@, dec(rs2 as nat))],
        ),
        debug_text(MicroOp::Mulhu { rd, rs1, rs2 }) == record(
            "Mulhu"@,
            seq![("rd"@, dec(rd as nat)), ("rs1"@, dec(rs1 as nat)), ("rs2"@, dec(rs2 as nat))],
        ),
        debug_text(MicroOp::Div { rd, rs1, rs2 }) == record(
            "Div"@,
            seq![("rd"@, dec(rd as nat)), ("rs1"@, dec(rs1 as nat)), ("rs2"@, dec(rs2 as nat))],
        ),
        debug_text(MicroOp::Divu { rd, rs1, rs2 }) == record(
            "Divu"@,
            seq![("rd"@, dec(rd as nat)), ("rs1"@, dec(rs1 as nat)), ("rs2"@, dec(rs2 as nat))],
        ),
        debug_text(MicroOp::Rem { rd, rs1, rs2 }) == record(
            "Rem"@,
            seq![("rd"@, dec(rd as nat)), ("rs1"@, dec(rs1 as nat)), ("rs2"@, dec(rs2 as nat))],
        ),
        debug_text(MicroOp::Remu { rd, rs1, rs2 }) == record(
            "Remu"@,
            seq![("rd"@, dec(rd as nat)), ("rs1"@, dec(rs1 as nat)), ("rs2"@, dec(rs2 as nat))],
        ),
        debug_text(MicroOp::Mulw { rd, rs1, rs2 }) == record(
            "Mulw"@,
            seq![("rd"@, dec(rd as nat)), ("rs1"@, dec(rs1 as nat)), ("rs2"@, dec(rs2 as nat))],
        ),
        debug_text(MicroOp::Divw { rd, rs1, rs2 }) == record(
            "Divw"@,
            seq![("rd"@, dec(rd as nat)), ("rs1"@, dec(rs1 as nat)), ("rs2"@, dec(rs2 as nat))],
        ),
        debug_text(MicroOp::Divuw { rd, rs1, rs2 }) == record(
            "Divuw"@,
            seq![("rd"@, dec(rd as nat)), ("rs1"@, dec(rs1 as nat)), ("rs2"@, dec(rs2 as nat))],
        ),
        debug_text(MicroOp::Remw { rd, rs1, rs2 }) == record(
            "Remw"@,
            seq![("rd"@, dec(rd as nat)), ("rs1"@, dec(rs1 as nat)), ("rs2"@, dec(rs2 as nat))],
        ),
        debug_text(MicroOp::Remuw { rd, rs1, rs2 }) == record(
            "Remuw"@,
            seq![("rd"@, dec(rd as nat)), ("rs1"@, dec(rs1 as nat)), ("rs2"@, dec(rs2 as nat))],
        ),
{
    lemma_debug_regs("Add"@, rd, rs1, rs2);
    lemma_debug_regs("Sub"@, rd, rs1, rs2);
    lemma_debug_regs("Xor"@, rd, rs1, rs2);
    lemma_debug_regs("Or"@, rd, rs1, rs2);
    lemma_debug_regs("And"@, rd, rs1, rs2);
    lemma_debug_regs("Sll"@, rd, rs1, rs2);
    lemma_debug_regs("Srl"@, rd, rs1, rs2);
    lemma_debug_regs("Sra"@, rd, rs1, rs2);
    lemma_debug_regs("Slt"@, rd, rs1, rs2);
    lemma_debug_regs("Sltu"@, rd, rs1, rs2);
    lemma_debug_regs("Addw"@, rd, rs1, rs2);
    lemma_debug_regs("Subw"@, rd, rs1, rs2);
    lemma_debug_regs("Sllw"@, rd, rs1, rs2);
    lemma_debug_regs("Srlw"@, rd, rs1, rs2);
    lemma_debug_regs("Sraw"@, rd, rs1, rs2);
    lemma_debug_regs("Mul"@, rd, rs1, rs2);
    lemma_debug_regs("Mulh"@, rd, rs1, rs2);
    lemma_debug_regs("Mulhsu"@, rd, rs1, rs2);
    lemma_debug_regs("Mulhu"@, rd, rs1, rs2);
    lemma_debug_regs("Div"@, rd, rs1, rs2);
    lemma_debug_regs("Divu"@, rd, rs1, rs2);
    lemma_debug_regs("Rem"@, rd, rs1, rs2);
    lemma_debug_regs("Remu"@, rd, rs1, rs2);
    lemma_debug_regs("Mulw"@, rd, rs1, rs2);
    lemma_debug_regs("Divw"@, rd, rs1, rs2);
    lemma_debug_regs("Divuw"@, rd, rs1, rs2);
    lemma_debug_regs("Remw"@, rd, rs1, rs2);
    lemma_debug_regs("Remuw"@, rd, rs1, rs2);
}

/// The record of an instruction has its name and all its fields in order.
#[verifier::spinoff_prover]
pub proof fn law_record_upper(rd: u8, imm: i64)
    ensures
        debug_text(MicroOp::Lui { rd, imm }) == record(
            "Lui"@,
            seq![("rd"@, dec(rd as nat)), ("imm"@, dec_signed(imm as int))],
        ),
{
    lemma_debug_upper("Lui"@, rd, imm);
}

/// The record of an instruction has its name and all its fields in order.
#[verifier::spinoff_prover]
pub proof fn law_record_upper_pc(rd: u8, imm: i64, pc_offset: u16)
    ensures
        debug_text(MicroOp::Auipc { rd, imm, pc_offset }) == record(
            "Auipc"@,
            seq![("rd"@, dec(rd as nat)), ("imm"@, dec_signed(imm as int)), ("pc_offset"@, dec(pc_offset as nat))],
        ),
{
    lemma_debug_upper_pc("Auipc"@, rd, imm, pc_offset);
}

/// The record of an instruction has its name and all its fields in order.
#[verifier::spinoff_prover]
pub proof fn law_record_load(rd: u8, rs1: u8, imm: i64, pc_offset: u16)
    ensures
        debug_text(MicroOp::Lb { rd, rs1, imm, pc_offset }) == record(
            "Lb"@,
            seq![("rd"@, dec(rd as nat)), ("rs1"@, dec(rs1 as nat)), ("imm"@, dec_signed(imm as int)), ("pc_offset"@, dec(pc_offset as nat))],
        ),
        debug_text(MicroOp::Lbu { rd, rs1, imm, pc_offset }) == record(
            "Lbu"@,
            seq![("rd"@, dec(rd as nat)), ("rs1"@, dec(rs1 as nat)), ("imm"@, dec_signed(imm as int)), ("pc_offset"@, dec(pc_offset as nat))],
        ),
        debug_text(MicroOp::Lh { rd, rs1, imm, pc_offset }) == record(
            "Lh"@,
            seq![("rd"@, dec(rd as nat)), ("rs1"@, dec(rs1 as nat)), ("imm"@, dec_signed(imm as int)), ("pc_offset"@, dec(pc_offset as nat))],
        ),
        debug_text(MicroOp::Lhu { rd, rs1, imm, pc_offset }) == record(
            "Lhu"@,
            seq![("rd"@, dec(rd as nat)), ("rs1"@, dec(rs1 as nat)), ("imm"@, dec_signed(imm as int)), ("pc_offset"@, dec(pc_offset as nat))],
        ),
        debug_text(MicroOp::Lw { rd, rs1, imm, pc_offset }) == record(
            "Lw"@,
            seq![("rd"@, dec(rd as nat)), ("rs1"@, dec(rs1 as nat)), ("imm"@, dec_signed(imm as int)), ("pc_offset"@, dec(pc_offset as nat))],
        ),
        debug_text(MicroOp::Lwu { rd, rs1, imm, pc_offset }) == record(
            "Lwu"@,
            seq![("rd"@, dec(rd as nat)), ("rs1"@, dec(rs1 as nat)), ("imm"@, dec_signed(imm as int)), ("pc_offset"@, dec(pc_offset as nat))],
        ),
        debug_text(MicroOp::Ld { rd, rs1, imm, pc_offset }) == record(
            "Ld"@,
            seq![("rd"@, dec(rd as nat)), ("rs1"@, dec(rs1 as nat)), ("imm"@, dec_signed(imm as int)), ("pc_offset"@, dec(pc_offset as nat))],
        ),
{
    lemma_debug_load("Lb"@, rd, rs1, imm, pc_offset);
    lemma_debug_load("Lbu"@, rd, rs1, imm, pc_offset);
    lemma_debug_load("Lh"@, rd, rs1, imm, pc_offset);
    lemma_debug_load("Lhu"@, rd, rs1, imm, pc_offset);
    lemma_debug_load("Lw"@, rd, rs1, imm, pc_offset);
    lemma_debug_load("Lwu"@, rd, rs1, imm, pc_offset);
    lemma_debug_load("Ld"@, rd, rs1, imm, pc_offset);
}

/// The record of an instruction has its name and all its fields in order.
#[verifier::spinoff_prover]
pub proof fn law_record_store(rs1: u8, rs2: u8, imm: i64, pc_offset: u16)
    ensures
        debug_text(MicroOp::Sb { rs1, rs2, imm, pc_offset }) == record(
            "Sb"@,
            seq![("rs1"@, dec(rs1 as nat)), ("rs2"@, dec(rs2 as nat)), ("imm"@, dec_signed(imm as int)), ("pc_offset"@, dec(pc_offset as nat))],
        ),
        debug_text(MicroOp::Sh { rs1, rs2, imm, pc_offset }) == record(
            "Sh"@,
            seq![("rs1"@, dec(rs1 as nat)), ("rs2"@, dec(rs2 as nat)), ("imm"@, dec_signed(imm as int)), ("pc_offset"@, dec(pc_offset as nat))],
        ),
        debug_text(MicroOp::Sw { rs1, rs2, imm, pc_offset }) == record(
            "Sw"@,
            seq![("rs1"@, dec(rs1 as nat)), ("rs2"@, dec(rs2 as nat)), ("imm"@, dec_signed(imm as int)), ("pc_offset"@, dec(pc_offset as nat))],
        ),
        debug_text(MicroOp::Sd { rs1, rs2, imm, pc_offset }) == record(
            "Sd"@,
            seq![("rs1"@, dec(rs1 as nat)), ("rs2"@, dec(rs2 as nat)), ("imm"@, dec_signed(imm as int)), ("pc_offset"@, dec(pc_offset as nat))],
        ),
{
    lemma_debug_store("Sb"@, rs1, rs2, imm, pc_offset);
    lemma_debug_store("Sh"@, rs1, rs2, imm, pc_offset);
    lemma_debug_store("Sw"@, rs1, rs2, imm, pc_offset);
    lemma_debug_store("Sd"@, rs1, rs2, imm, pc_offset);
}

/// The record of an instruction has its name and all its fields in order.
#[verifier::spinoff_prover]
pub proof fn law_record_branch(rs1: u8, rs2: u8, imm: i64, pc_offset: u16, insn_len: u8)
    ensures
        debug_text(MicroOp::Beq { rs1, rs2, imm, pc_offset, insn_len }) == record(
            "Beq"@,
            seq![("rs1"@, dec(rs1 as nat)), ("rs2"@, dec(rs2 as nat)), ("imm"@, dec_signed(imm as int)), ("pc_offset"@, dec(pc_offset as nat)), ("insn_len"@, dec(insn_len as nat))],
        ),
        debug_text(MicroOp::Bne { rs1, rs2, imm, pc_offset, insn_len }) == record(
            "Bne"@,
            seq![("rs1"@, dec(rs1 as nat)), ("rs2"@, dec(rs2 as nat)), ("imm"@, dec_signed(imm as int)), ("pc_offset"@, dec(pc_offset as nat)), ("insn_len"@, dec(insn_len as nat))],
        ),
        debug_text(MicroOp::Blt { rs1, rs2, imm, pc_offset, insn_len }) == record(
            "Blt"@,
            seq![("rs1"@, dec(rs1 as nat)), ("rs2"@, dec(rs2 as nat)), ("imm"@, dec_signed(imm as int)), ("pc_offset"@, dec(pc_offset as nat)), ("insn_len"@, dec(insn_len as nat))],
        ),
        debug_text(MicroOp::Bge { rs1, rs2, imm, pc_offset, insn_len }) == record(
            "Bge"@,
            seq![("rs1"@, dec(rs1 as nat)), ("rs2"@, dec(rs2 as nat)), ("imm"@, dec_signed(imm as int)), ("pc_offset"@, dec(pc_offset as nat)), ("insn_len"@, dec(insn_len as nat))],
        ),
        debug_text(MicroOp::Bltu { rs1, rs2, imm, pc_offset, insn_len }) == record(
            "Bltu"@,
            seq![("rs1"@, dec(rs1 as nat)), ("rs2"@, dec(rs2 as nat)), ("imm"@, dec_signed(imm as int)), ("pc_offset"@, dec(pc_offset as nat)), ("insn_len"@, dec(insn_len as nat))],
        ),
        debug_text(MicroOp::Bgeu { rs1, rs2, imm, pc_offset, insn_len }) == record(
            "Bgeu"@,
            seq![("rs1"@, dec(rs1 as nat)), ("rs2"@, dec(rs2 as nat)), ("imm"@, dec_signed(imm as int)), ("pc_offset"@, dec(pc_offset as nat)), ("insn_len"@, dec(insn_len as nat))],
        ),
{
    lemma_debug_branch("Beq"@, rs1, rs2, imm, pc_offset, insn_len);
    lemma_debug_branch("Bne"@, rs1, rs2, imm, pc_offset, insn_len);
    lemma_debug_branch("Blt"@, rs1, rs2, imm, pc_offset, insn_len);
    lemma_debug_branch("Bge"@, rs1, rs2, imm, pc_offset, insn_len);
    lemma_debug_branch("Bltu"@, rs1, rs2, imm, pc_offset, insn_len);
    lemma_debug_branch("Bgeu"@, rs1, rs2, imm, pc_offset, insn_len);
}

/// The record of an instruction has its name and all its fields in order.
#[verifier::spinoff_prover]
pub proof fn law_record_jal(rd: u8, imm: i64, pc_offset: u16, insn_len: u8)
    ensures
        debug_text(MicroOp::Jal { rd, imm, pc_offset, insn_len }) == record(
            "Jal"@,
            seq![("rd"@, dec(rd as nat)), ("imm"@, dec_signed(imm as int)), ("pc_offset"@, dec(pc_offset as nat)), ("insn_len"@, dec(insn_len as nat))],
        ),
{
    lemma_debug_jal("Jal"@, rd, imm, pc_offset, insn_len);
}

/// The record of an instruction has its name and all its fields in order.
#[verifier::spinoff_prover]
pub proof fn law_record_jalr(rd: u8, rs1: u8, imm: i64, pc_offset: u16, insn_len: u8)
    ensures
        debug_text(MicroOp::Jalr { rd, rs1, imm, pc_offset, insn_len }) == record(
            "Jalr"@,
            seq![("rd"@, dec(rd as nat)), ("rs1"@, dec(rs1 as nat)), ("imm"@, dec_signed(imm as int)), ("pc_offset"@, dec(pc_offset as nat)), ("insn_len"@, dec(insn_len as nat))],
        ),
{
    lemma_debug_jalr("Jalr"@, rd, rs1, imm, pc_offset, insn_len);
}

/// The record of an instruction has its name and all its fields in order.
#[verifier::spinoff_prover]
pub proof fn law_record_csr(rd: u8, rs1: u8, csr: u16, pc_offset: u16)
    ensures
        debug_text(MicroOp::Csrrw { rd, rs1, csr, pc_offset }) == record(
            "Csrrw"@,
            seq![("rd"@, dec(rd as nat)), ("rs1"@, dec(rs1 as nat)), ("csr"@, dec(csr as nat)), ("pc_offset"@, dec(pc_offset as nat))],
        ),
        debug_text(MicroOp::Csrrs { rd, rs1, csr, pc_offset }) == record(
            "Csrrs"@,
            seq![("rd"@, dec(rd as nat)), ("rs1"@, dec(rs1 as nat)), ("csr"@, dec(csr as nat)), ("pc_offset"@, dec(pc_offset as nat))],
        ),
        debug_text(MicroOp::Csrrc { rd, rs1, csr, pc_offset }) == record(
            "Csrrc"@,
            seq![("rd"@, dec(rd as nat)), ("rs1"@, dec(rs1 as nat)), ("csr"@, dec(csr as nat)), ("pc_offset"@, dec(pc_offset as nat))],
        ),
{
    lemma_debug_csr("Csrrw"@, rd, rs1, csr, pc_offset);
    lemma_debug_csr("Csrrs"@, rd, rs1, csr, pc_offset);
    lemma_debug_csr("Csrrc"@, rd, rs1, csr, pc_offset);
}

/// The record of an instruction has its name and all its fields in order.
#[verifier::spinoff_prover]
pub proof fn law_record_csr_imm(rd: u8, zimm: u8, csr: u16, pc_offset: u16)
    ensures
        debug_text(MicroOp::Csrrwi { rd, zimm, csr, pc_offset }) == record(
            "Csrrwi"@,
            seq![("rd"@, dec(rd as nat)), ("zimm"@, dec(zimm as nat)), ("csr"@, dec(csr as nat)), ("pc_offset"@, dec(pc_offset as nat))],
        ),
        debug_text(MicroOp::Csrrsi { rd, zimm, csr, pc_offset }) == record(
            "Csrrsi"@,
            seq![("rd"@, dec(rd as nat)), ("zimm"@, dec(zimm as nat)), ("csr"@, dec(csr as nat)), ("pc_offset"@, dec(pc_offset as nat))],
        ),
        debug_text(MicroOp::Csrrci { rd, zimm, csr, pc_offset }) == record(
            "Csrrci"@,
            seq![("rd"@, dec(rd as nat)), ("zimm"@, dec(zimm as nat)), ("csr"@, dec(csr as nat)), ("pc_offset"@, dec(pc_offset as nat))],
        ),
{
    lemma_debug_csr_imm("Csrrwi"@, rd, zimm, csr, pc_offset);
    lemma_debug_csr_imm("Csrrsi"@, rd, zimm, csr, pc_offset);
    lemma_debug_csr_imm("Csrrci"@, rd, zimm, csr, pc_offset);
}

/// The record of an instruction has its name and all its fields in order.
#[verifier::spinoff_prover]
pub proof fn law_record_system(pc_offset: u16)
    ensures
        debug_text(MicroOp::Ecall { pc_offset }) == record(
            "Ecall"@,
            seq![("pc_offset"@, dec(pc_offset as nat))],
        ),
        debug_text(MicroOp::Ebreak { pc_offset }) == record(
            "Ebreak"@,
            seq![("pc_offset"@, dec(pc_offset as nat))],
        ),
        debug_text(MicroOp::Mret { pc_offset }) == record(
            "Mret"@,
            seq![("pc_offset"@, dec(pc_offset as nat))],
        ),
        debug_text(MicroOp::Sret { pc_offset }) == record(
            "Sret"@,
            seq![("pc_offset"@, dec(pc_offset as nat))],
        ),
        debug_text(MicroOp::Wfi { pc_offset }) == record(
            "Wfi"@,
            seq![("pc_offset"@, dec(pc_offset as nat))],
        ),
        debug_text(MicroOp::SfenceVma { pc_offset }) == record(
            "SfenceVma"@,
            seq![("pc_offset"@, dec(pc_offset as nat))],
        ),
{
    lemma_debug_system("Ecall"@, pc_offset);
    lemma_debug_system("Ebreak"@, pc_offset);
    lemma_debug_system("Mret"@, pc_offset);
    lemma_debug_system("Sret"@, pc_offset);
    lemma_debug_system("Wfi"@, pc_offset);
    lemma_debug_system("SfenceVma"@, pc_offset);
}

/// The fence has no fields.
pub proof fn law_record_alone()
    ensures
        debug_text(MicroOp::Fence) == "Fence"@,
{
}

/// The record of an instruction has its name and all its fields in order.
#[verifier::spinoff_prover]
pub proof fn law_record_lr(rd: u8, rs1: u8, pc_offset: u16)
    ensures
        debug_text(MicroOp::LrW { rd, rs1, pc_offset }) == record(
            "LrW"@,
            seq![("rd"@, dec(rd as nat)), ("rs1"@, dec(rs1 as nat)), ("pc_offset"@, dec(pc_offset as nat))],
        ),
        debug_text(MicroOp::LrD { rd, rs1, pc_offset }) == record(
            "LrD"@,
            seq![("rd"@, dec(rd as nat)), ("rs1"@, dec(rs1 as nat)), ("pc_offset"@, dec(pc_offset as nat))],
        ),
{
    lemma_debug_lr("LrW"@, rd, rs1, pc_offset);
    lemma_debug_lr("LrD"@, rd, rs1, pc_offset);
}

/// The record of an instruction has its name and all its fields in order.
#[verifier::spinoff_prover]
pub proof fn law_record_sc(rd: u8, rs1: u8, rs2: u8, pc_offset: u16)
    ensures
        debug_text(MicroOp::ScW { rd, rs1, rs2, pc_offset }) == record(
            "ScW"@,
            seq![("rd"@, dec(rd as nat)), ("rs1"@, dec(rs1 as nat)), ("rs2"@, dec(rs2 as nat)), ("pc_offset"@, dec(pc_offset as nat))],
        ),
        debug_text(MicroOp::ScD { rd, rs1, rs2, pc_offset }) == record(
            "ScD"@,
            seq![("rd"@, dec(rd as nat)), ("rs1"@, dec(rs1 as nat)), ("rs2"@, dec(rs2 as nat)), ("pc_offset"@, dec(pc_offset as nat))],
        ),
{
    lemma_debug_sc("ScW"@, rd, rs1, rs2, pc_offset);
    lemma_debug_sc("ScD"@, rd, rs1, rs2, pc_offset);
}

/// The record of an instruction has its name and all its fields in order.
#[verifier::spinoff_prover]
pub proof fn law_record_amo(rd: u8, rs1: u8, rs2: u8, is_word: bool, pc_offset: u16)
    ensures
        debug_text(MicroOp::AmoSwap { rd, rs1, rs2, is_word, pc_offset }) == record(
            "AmoSwap"@,
            seq![("rd"@, dec(rd as nat)), ("rs1"@, dec(rs1 as nat)), ("rs2"@, dec(rs2 as nat)), ("is_word"@, bool_text(is_word)), ("pc_offset"@, dec(pc_offset as nat))],
        ),
        debug_text(MicroOp::AmoAdd { rd, rs1, rs2, is_word, pc_offset }) == record(
            "AmoAdd"@,
            seq![("rd"@, dec(rd as nat)), ("rs1"@, dec(rs1 as nat)), ("rs2"@, dec(rs2 as nat)), ("is_word"@, bool_text(is_word)), ("pc_offset"@, dec(pc_offset as nat))],
        ),
        debug_text(MicroOp::AmoXor { rd, rs1, rs2, is_word, pc_offset }) == record(
            "AmoXor"@,
            seq![("rd"@, dec(rd as nat)), ("rs1"@, dec(rs1 as nat)), ("rs2"@, dec(rs2 as nat)), ("is_word"@, bool_text(is_word)), ("pc_offset"@, dec(pc_offset as nat))],
        ),
        debug_text(MicroOp::AmoAnd { rd, rs1, rs2, is_word, pc_offset }) == record(
            "AmoAnd"@,
            seq![("rd"@, dec(rd as nat)), ("rs1"@, dec(rs1 as nat)), ("rs2"@, dec(rs2 as nat)), ("is_word"@, bool_text(is_word)), ("pc_offset"@, dec(pc_offset as nat))],
        ),
        debug_text(MicroOp::AmoOr { rd, rs1, rs2, is_word, pc_offset }) == record(
            "AmoOr"@,
            seq![("rd"@, dec(rd as nat)), ("rs1"@, dec(rs1 as nat)), ("rs2"@, dec(rs2 as nat)), ("is_word"@, bool_text(is_word)), ("pc_offset"@, dec(pc_offset as nat))],
        ),
        debug_text(MicroOp::AmoMin { rd, rs1, rs2, is_word, pc_offset }) == record(
            "AmoMin"@,
            seq![("rd"@, dec(rd as nat)), ("rs1"@, dec(rs1 as nat)), ("rs2"@, dec(rs2 as nat)), ("is_word"@, bool_text(is_word)), ("pc_offset"@, dec(pc_offset as nat))],
        ),
        debug_text(MicroOp::AmoMax { rd, rs1, rs2, is_word, pc_offset }) == record(
            "AmoMax"@,
            seq![("rd"@, dec(rd as nat)), ("rs1"@, dec(rs1 as nat)), ("rs2"@, dec(rs2 as nat)), ("is_word"@, bool_text(is_word)), ("pc_offset"@, dec(pc_offset as nat))],
        ),
        debug_text(MicroOp::AmoMinu { rd, rs1, rs2, is_word, pc_offset }) == record(
            "AmoMinu"@,
            seq![("rd"@, dec(rd as nat)), ("rs1"@, dec(rs1 as nat)), ("rs2"@, dec(rs2 as nat)), ("is_word"@, bool_text(is_word)), ("pc_offset"@, dec(pc_offset as nat))],
        ),
        debug_text(MicroOp::AmoMaxu { rd, rs1, rs2, is_word, pc_offset }) == record(
            "AmoMaxu"@,
            seq![("rd"@, dec(rd as nat)), ("rs1"@, dec(rs1 as nat)), ("rs2"@, dec(rs2 as nat)), ("is_word"@, bool_text(is_word)), ("pc_offset"@, dec(pc_offset as nat))],
        ),
{
    lemma_debug_amo("AmoSwap"@, rd, rs1, rs2, is_word, pc_offset);
    lemma_debug_amo("AmoAdd"@, rd, rs1, rs2, is_word, pc_offset);
    lemma_debug_amo("AmoXor"@, rd, rs1, rs2, is_word, pc_offset);
    lemma_debug_amo("AmoAnd"@, rd, rs1, rs2, is_word, pc_offset);
    lemma_debug_amo("AmoOr"@, rd, rs1, rs2, is_word, pc_offset);
    lemma_debug_amo("AmoMin"@, rd, rs1, rs2, is_word, pc_offset);
    lemma_debug_amo("AmoMax"@, rd, rs1, rs2, is_word, pc_offset);
    lemma_debug_amo("AmoMinu"@, rd, rs1, rs2, is_word, pc_offset);
    lemma_debug_amo("AmoMaxu"@, rd, rs1, rs2, is_word, pc_offset);
}

} // verus!
